use script::repl::history::split_lines;
use script::repl::history::History;
use script::repl::module_loader::{ModuleExports, ModuleLoader};
use script::repl::session::{check_session_version, Session};
use script::runtime::value::Value;
use script::types::{FunctionSignature, Type};

fn no_files(_path: &String) -> bool {
    false
}

fn no_parser(_name: &str, _path: &String) -> Result<ModuleExports, String> {
    Err("no parser".to_string())
}

#[test]
fn test_history_basic_operations() {
    let mut history = History::new("test_history".to_string());

    history.add("let x = 5".to_string());
    history.add("let y = 10".to_string());
    history.add("x + y".to_string());

    assert_eq!(history.len(), 3);
    assert!(!history.is_empty());

    let recent = history.recent(2);
    assert_eq!(recent.len(), 2);
    assert_eq!(recent[0], "let y = 10");
    assert_eq!(recent[1], "x + y");

    let matches = history.search("let");
    assert_eq!(matches.len(), 2);
}

#[test]
fn test_history_deduplication() {
    let mut history = History::new("test_history".to_string());

    history.add("same command".to_string());
    history.add("same command".to_string());
    history.add("different command".to_string());

    assert_eq!(history.len(), 2);
}

#[test]
fn test_history_max_size() {
    let mut history = History::new("test_history".to_string());
    history.set_max_size(3);

    for i in 0..5 {
        history.add(format!("command {}", i));
    }

    assert_eq!(history.len(), 3);
    assert_eq!(history.get(0).unwrap(), "command 2");
    assert_eq!(history.get(2).unwrap(), "command 4");
}

#[test]
fn history_ignores_blank_commands_and_loads_lines() {
    let mut history = History::new("h".to_string());
    history.add("   \t".to_string());
    assert!(history.is_empty());
    history.set_max_size(2);
    history.load_lines(vec!["a".to_string(), " ".to_string(), "b".to_string(), "c".to_string()]);
    assert_eq!(history.all(), &vec!["b".to_string(), "c".to_string()]);
    assert_eq!(history.remove(0), Some("b".to_string()));
    assert_eq!(history.remove(5), None);
    assert_eq!(history.recent(10), vec!["c".to_string()]);
    history.clear();
    assert_eq!(history.len(), 0);
}

#[test]
fn test_session_variables() {
    let mut session = Session::new();

    session.define_variable("x".to_string(), Value::I32(42), Type::I32);

    assert!(session.is_defined("x"));
    assert_eq!(session.get_variable("x"), Some(&Value::I32(42)));
    assert_eq!(session.variables().len(), 1);
}

#[test]
fn test_session_clear() {
    let mut session = Session::new();

    session.define_variable("x".to_string(), Value::I32(42), Type::I32);
    session.define_type("MyType".to_string(), Type::String);

    assert_eq!(session.item_count(), 2);

    session.clear();
    assert_eq!(session.item_count(), 0);
    assert!(!session.is_defined("x"));
}

#[test]
fn test_session_remove() {
    let mut session = Session::new();

    session.define_variable("x".to_string(), Value::I32(42), Type::I32);
    assert!(session.is_defined("x"));

    assert!(session.remove("x"));
    assert!(!session.is_defined("x"));

    assert!(!session.remove("y"));
}

#[test]
fn test_session_validation() {
    let session = Session::new();
    assert!(session.validate().is_ok());
}

#[test]
fn test_session_summary() {
    let mut session = Session::new();

    session.define_variable("x".to_string(), Value::I32(42), Type::I32);
    session.define_type("MyType".to_string(), Type::String);

    let summary = session.summary();
    assert!(summary.contains("1 variables"));
    assert!(summary.contains("0 functions"));
    assert!(summary.contains("1 types"));
    assert_eq!(summary, "Session: 1 variables, 0 functions, 1 types");
}

#[test]
fn session_names_are_sorted_and_duplicates_reported() {
    let mut session = Session::new();
    session.define_variable("b".to_string(), Value::Null, Type::Unknown);
    session.define_type("a".to_string(), Type::Bool);
    let sig = FunctionSignature {
        generic_params: None,
        params: vec![],
        return_type: Type::Unknown,
        is_const: false,
        is_async: false,
    };
    session.define_function("b".to_string(), sig);
    assert_eq!(session.list_names(), vec!["a".to_string(), "b".to_string(), "b".to_string()]);
    assert_eq!(session.validate(), Err("Duplicate definition: b".to_string()));

    let mut other = Session::new();
    other.define_variable("z".to_string(), Value::Bool(true), Type::Bool);
    session.import_from(&other);
    assert_eq!(session.get_variable("z"), Some(&Value::Bool(true)));
}

#[test]
fn session_version_check() {
    assert!(check_session_version(Some("0.5.0-alpha")).is_ok());
    assert!(check_session_version(None).is_ok());
    assert_eq!(
        check_session_version(Some("0.4.0")),
        Err("Session version mismatch: expected 0.5.0-alpha, found 0.4.0".to_string())
    );
}

#[test]
fn test_module_loader_creation() {
    let loader = ModuleLoader::new();
    assert!(!loader.search_paths().is_empty());
    assert_eq!(loader.module_count(), 0);
}

#[test]
fn test_add_search_path() {
    let mut loader = ModuleLoader::new();
    let initial_count = loader.search_paths().len();

    loader.add_search_path("/custom/path");
    assert_eq!(loader.search_paths().len(), initial_count + 1);
    assert!(loader.search_paths().contains(&"/custom/path".to_string()));
}

#[test]
fn test_module_not_found() {
    let mut loader = ModuleLoader::new();
    let result = loader.load_module("nonexistent_module", &no_files, &no_parser, 0);
    assert!(result.is_err());
    assert!(result.unwrap_err().contains("not found"));
}

#[test]
fn test_module_info_tracking() {
    let loader = ModuleLoader::new();
    assert!(!loader.is_module_loaded("test"));
    assert!(loader.list_loaded_modules().is_empty());
    assert_eq!(loader.total_exports_count(), 0);
}

#[test]
fn test_module_unload() {
    let mut loader = ModuleLoader::new();
    assert!(!loader.unload_module("nonexistent"));
}

#[test]
fn module_search_and_cache() {
    let mut loader = ModuleLoader::with_home(None);
    loader.add_search_path("/custom/path");
    assert_eq!(
        loader.module_file_candidates("m"),
        vec![
            "./m.script".to_string(),
            "./m/mod.script".to_string(),
            "./m/main.script".to_string(),
            "./lib/m.script".to_string(),
            "./lib/m/mod.script".to_string(),
            "./lib/m/main.script".to_string(),
            "./modules/m.script".to_string(),
            "./modules/m/mod.script".to_string(),
            "./modules/m/main.script".to_string(),
            "/custom/path/m.script".to_string(),
            "/custom/path/m/mod.script".to_string(),
            "/custom/path/m/main.script".to_string(),
        ]
    );
    let err = loader.load_module("m", &no_files, &no_parser, 0).unwrap_err();
    assert_eq!(
        err,
        "Module 'm' not found in search paths: [\"./\", \"./lib/\", \"./modules/\", \"/custom/path\"]"
    );

    let found = |p: &String| p == "./lib/m/mod.script";
    let parse = |_n: &str, _p: &String| {
        let mut e = ModuleExports::new();
        e.variables.insert("v".to_string(), Type::I32);
        e.types.insert("T".to_string(), Type::Named("T".to_string()));
        Ok(e)
    };
    let exports = loader.load_module("m", &found, &parse, 42).unwrap();
    assert_eq!(exports.variables.len(), 1);
    let info = loader.get_module_info("m").unwrap();
    assert_eq!(info.path, "./lib/m/mod.script");
    assert_eq!(info.loaded_at, 42);
    assert!(loader.is_module_fresh("m", Some(40)));
    assert!(!loader.is_module_fresh("m", Some(43)));
    assert_eq!(loader.total_exports_count(), 2);

    let imported = loader.import_items("m", &["T".to_string()], &no_files, &no_parser, 50).unwrap();
    assert_eq!(imported.types.len(), 1);
    assert_eq!(imported.variables.len(), 0);
    let err = loader.import_items("m", &["nope".to_string()], &no_files, &no_parser, 50).unwrap_err();
    assert_eq!(err, "Item 'nope' not found in module 'm'");
    let all = loader.import_all("m", &no_files, &no_parser, 50).unwrap();
    assert_eq!(all.variables.len() + all.types.len(), 2);
    assert_eq!(loader.list_loaded_modules(), vec!["m".to_string()]);
    assert!(loader.get_module_dependencies("m").is_empty());
    assert!(loader.reload_module("m", &no_files, &no_parser, 60).is_err());
    assert!(!loader.is_module_loaded("m"));
}

#[test]
fn test_history_persistence() {
    let saved: Vec<String> = {
        let mut history = History::new("test_history".to_string());
        history.add("command 1".to_string());
        history.add("command 2".to_string());
        history.all().clone()
    };

    let mut history = History::new("test_history".to_string());
    history.load_lines(saved);
    assert_eq!(history.len(), 2);
    assert_eq!(history.get(0).unwrap(), "command 1");
    assert_eq!(history.get(1).unwrap(), "command 2");
}

#[test]
fn history_text_reads_back_as_the_same_entries() {
    let mut history = History::new("test_history".to_string());
    history.add("let x = 1".to_string());
    history.add("x + 1".to_string());
    let text = history.save_text();
    assert_eq!(text, "let x = 1\nx + 1\n");
    let mut loaded = History::new("test_history".to_string());
    loaded.load_lines(script::repl::history::split_lines(&text));
    assert_eq!(loaded.all(), history.all());
}

#[test]
fn split_lines_reads_like_a_line_reader() {
    assert_eq!(split_lines("a\r\nb\n\nc"), vec!["a", "b", "", "c"]);
    assert_eq!(split_lines(""), Vec::<String>::new());
    assert_eq!(split_lines("one\n"), vec!["one"]);
}

#[test]
fn import_items_loads_a_module_not_yet_loaded() {
    let mut loader = ModuleLoader::new();
    let found = |p: &String| p == "./n.script";
    let parse = |_n: &str, _p: &String| {
        let mut e = ModuleExports::new();
        e.variables.insert("v".to_string(), Type::I32);
        Ok(e)
    };
    assert!(!loader.is_module_loaded("n"));
    let imported = loader.import_items("n", &["v".to_string()], &found, &parse, 7).unwrap();
    assert_eq!(imported.variables.len(), 1);
    assert!(loader.is_module_loaded("n"));
    assert_eq!(loader.get_module_info("n").unwrap().loaded_at, 7);
    // a load that fails passes its error through and loads nothing
    let err = loader.import_all("gone", &no_files, &no_parser, 8).unwrap_err();
    assert!(err.starts_with("Module 'gone' not found in search paths"));
    assert!(!loader.is_module_loaded("gone"));
}
