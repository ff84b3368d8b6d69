use script::repl::history::history_file_path;
use script::repl::module_loader::ModuleLoader;
use script::repl::session::Session;
use script::runtime::value::Value;
use script::types::Type;

#[test]
fn test_session_file_under_home() {
    let s = Session::with_home(Some("/home/u".to_string()));
    assert_eq!(s.session_file(), Some(&"/home/u/.script_session".to_string()));
    let s = Session::with_home(Some("/home/u/".to_string()));
    assert_eq!(s.session_file(), Some(&"/home/u/.script_session".to_string()));
    let s = Session::with_home(None);
    assert_eq!(s.session_file(), None);
}

#[test]
fn test_history_file_under_home() {
    assert_eq!(history_file_path(Some("/h".to_string())), Ok("/h/.script_history".to_string()));
    assert_eq!(history_file_path(None), Err("Home directory not found".to_string()));
}

#[test]
fn test_module_search_paths_with_home() {
    let loader = ModuleLoader::with_home(Some("/home/u".to_string()));
    let paths: Vec<String> = loader.search_paths().to_vec();
    assert_eq!(paths, vec!["./", "./lib/", "./modules/", "/home/u/.script/lib"]);
    let loader = ModuleLoader::with_home(None);
    assert_eq!(loader.search_paths().to_vec(), vec!["./", "./lib/", "./modules/"]);
}

#[test]
fn test_session_serialization_document() {
    let mut s = Session::with_home(None);
    s.define_variable("x".to_string(), Value::I32(5), Type::I32);
    s.define_type("T".to_string(), Type::Bool);
    let text = s.serialize_session("2024-01-01T00:00:00+00:00").unwrap();
    let doc: serde_json::Value = serde_json::from_str(&text).unwrap();
    assert_eq!(doc["version"], serde_json::Value::String("0.5.0-alpha".to_string()));
    assert_eq!(doc["timestamp"], serde_json::Value::String("2024-01-01T00:00:00+00:00".to_string()));
    assert_eq!(doc["variables"]["x"], serde_json::Value::String(format!("{:?}", Value::I32(5))));
    assert_eq!(doc["types"]["T"], serde_json::Value::String(format!("{:?}", Type::Bool)));
    assert!(doc["functions"].as_object().unwrap().is_empty());
    assert!(text.contains('\n'));
}

#[test]
fn test_session_file_reads_back() {
    let mut s = Session::with_home(None);
    s.define_variable("b".to_string(), Value::Bool(true), Type::Bool);
    s.define_variable("a".to_string(), Value::String("x".to_string()), Type::String);
    let text = s.serialize_session("now").unwrap();
    assert_eq!(s.deserialize_session(&text), Ok(true));
}

#[test]
fn test_session_file_errors() {
    let s = Session::with_home(None);
    let err = s.deserialize_session("not json").unwrap_err();
    assert!(err.starts_with("JSON parse error: "));
    assert_eq!(s.deserialize_session("[1, 2]"), Ok(false));
    assert_eq!(s.deserialize_session("{\"version\": 3}"), Ok(true));
    assert_eq!(
        s.deserialize_session("{\"version\": \"0.4.0\"}"),
        Err("Session version mismatch: expected 0.5.0-alpha, found 0.4.0".to_string())
    );
}
