//! Command history of the interactive shell: the commands entered, oldest
//! first, kept up to a limit.
use vstd::prelude::*;
use crate::repl::paths::{home_dir_text, opt_view, path_under, under_home};
use crate::text::{
    append_text, chars_of, chars_to_string, contains_text, copy_text, is_blank, strings_view, text_contains, text_eq,
    text_is_blank,
};

verus! {

/// The history file under the home directory `home`: `.script_history`,
/// or an error where there is no home directory.
pub fn history_file_path(home: Option<String>) -> (r: Result<String, String>)
    ensures
        match under_home(opt_view(home), ".script_history"@) {
            Some(p) => r matches Ok(s) && s@ == p,
            None => r matches Err(e) && e@ == "Home directory not found"@,
        },
{
    proof {
        reveal_strlit(".script_history");
    }
    match path_under(&home, ".script_history") {
        Some(p) => Ok(p),
        None => Err(String::from_str("Home directory not found")),
    }
}

/// The history file under the user's home directory.
pub fn get_history_file_path() -> (r: Result<String, String>)
    ensures
        exists|home: Option<Seq<char>>|
            match #[trigger] under_home(home, ".script_history"@) {
                Some(p) => r matches Ok(s) && s@ == p,
                None => r matches Err(e) && e@ == "Home directory not found"@,
            },
{
    let home = home_dir_text();
    let r = history_file_path(home);
    proof {
        let h = opt_view(home);
        assert(match under_home(h, ".script_history"@) {
            Some(p) => r matches Ok(s) && s@ == p,
            None => r matches Err(e) && e@ == "Home directory not found"@,
        });
    }
    r
}

/// Maximum number of history entries to keep
pub const MAX_HISTORY_SIZE: usize = 1000;

/// The entries after adding `command`: unchanged for a blank command or a
/// repeat of the last one; otherwise the command is appended and, beyond
/// the limit, the oldest entry is dropped.
pub open spec fn add_model(entries: Seq<Seq<char>>, command: Seq<char>, max_size: nat) -> Seq<Seq<char>> {
    if is_blank(command) || (entries.len() > 0 && entries.last() == command) {
        entries
    } else {
        let pushed = entries.push(command);
        if pushed.len() > max_size {
            pushed.drop_first()
        } else {
            pushed
        }
    }
}

/// The entries that contain `text`, oldest first.
pub open spec fn matching(entries: Seq<Seq<char>>, text: Seq<char>) -> Seq<Seq<char>>
    decreases entries.len(),
{
    if entries.len() == 0 {
        Seq::empty()
    } else {
        let rest = matching(entries.drop_last(), text);
        if contains_text(entries.last(), text) {
            rest.push(entries.last())
        } else {
            rest
        }
    }
}

/// The lines that are not blank, in order.
pub open spec fn non_blank(lines: Seq<Seq<char>>) -> Seq<Seq<char>>
    decreases lines.len(),
{
    if lines.len() == 0 {
        Seq::empty()
    } else {
        let rest = non_blank(lines.drop_last());
        if is_blank(lines.last()) {
            rest
        } else {
            rest.push(lines.last())
        }
    }
}

/// The last `n` entries (all of them when there are fewer).
pub open spec fn keep_last(s: Seq<Seq<char>>, n: nat) -> Seq<Seq<char>> {
    if s.len() > n {
        s.subrange(s.len() - n, s.len() as int)
    } else {
        s
    }
}

/// Command history manager
pub struct History {
    /// Command history storage
    commands: Vec<String>,
    /// Path to history file
    history_file: String,
    /// Maximum number of entries to keep
    max_size: usize,
}

impl History {
    /// The commands, oldest first.
    pub closed spec fn entries(&self) -> Seq<Seq<char>> {
        strings_view(self.commands@)
    }

    /// The number of entries kept at most.
    pub closed spec fn limit(&self) -> nat {
        self.max_size as nat
    }

    /// The path of the file the history is kept in.
    pub closed spec fn file(&self) -> Seq<char> {
        self.history_file@
    }

    /// Create a new history manager for the given file
    pub fn new(history_file: String) -> (h: Self)
        ensures
            h.entries() == Seq::<Seq<char>>::empty(),
            h.limit() == MAX_HISTORY_SIZE,
            h.file() == history_file@,
    {
        let h = History { commands: Vec::new(), history_file, max_size: MAX_HISTORY_SIZE };
        assert(h.entries() =~= Seq::<Seq<char>>::empty());
        h
    }

    /// The path of the history file
    pub fn history_file(&self) -> (p: &str)
        ensures
            p@ == self.file(),
    {
        self.history_file.as_str()
    }

    /// Set the number of entries kept at most (applies from the next
    /// addition or load on)
    pub fn set_max_size(&mut self, max_size: usize)
        ensures
            final(self).limit() == max_size,
            final(self).entries() == old(self).entries(),
            final(self).file() == old(self).file(),
    {
        self.max_size = max_size;
    }

    /// Drops the oldest entries beyond the limit.
    fn trim_to_limit(&mut self)
        ensures
            final(self).entries() == keep_last(old(self).entries(), old(self).limit()),
            final(self).limit() == old(self).limit(),
            final(self).file() == old(self).file(),
    {
        let ghost start = self.entries();
        let ghost lim = self.limit();
        while self.commands.len() > self.max_size
            invariant
                self.limit() == lim,
                self.file() == old(self).file(),
                start == old(self).entries(),
                lim == old(self).limit(),
                self.entries().len() >= lim ==> self.entries() == keep_last(start, self.entries().len()),
                start.len() <= lim ==> self.entries() == start,
                self.entries().len() <= start.len(),
                start.len() > lim ==> self.entries().len() >= lim,
            decreases self.commands@.len(),
        {
            let ghost before = self.entries();
            self.commands.remove(0);
            assert(self.entries() =~= before.drop_first());
            assert(keep_last(start, self.entries().len()) =~= keep_last(start, before.len()).drop_first());
        }
        assert(self.entries() =~= keep_last(start, lim));
    }

    /// Add the lines read from a history file: blank lines are skipped and
    /// the oldest entries beyond the limit dropped
    pub fn load_lines(&mut self, lines: Vec<String>)
        ensures
            final(self).entries() == keep_last(old(self).entries() + non_blank(strings_view(lines@)), old(self).limit()),
            final(self).limit() == old(self).limit(),
            final(self).file() == old(self).file(),
    {
        let ghost start = self.entries();
        let ghost ls = strings_view(lines@);
        let mut i: usize = 0;
        while i < lines.len()
            invariant
                i <= lines@.len(),
                ls == strings_view(lines@),
                self.entries() == start + non_blank(ls.subrange(0, i as int)),
                self.limit() == old(self).limit(),
                self.file() == old(self).file(),
            decreases lines@.len() - i,
        {
            assert(ls.subrange(0, i + 1).drop_last() =~= ls.subrange(0, i as int));
            if !text_is_blank(lines[i].as_str()) {
                let ghost before = self.entries();
                self.commands.push(copy_text(lines[i].as_str()));
                assert(self.entries() =~= before.push(ls[i as int]));
            }
            i = i + 1;
        }
        assert(ls.subrange(0, lines@.len() as int) =~= ls);
        self.trim_to_limit();
    }

    /// Add a command to history; blank commands and repeats of the last
    /// command are not added, and the oldest entry goes beyond the limit
    pub fn add(&mut self, command: String)
        ensures
            final(self).entries() == add_model(old(self).entries(), command@, old(self).limit()),
            final(self).limit() == old(self).limit(),
            final(self).file() == old(self).file(),
            old(self).entries().len() <= old(self).limit() ==> final(self).entries().len() <= final(self).limit(),
    {
        if text_is_blank(command.as_str()) {
            return;
        }
        let n = self.commands.len();
        if n > 0 {
            if text_eq(self.commands[n - 1].as_str(), command.as_str()) {
                return;
            }
        }
        let ghost before = self.entries();
        self.commands.push(command);
        assert(self.entries() =~= before.push(command@));
        if self.commands.len() > self.max_size {
            let ghost pushed = self.entries();
            self.commands.remove(0);
            assert(self.entries() =~= pushed.drop_first());
        }
    }

    /// Get the most recent commands (up to `count`), oldest first
    pub fn recent(&self, count: usize) -> (r: Vec<String>)
        ensures
            strings_view(r@) == keep_last(self.entries(), count as nat),
    {
        let len = self.commands.len();
        let start = if count < len {
            len - count
        } else {
            0
        };
        let mut r: Vec<String> = Vec::new();
        let mut i: usize = start;
        while i < len
            invariant
                start <= i <= len,
                len == self.commands@.len(),
                strings_view(r@) == self.entries().subrange(start as int, i as int),
            decreases len - i,
        {
            let ghost before = strings_view(r@);
            r.push(copy_text(self.commands[i].as_str()));
            assert(strings_view(r@) =~= before.push(self.entries()[i as int]));
            i = i + 1;
            assert(strings_view(r@) =~= self.entries().subrange(start as int, i as int));
        }
        assert(keep_last(self.entries(), count as nat) =~= self.entries().subrange(start as int, len as int));
        r
    }

    /// Get all commands, oldest first
    pub fn all(&self) -> (r: &Vec<String>)
        ensures
            strings_view(r@) == self.entries(),
    {
        &self.commands
    }

    /// The text of the history file: each entry on a line of its own.
    pub fn save_text(&self) -> (t: String)
        ensures
            t@ == history_text(self.entries()),
    {
        let mut t = String::new();
        let mut i: usize = 0;
        while i < self.commands.len()
            invariant
                i <= self.commands@.len(),
                t@ == history_text(self.entries().take(i as int)),
            decreases self.commands@.len() - i,
        {
            assert(self.entries().take(i + 1).drop_last() =~= self.entries().take(i as int));
            append_text(&mut t, self.commands[i].as_str());
            append_text(&mut t, "\n");
            proof {
                reveal_strlit("\n");
            }
            i = i + 1;
        }
        assert(self.entries().take(self.commands@.len() as int) =~= self.entries());
        t
    }

    /// Clear all history
    pub fn clear(&mut self)
        ensures
            final(self).entries() == Seq::<Seq<char>>::empty(),
            final(self).limit() == old(self).limit(),
            final(self).file() == old(self).file(),
    {
        self.commands = Vec::new();
        assert(self.entries() =~= Seq::<Seq<char>>::empty());
    }

    /// Get the number of commands in history
    pub fn len(&self) -> (n: usize)
        ensures
            n == self.entries().len(),
    {
        self.commands.len()
    }

    /// Check if history is empty
    pub fn is_empty(&self) -> (b: bool)
        ensures
            b == (self.entries().len() == 0),
    {
        self.commands.len() == 0
    }

    /// Search history for commands containing the given text, oldest first
    pub fn search(&self, text: &str) -> (r: Vec<String>)
        ensures
            strings_view(r@) == matching(self.entries(), text@),
            strings_view(r@) == self.entries().filter(|e: Seq<char>| contains_text(e, text@)),
    {
        let mut r: Vec<String> = Vec::new();
        let mut i: usize = 0;
        while i < self.commands.len()
            invariant
                i <= self.commands@.len(),
                strings_view(r@) == matching(self.entries().subrange(0, i as int), text@),
            decreases self.commands@.len() - i,
        {
            let ghost before = strings_view(r@);
            assert(self.entries().subrange(0, i + 1).drop_last() =~= self.entries().subrange(0, i as int));
            if text_contains(self.commands[i].as_str(), text) {
                r.push(copy_text(self.commands[i].as_str()));
                assert(strings_view(r@) =~= before.push(self.entries()[i as int]));
            }
            i = i + 1;
        }
        assert(self.entries().subrange(0, self.commands@.len() as int) =~= self.entries());
        proof {
            lemma_search_is_containment(self.entries(), text@);
        }
        r
    }

    /// Get command by index (0 is oldest)
    pub fn get(&self, index: usize) -> (r: Option<&String>)
        ensures
            index < self.entries().len() ==> (r matches Some(s) && s@ == self.entries()[index as int]),
            index >= self.entries().len() ==> r is None,
    {
        if index < self.commands.len() {
            Some(&self.commands[index])
        } else {
            None
        }
    }

    /// Remove the command at index, if there is one
    pub fn remove(&mut self, index: usize) -> (r: Option<String>)
        ensures
            index < old(self).entries().len() ==> (r matches Some(s) && s@ == old(self).entries()[index as int]
                && final(self).entries() == old(self).entries().remove(index as int)),
            index >= old(self).entries().len() ==> r is None && final(self).entries() == old(self).entries(),
            final(self).limit() == old(self).limit(),
            final(self).file() == old(self).file(),
    {
        if index < self.commands.len() {
            let ghost before = self.entries();
            let s = self.commands.remove(index);
            assert(self.entries() =~= before.remove(index as int));
            Some(s)
        } else {
            None
        }
    }
}


/// The text of a history file: each entry followed by a line break.
pub open spec fn history_text(entries: Seq<Seq<char>>) -> Seq<char>
    decreases entries.len(),
{
    if entries.len() == 0 {
        Seq::empty()
    } else {
        history_text(entries.drop_last()) + entries.last() + seq!['\n']
    }
}

/// The pieces of a text between line breaks; there is always one more
/// piece than there are line breaks.
pub open spec fn split_at_breaks(t: Seq<char>) -> Seq<Seq<char>>
    decreases t.len(),
{
    if t.len() == 0 {
        seq![Seq::empty()]
    } else {
        let rest = split_at_breaks(t.drop_last());
        if t.last() == '\n' {
            rest.push(Seq::empty())
        } else {
            rest.update(rest.len() - 1, rest.last().push(t.last()))
        }
    }
}

/// A line without the carriage return that ends it, if one does.
pub open spec fn without_cr(l: Seq<char>) -> Seq<char> {
    if l.len() > 0 && l.last() == '\r' {
        l.drop_last()
    } else {
        l
    }
}

/// The lines of a text as a line reader gives them: split at line breaks,
/// with no line after a final break, and each line without a final
/// carriage return.
pub open spec fn text_lines(t: Seq<char>) -> Seq<Seq<char>> {
    let pieces = split_at_breaks(t);
    let lines = if pieces.last().len() == 0 {
        pieces.drop_last()
    } else {
        pieces
    };
    lines.map_values(|l: Seq<char>| without_cr(l))
}

/// An entry that a history file holds as it is: not blank, without a line
/// break, and not ending in a carriage return.
pub open spec fn storable(e: Seq<char>) -> bool {
    &&& !is_blank(e)
    &&& !e.contains('\n')
    &&& !(e.len() > 0 && e.last() == '\r')
}

proof fn lemma_split_plain_tail(t: Seq<char>, e: Seq<char>)
    requires
        !e.contains('\n'),
    ensures
        split_at_breaks(t + e) == split_at_breaks(t).update(
            split_at_breaks(t).len() - 1,
            split_at_breaks(t).last() + e,
        ),
        split_at_breaks(t).len() >= 1,
    decreases e.len(),
{
    lemma_split_nonempty(t);
    if e.len() == 0 {
        assert(t + e =~= t);
        assert(split_at_breaks(t).last() + e =~= split_at_breaks(t).last());
        assert(split_at_breaks(t).update(split_at_breaks(t).len() - 1, split_at_breaks(t).last())
            =~= split_at_breaks(t));
    } else {
        let e0 = e.drop_last();
        assert(!e0.contains('\n')) by {
            if e0.contains('\n') {
                let k = choose|k: int| 0 <= k < e0.len() && e0[k] == '\n';
                assert(e[k] == '\n');
            }
        }
        assert(e.last() != '\n') by {
            assert(e[e.len() - 1] == e.last());
        }
        lemma_split_plain_tail(t, e0);
        assert((t + e).drop_last() =~= t + e0);
        assert((t + e).last() == e.last());
        lemma_split_nonempty(t + e0);
        let a = split_at_breaks(t);
        assert(split_at_breaks(t + e0).len() == a.len());
        assert(a.last() + e =~= (a.last() + e0).push(e.last()));
        assert(split_at_breaks(t + e) =~= a.update(a.len() - 1, a.last() + e));
    }
}

proof fn lemma_split_nonempty(t: Seq<char>)
    ensures
        split_at_breaks(t).len() >= 1,
    decreases t.len(),
{
    if t.len() > 0 {
        lemma_split_nonempty(t.drop_last());
    }
}

proof fn lemma_split_history(entries: Seq<Seq<char>>)
    requires
        forall|i: int| 0 <= i < entries.len() ==> !(#[trigger] entries[i]).contains('\n'),
    ensures
        split_at_breaks(history_text(entries)) == entries.push(Seq::empty()),
    decreases entries.len(),
{
    if entries.len() == 0 {
        assert(split_at_breaks(Seq::<char>::empty()) =~= seq![Seq::<char>::empty()]);
        assert(entries.push(Seq::empty()) =~= seq![Seq::<char>::empty()]);
    } else {
        let front = entries.drop_last();
        let e = entries.last();
        assert forall|i: int| 0 <= i < front.len() implies !(#[trigger] front[i]).contains('\n') by {
            assert(front[i] == entries[i]);
        }
        assert(!e.contains('\n')) by {
            assert(entries[entries.len() - 1] == e);
        }
        lemma_split_history(front);
        let t = history_text(front);
        lemma_split_plain_tail(t, e);
        let whole = t + e + seq!['\n'];
        assert(history_text(entries) == whole);
        assert(whole.drop_last() =~= t + e);
        assert(whole.last() == '\n');
        assert(split_at_breaks(t).update(front.len() as int, Seq::<char>::empty() + e) =~= front.push(e)) by {
            assert(Seq::<char>::empty() + e =~= e);
        }
        assert(entries =~= front.push(e));
        assert(split_at_breaks(whole) =~= entries.push(Seq::empty()));
    }
}

/// Saving a history and reading the file back gives the same entries,
/// when each entry is storable and they are within the limit.
pub proof fn lemma_history_save_then_load(entries: Seq<Seq<char>>, limit: nat)
    requires
        forall|i: int| 0 <= i < entries.len() ==> storable(#[trigger] entries[i]),
        entries.len() <= limit,
    ensures
        keep_last(Seq::<Seq<char>>::empty() + non_blank(text_lines(history_text(entries))), limit) == entries,
{
    assert forall|i: int| 0 <= i < entries.len() implies !(#[trigger] entries[i]).contains('\n') by {
        assert(storable(entries[i]));
    }
    lemma_split_history(entries);
    let pieces = entries.push(Seq::<char>::empty());
    assert(pieces.last().len() == 0);
    assert(pieces.drop_last() =~= entries);
    let lines = entries.map_values(|l: Seq<char>| without_cr(l));
    assert(lines =~= entries) by {
        assert forall|i: int| 0 <= i < entries.len() implies lines[i] == entries[i] by {
            assert(storable(entries[i]));
        }
    }
    lemma_non_blank_keeps(entries);
    assert(Seq::<Seq<char>>::empty() + entries =~= entries);
}

/// Adding a command to a history within its limit: a blank command leaves
/// it as it is; a repeat of the last entry too; any other command becomes
/// the last entry, after the last entries of the history before it, and the
/// limit is kept. Adding the same command again right away changes
/// nothing.
pub proof fn lemma_add_command(entries: Seq<Seq<char>>, command: Seq<char>, limit: nat)
    requires
        limit >= 1,
        entries.len() <= limit,
    ensures
        is_blank(command) ==> add_model(entries, command, limit) == entries,
        entries.len() > 0 && entries.last() == command ==> add_model(entries, command, limit) == entries,
        !is_blank(command) && !(entries.len() > 0 && entries.last() == command) ==> add_model(entries, command, limit)
            == keep_last(entries.push(command), limit),
        !is_blank(command) ==> add_model(entries, command, limit).len() >= 1 && add_model(entries, command, limit).last()
            == command,
        add_model(entries, command, limit).len() <= limit,
        add_model(add_model(entries, command, limit), command, limit) == add_model(entries, command, limit),
{
    let pushed = entries.push(command);
    if pushed.len() > limit {
        assert(pushed.drop_first() =~= pushed.subrange(pushed.len() - limit, pushed.len() as int));
    }
}

/// Searching keeps exactly the entries in which the text occurs at some
/// position, in history order: the result is the history filtered by
/// containment, and an entry is found if and only if it holds the text.
pub proof fn lemma_search_is_containment(entries: Seq<Seq<char>>, text: Seq<char>)
    ensures
        matching(entries, text) == entries.filter(|e: Seq<char>| contains_text(e, text)),
        forall|e: Seq<char>|
            #[trigger] matching(entries, text).contains(e) <==> (entries.contains(e) && contains_text(e, text)),
    decreases entries.len(),
{
    reveal(Seq::filter);
    let pred = |e: Seq<char>| contains_text(e, text);
    if entries.len() > 0 {
        let front = entries.drop_last();
        lemma_search_is_containment(front, text);
        assert(entries.filter(pred) == if pred(entries.last()) {
            front.filter(pred).push(entries.last())
        } else {
            front.filter(pred)
        });
        assert(entries =~= front.push(entries.last()));
        assert forall|e: Seq<char>|
            #[trigger] matching(entries, text).contains(e) <==> (entries.contains(e) && contains_text(e, text)) by {
            let rest = matching(front, text);
            if contains_text(entries.last(), text) {
                assert(matching(entries, text) == rest.push(entries.last()));
                if rest.contains(e) {
                    let k = choose|k: int| 0 <= k < rest.len() && rest[k] == e;
                    assert(rest.push(entries.last())[k] == e);
                }
                if e == entries.last() {
                    assert(rest.push(entries.last())[rest.len() as int] == e);
                }
                if matching(entries, text).contains(e) && e != entries.last() {
                    let k = choose|k: int| 0 <= k < rest.len() + 1 && rest.push(entries.last())[k] == e;
                    assert(rest[k] == e);
                }
            }
            if entries.contains(e) && e != entries.last() {
                let k = choose|k: int| 0 <= k < entries.len() && entries[k] == e;
                assert(front[k] == e);
            }
            if front.contains(e) {
                let k = choose|k: int| 0 <= k < front.len() && front[k] == e;
                assert(entries[k] == e);
            }
            if e == entries.last() {
                assert(entries[entries.len() - 1] == e);
            }
        }
    }
    assert(matching(entries, text) =~= entries.filter(pred));
}

proof fn lemma_non_blank_keeps(s: Seq<Seq<char>>)
    requires
        forall|i: int| 0 <= i < s.len() ==> storable(#[trigger] s[i]),
    ensures
        non_blank(s) == s,
    decreases s.len(),
{
    if s.len() > 0 {
        assert forall|i: int| 0 <= i < s.drop_last().len() implies storable(#[trigger] s.drop_last()[i]) by {
            assert(s.drop_last()[i] == s[i]);
        }
        lemma_non_blank_keeps(s.drop_last());
        assert(storable(s[s.len() - 1]));
        assert(s.drop_last().push(s.last()) =~= s);
    }
}

/// Splits the text of a history file into lines as a line reader does.
pub fn split_lines(text: &str) -> (lines: Vec<String>)
    ensures
        strings_view(lines@) == text_lines(text@),
{
    let cs = chars_of(text);
    let mut done: Vec<String> = Vec::new();
    let mut cur: Vec<char> = Vec::new();
    let mut i: usize = 0;
    while i < cs.len()
        invariant
            cs@ == text@,
            i <= cs@.len(),
            split_at_breaks(text@.take(i as int)).len() >= 1,
            strings_view(done@) == split_at_breaks(text@.take(i as int)).drop_last().map_values(
                |l: Seq<char>| without_cr(l),
            ),
            cur@ == split_at_breaks(text@.take(i as int)).last(),
        decreases cs@.len() - i,
    {
        let ghost before = split_at_breaks(text@.take(i as int));
        assert(text@.take(i + 1).drop_last() =~= text@.take(i as int));
        let c = cs[i];
        if c == '\n' {
            let piece = line_without_cr(&cur);
            let ghost dv = done@;
            done.push(piece);
            assert(done@ == dv.push(piece));
            assert(strings_view(done@) =~= strings_view(dv).push(piece@));
            cur = Vec::new();
            proof {
                let after = split_at_breaks(text@.take(i + 1));
                assert(after == before.push(Seq::empty()));
                assert(after.drop_last() =~= before);
                assert(before =~= before.drop_last().push(before.last()));
                assert(strings_view(done@) =~= before.map_values(|l: Seq<char>| without_cr(l)));
            }
        } else {
            cur.push(c);
            proof {
                let after = split_at_breaks(text@.take(i + 1));
                assert(after == before.update(before.len() - 1, before.last().push(c)));
                assert(after.drop_last() =~= before.drop_last());
            }
        }
        i = i + 1;
    }
    assert(text@.take(cs@.len() as int) =~= text@);
    let ghost pieces = split_at_breaks(text@);
    if cur.len() > 0 {
        let piece = line_without_cr(&cur);
        let ghost dv = done@;
        done.push(piece);
        assert(strings_view(done@) =~= strings_view(dv).push(piece@));
        proof {
            assert(pieces =~= pieces.drop_last().push(pieces.last()));
            assert(strings_view(done@) =~= pieces.map_values(|l: Seq<char>| without_cr(l)));
        }
    }
    done
}

fn line_without_cr(line: &Vec<char>) -> (s: String)
    ensures
        s@ == without_cr(line@),
{
    if line.len() > 0 && line[line.len() - 1] == '\r' {
        let mut v: Vec<char> = Vec::new();
        let mut j: usize = 0;
        let n: usize = line.len() - 1;
        while j < n
            invariant
                n + 1 == line@.len(),
                j <= n,
                v@ == line@.take(j as int),
            decreases line@.len() - j,
        {
            v.push(line[j]);
            j = j + 1;
            assert(v@ =~= line@.take(j as int));
        }
        assert(v@ =~= line@.drop_last());
        chars_to_string(&v)
    } else {
        chars_to_string(line)
    }
}

} // verus!
