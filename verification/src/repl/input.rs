//! Line input of the interactive shell: deciding when a line opens a
//! block that continues on the next lines, and collecting those lines
//! until the block is complete.
use vstd::prelude::*;
use crate::text::{chars_of, char_is_white_space, concat3, is_blank, is_white_space, text_is_blank};

verus! {

/// What a left-to-right scan of the input has seen so far: open braces,
/// open parentheses, open brackets (each counted up on an opening and
/// down on a closing character outside a string literal), whether it is
/// inside a string literal, and whether the next character is escaped.
pub open spec fn scan(s: Seq<char>) -> (int, int, int, bool, bool)
    decreases s.len(),
{
    if s.len() == 0 {
        (0, 0, 0, false, false)
    } else {
        scan_step(scan(s.drop_last()), s.last())
    }
}

/// One step of the scan.
pub open spec fn scan_step(st: (int, int, int, bool, bool), c: char) -> (int, int, int, bool, bool) {
    let (b, p, k, ins, esc) = st;
    if esc {
        (b, p, k, ins, false)
    } else if c == '\\' && ins {
        (b, p, k, ins, true)
    } else if c == '"' {
        (b, p, k, !ins, false)
    } else if ins {
        (b, p, k, ins, false)
    } else if c == '{' {
        (b + 1, p, k, ins, false)
    } else if c == '}' {
        (b - 1, p, k, ins, false)
    } else if c == '(' {
        (b, p + 1, k, ins, false)
    } else if c == ')' {
        (b, p - 1, k, ins, false)
    } else if c == '[' {
        (b, p, k + 1, ins, false)
    } else if c == ']' {
        (b, p, k - 1, ins, false)
    } else {
        (b, p, k, ins, false)
    }
}

/// Whether the input leaves a brace, parenthesis or bracket open, or a
/// string literal unterminated.
pub open spec fn continues(s: Seq<char>) -> bool {
    let st = scan(s);
    st.0 > 0 || st.1 > 0 || st.2 > 0 || st.3
}

/// The number of white-space characters at the start of a text.
pub open spec fn leading_ws(s: Seq<char>) -> nat
    decreases s.len(),
{
    if s.len() > 0 && is_white_space(s[0]) {
        1 + leading_ws(s.drop_first())
    } else {
        0
    }
}

/// The number of white-space characters at the end of a text.
pub open spec fn trailing_ws(s: Seq<char>) -> nat
    decreases s.len(),
{
    if s.len() > 0 && is_white_space(s.last()) {
        1 + trailing_ws(s.drop_last())
    } else {
        0
    }
}

/// A text without its leading and trailing white space.
pub open spec fn trimmed(s: Seq<char>) -> Seq<char> {
    let t = s.skip(leading_ws(s) as int);
    t.take(t.len() - trailing_ws(t))
}

/// Whether `p` is a prefix of `s`.
pub open spec fn has_prefix(s: Seq<char>, p: Seq<char>) -> bool {
    p.len() <= s.len() && s.take(p.len() as int) == p
}

/// The keywords that open a definition spanning several lines.
pub open spec fn opens_definition(t: Seq<char>) -> bool {
    ||| has_prefix(t, seq!['s', 't', 'r', 'u', 'c', 't', ' '])
    ||| has_prefix(t, seq!['e', 'n', 'u', 'm', ' '])
    ||| has_prefix(t, seq!['t', 'y', 'p', 'e', ' '])
    ||| has_prefix(t, seq!['f', 'n', ' '])
    ||| has_prefix(t, seq!['p', 'u', 'b', ' ', 'f', 'n', ' '])
    ||| has_prefix(t, seq!['i', 'm', 'p', 'l', ' '])
    ||| has_prefix(t, seq!['m', 'o', 'd', ' '])
}

/// Whether an input line starts a block of several lines: once trimmed, it
/// ends with `{`, begins a definition, or leaves something open.
pub open spec fn starts_block(s: Seq<char>) -> bool {
    let t = trimmed(s);
    ||| t.len() > 0 && t.last() == '{'
    ||| opens_definition(t)
    ||| continues(t)
}

/// Whether a block is complete after its latest line: that line is blank,
/// or the collected text leaves nothing open.
pub open spec fn block_complete(latest: Seq<char>, buffer: Seq<char>) -> bool {
    is_blank(latest) || !continues(buffer)
}

/// How many times a character occurs in a text.
pub open spec fn occurrences(s: Seq<char>, c: char) -> int {
    s.filter(|x: char| x == c).len() as int
}

/// In a text without string literals (no `"`), the scan counts each kind
/// of bracket as the number of its openings less the number of its
/// closings, and nothing is left in a string; so the text continues on the
/// next line if and only if it opens more braces, parentheses or brackets
/// of some kind than it closes.
pub proof fn lemma_open_brackets(s: Seq<char>)
    requires
        forall|i: int| 0 <= i < s.len() ==> s[i] != '"',
    ensures
        scan(s) == (
            occurrences(s, '{') - occurrences(s, '}'),
            occurrences(s, '(') - occurrences(s, ')'),
            occurrences(s, '[') - occurrences(s, ']'),
            false,
            false,
        ),
        continues(s) <==> (occurrences(s, '{') > occurrences(s, '}') || occurrences(s, '(') > occurrences(s, ')')
            || occurrences(s, '[') > occurrences(s, ']')),
    decreases s.len(),
{
    reveal(Seq::filter);
    if s.len() > 0 {
        let front = s.drop_last();
        assert forall|i: int| 0 <= i < front.len() implies front[i] != '"' by {
            assert(front[i] == s[i]);
        }
        lemma_open_brackets(front);
        assert(s.last() == s[s.len() - 1]);
        assert(s.filter(|x: char| x == '{') == if s.last() == '{' {
            front.filter(|x: char| x == '{').push(s.last())
        } else {
            front.filter(|x: char| x == '{')
        });
        assert(s.filter(|x: char| x == '}') == if s.last() == '}' {
            front.filter(|x: char| x == '}').push(s.last())
        } else {
            front.filter(|x: char| x == '}')
        });
        assert(s.filter(|x: char| x == '(') == if s.last() == '(' {
            front.filter(|x: char| x == '(').push(s.last())
        } else {
            front.filter(|x: char| x == '(')
        });
        assert(s.filter(|x: char| x == ')') == if s.last() == ')' {
            front.filter(|x: char| x == ')').push(s.last())
        } else {
            front.filter(|x: char| x == ')')
        });
        assert(s.filter(|x: char| x == '[') == if s.last() == '[' {
            front.filter(|x: char| x == '[').push(s.last())
        } else {
            front.filter(|x: char| x == '[')
        });
        assert(s.filter(|x: char| x == ']') == if s.last() == ']' {
            front.filter(|x: char| x == ']').push(s.last())
        } else {
            front.filter(|x: char| x == ']')
        });
    }
}

/// Whether a statement needs continuation: it leaves a brace, parenthesis
/// or bracket unclosed, or a string literal unterminated.
pub fn needs_continuation(input: &str) -> (r: bool)
    requires
        input@.len() <= i32::MAX,
    ensures
        r == continues(input@),
{
    let cs = chars_of(input);
    chars_continue(&cs)
}

fn chars_continue(cs: &Vec<char>) -> (r: bool)
    requires
        cs@.len() <= i32::MAX,
    ensures
        r == continues(cs@),
{
    let mut brace_count: i32 = 0;
    let mut paren_count: i32 = 0;
    let mut bracket_count: i32 = 0;
    let mut in_string = false;
    let mut escape_next = false;
    let mut i: usize = 0;
    while i < cs.len()
        invariant
            i <= cs@.len() <= i32::MAX,
            scan(cs@.take(i as int)) == (brace_count as int, paren_count as int, bracket_count as int, in_string, escape_next),
            -(i as int) <= brace_count <= i,
            -(i as int) <= paren_count <= i,
            -(i as int) <= bracket_count <= i,
        decreases cs@.len() - i,
    {
        let ch = cs[i];
        assert(cs@.take(i + 1).drop_last() =~= cs@.take(i as int));
        assert(cs@.take(i + 1).last() == ch);
        if escape_next {
            escape_next = false;
        } else if ch == '\\' && in_string {
            escape_next = true;
        } else if ch == '"' {
            in_string = !in_string;
        } else if in_string {
        } else if ch == '{' {
            brace_count = brace_count + 1;
        } else if ch == '}' {
            brace_count = brace_count - 1;
        } else if ch == '(' {
            paren_count = paren_count + 1;
        } else if ch == ')' {
            paren_count = paren_count - 1;
        } else if ch == '[' {
            bracket_count = bracket_count + 1;
        } else if ch == ']' {
            bracket_count = bracket_count - 1;
        }
        i = i + 1;
    }
    assert(cs@.take(i as int) =~= cs@);
    brace_count > 0 || paren_count > 0 || bracket_count > 0 || in_string
}

/// The bounds of the trimmed part of a text.
fn trim_bounds(cs: &Vec<char>) -> (r: (usize, usize))
    ensures
        r.0 <= r.1 <= cs@.len(),
        cs@.subrange(r.0 as int, r.1 as int) == trimmed(cs@),
{
    let n = cs.len();
    let mut lo: usize = 0;
    assert(cs@.skip(0) =~= cs@);
    while lo < n && char_is_white_space(cs[lo])
        invariant
            lo <= n == cs@.len(),
            leading_ws(cs@) == lo + leading_ws(cs@.skip(lo as int)),
        decreases n - lo,
    {
        assert(cs@.skip(lo as int).drop_first() =~= cs@.skip(lo + 1));
        lo = lo + 1;
    }
    let ghost t = cs@.skip(lo as int);
    assert(leading_ws(cs@.skip(lo as int)) == 0) by {
        if lo < n {
            assert(cs@.skip(lo as int)[0] == cs@[lo as int]);
        }
    }
    assert(t == cs@.skip(leading_ws(cs@) as int));
    let mut hi: usize = n;
    assert(t.take(t.len() as int) =~= t);
    while hi > lo && char_is_white_space(cs[hi - 1])
        invariant
            lo <= hi <= n == cs@.len(),
            t == cs@.skip(lo as int),
            trailing_ws(t) == (n - hi) + trailing_ws(t.take(hi - lo)),
        decreases hi - lo,
    {
        assert(t.take(hi - lo).drop_last() =~= t.take(hi - 1 - lo));
        assert(t.take(hi - lo).last() == cs@[hi - 1]);
        hi = hi - 1;
    }
    assert(trailing_ws(t.take(hi - lo)) == 0) by {
        if hi > lo {
            assert(t.take(hi - lo).last() == cs@[hi - 1]);
        }
    }
    assert(cs@.subrange(lo as int, hi as int) =~= t.take(t.len() - trailing_ws(t)));
    (lo, hi)
}

/// Whether `cs[lo..hi]` begins with the characters of `p`.
fn range_has_prefix(cs: &Vec<char>, lo: usize, hi: usize, p: &str) -> (r: bool)
    requires
        lo <= hi <= cs@.len(),
    ensures
        r == has_prefix(cs@.subrange(lo as int, hi as int), p@),
{
    let ps = chars_of(p);
    let ghost s = cs@.subrange(lo as int, hi as int);
    if ps.len() > hi - lo {
        return false;
    }
    let mut j: usize = 0;
    while j < ps.len()
        invariant
            j <= ps@.len() <= hi - lo,
            lo <= hi <= cs@.len(),
            s == cs@.subrange(lo as int, hi as int),
            ps@ == p@,
            forall|k: int| 0 <= k < j ==> s[k] == ps@[k],
        decreases ps@.len() - j,
    {
        if cs[lo + j] != ps[j] {
            assert(s.take(ps@.len() as int)[j as int] != p@[j as int]);
            return false;
        }
        j = j + 1;
    }
    assert(s.take(ps@.len() as int) =~= p@);
    true
}

/// Whether an input line starts a block of several lines.
pub fn is_multiline_start(input: &str) -> (r: bool)
    requires
        input@.len() <= i32::MAX,
    ensures
        r == starts_block(input@),
{
    let cs = chars_of(input);
    let (lo, hi) = trim_bounds(&cs);
    let ghost t = trimmed(input@);
    assert(t.len() > 0 ==> t.last() == cs@[hi - 1]);
    if hi > lo && cs[hi - 1] == '{' {
        return true;
    }
    assert(!(t.len() > 0 && t.last() == '{'));
    proof {
        reveal_strlit("struct ");
        reveal_strlit("enum ");
        reveal_strlit("type ");
        reveal_strlit("fn ");
        reveal_strlit("pub fn ");
        reveal_strlit("impl ");
        reveal_strlit("mod ");
        assert("struct "@ =~= seq!['s', 't', 'r', 'u', 'c', 't', ' ']);
        assert("enum "@ =~= seq!['e', 'n', 'u', 'm', ' ']);
        assert("type "@ =~= seq!['t', 'y', 'p', 'e', ' ']);
        assert("fn "@ =~= seq!['f', 'n', ' ']);
        assert("pub fn "@ =~= seq!['p', 'u', 'b', ' ', 'f', 'n', ' ']);
        assert("impl "@ =~= seq!['i', 'm', 'p', 'l', ' ']);
        assert("mod "@ =~= seq!['m', 'o', 'd', ' ']);
    }
    if range_has_prefix(&cs, lo, hi, "struct ") || range_has_prefix(&cs, lo, hi, "enum ")
        || range_has_prefix(&cs, lo, hi, "type ") {
        return true;
    }
    if range_has_prefix(&cs, lo, hi, "fn ") || range_has_prefix(&cs, lo, hi, "pub fn ") {
        return true;
    }
    if range_has_prefix(&cs, lo, hi, "impl ") {
        return true;
    }
    if range_has_prefix(&cs, lo, hi, "mod ") {
        return true;
    }
    assert(!opens_definition(t));
    let mut inner: Vec<char> = Vec::new();
    let mut i: usize = lo;
    while i < hi
        invariant
            lo <= i <= hi <= cs@.len(),
            inner@ == cs@.subrange(lo as int, i as int),
        decreases hi - i,
    {
        inner.push(cs[i]);
        i = i + 1;
        assert(inner@ =~= cs@.subrange(lo as int, i as int));
    }
    chars_continue(&inner)
}

/// Whether a block being collected is complete after its latest line.
pub fn is_multiline_complete(latest_input: &str, buffer: &str) -> (r: bool)
    requires
        buffer@.len() <= i32::MAX,
    ensures
        r == block_complete(latest_input@, buffer@),
{
    if text_is_blank(latest_input) {
        return true;
    }
    !needs_continuation(buffer)
}

/// The lines of a block being entered, collected until it is complete.
pub struct MultilineInput {
    /// Whether a block is being collected.
    pub in_multiline: bool,
    /// The lines collected so far, each followed by a line break.
    pub buffer: String,
}

/// What feeding a line gives: the collected text and line break, and
/// whether the block is then complete.
pub open spec fn fed(buffer: Seq<char>, line: Seq<char>) -> Seq<char> {
    buffer + line + seq!['\n']
}

impl MultilineInput {
    /// No block being collected.
    pub fn new() -> (m: Self)
        ensures
            !m.in_multiline,
            m.buffer@ == Seq::<char>::empty(),
    {
        MultilineInput { in_multiline: false, buffer: String::new() }
    }

    /// Starts collecting a block with its first line.
    pub fn start_multiline_input(&mut self, input: &str)
        ensures
            final(self).in_multiline,
            final(self).buffer@ == fed(Seq::empty(), input@),
    {
        proof {
            reveal_strlit("");
            reveal_strlit("\n");
            assert("\n"@ =~= seq!['\n']);
            assert(""@ =~= Seq::<char>::empty());
        }
        self.in_multiline = true;
        self.buffer = concat3("", input, "\n");
    }

    /// Adds a line to the block being collected. When the block is then
    /// complete, hands back the whole text and stops collecting;
    /// otherwise keeps the line and hands back nothing.
    pub fn feed_line(&mut self, input: &str) -> (r: Option<String>)
        requires
            old(self).in_multiline,
            old(self).buffer@.len() + input@.len() + 1 <= i32::MAX,
        ensures
            block_complete(input@, fed(old(self).buffer@, input@)) ==> {
                &&& r is Some
                &&& r->Some_0@ == fed(old(self).buffer@, input@)
                &&& !final(self).in_multiline
                &&& final(self).buffer@ == Seq::<char>::empty()
            },
            !block_complete(input@, fed(old(self).buffer@, input@)) ==> {
                &&& r is None
                &&& final(self).in_multiline
                &&& final(self).buffer@ == fed(old(self).buffer@, input@)
            },
    {
        proof {
            reveal_strlit("\n");
            assert("\n"@ =~= seq!['\n']);
        }
        let collected = concat3(self.buffer.as_str(), input, "\n");
        if is_multiline_complete(input, collected.as_str()) {
            self.buffer = String::new();
            self.in_multiline = false;
            Some(collected)
        } else {
            self.buffer = collected;
            None
        }
    }
}

/// Enhanced REPL modes
#[derive(Debug, Clone, Copy, PartialEq, Eq, Structural)]
pub enum ReplMode {
    /// Interactive development mode (default)
    Interactive,
    /// Token analysis mode
    Tokens,
    /// Parse tree mode
    Parse,
    /// Debug mode
    Debug,
}

/// A shell command (a line starting with `:`), as the shell acts on it.
#[derive(Debug, Clone, Copy, PartialEq, Eq, Structural)]
pub enum ReplCommand {
    /// `:exit` or `:quit`
    Exit,
    /// `:help`
    Help,
    /// `:interactive`, `:tokens`, `:parse` or `:debug`
    SwitchMode(ReplMode),
    /// `:history`
    History,
    /// `:clear`
    Clear,
    /// `:vars`
    Vars,
    /// `:types`
    Types,
    /// `:funcs`
    Funcs,
    /// `:modules`
    Modules,
    /// `:save`
    Save,
    /// `:load`
    Load,
    /// Anything else
    Unknown,
}

/// The command a trimmed command line names.
pub open spec fn command_of(t: Seq<char>) -> ReplCommand {
    if t == ":exit"@ || t == ":quit"@ {
        ReplCommand::Exit
    } else if t == ":help"@ {
        ReplCommand::Help
    } else if t == ":interactive"@ {
        ReplCommand::SwitchMode(ReplMode::Interactive)
    } else if t == ":tokens"@ {
        ReplCommand::SwitchMode(ReplMode::Tokens)
    } else if t == ":parse"@ {
        ReplCommand::SwitchMode(ReplMode::Parse)
    } else if t == ":debug"@ {
        ReplCommand::SwitchMode(ReplMode::Debug)
    } else if t == ":history"@ {
        ReplCommand::History
    } else if t == ":clear"@ {
        ReplCommand::Clear
    } else if t == ":vars"@ {
        ReplCommand::Vars
    } else if t == ":types"@ {
        ReplCommand::Types
    } else if t == ":funcs"@ {
        ReplCommand::Funcs
    } else if t == ":modules"@ {
        ReplCommand::Modules
    } else if t == ":save"@ {
        ReplCommand::Save
    } else if t == ":load"@ {
        ReplCommand::Load
    } else {
        ReplCommand::Unknown
    }
}

/// Whether `cs[lo..hi]` is exactly the text `p`.
fn range_is(cs: &Vec<char>, lo: usize, hi: usize, p: &str) -> (r: bool)
    requires
        lo <= hi <= cs@.len(),
    ensures
        r == (cs@.subrange(lo as int, hi as int) == p@),
{
    let n = p.unicode_len();
    if hi - lo != n {
        return false;
    }
    let b = range_has_prefix(cs, lo, hi, p);
    proof {
        assert(cs@.subrange(lo as int, hi as int).take(p@.len() as int) =~= cs@.subrange(lo as int, hi as int));
    }
    b
}

/// Handle special commands: the command a line names, once trimmed
pub fn parse_command(command: &str) -> (c: ReplCommand)
    ensures
        c == command_of(trimmed(command@)),
{
    let cs = chars_of(command);
    let (lo, hi) = trim_bounds(&cs);
    if range_is(&cs, lo, hi, ":exit") || range_is(&cs, lo, hi, ":quit") {
        ReplCommand::Exit
    } else if range_is(&cs, lo, hi, ":help") {
        ReplCommand::Help
    } else if range_is(&cs, lo, hi, ":interactive") {
        ReplCommand::SwitchMode(ReplMode::Interactive)
    } else if range_is(&cs, lo, hi, ":tokens") {
        ReplCommand::SwitchMode(ReplMode::Tokens)
    } else if range_is(&cs, lo, hi, ":parse") {
        ReplCommand::SwitchMode(ReplMode::Parse)
    } else if range_is(&cs, lo, hi, ":debug") {
        ReplCommand::SwitchMode(ReplMode::Debug)
    } else if range_is(&cs, lo, hi, ":history") {
        ReplCommand::History
    } else if range_is(&cs, lo, hi, ":clear") {
        ReplCommand::Clear
    } else if range_is(&cs, lo, hi, ":vars") {
        ReplCommand::Vars
    } else if range_is(&cs, lo, hi, ":types") {
        ReplCommand::Types
    } else if range_is(&cs, lo, hi, ":funcs") {
        ReplCommand::Funcs
    } else if range_is(&cs, lo, hi, ":modules") {
        ReplCommand::Modules
    } else if range_is(&cs, lo, hi, ":save") {
        ReplCommand::Save
    } else if range_is(&cs, lo, hi, ":load") {
        ReplCommand::Load
    } else {
        ReplCommand::Unknown
    }
}

/// Whether a line read goes into the history: it is not blank and is not
/// a command.
pub fn records_in_history(input: &str) -> (b: bool)
    ensures
        b == (!is_blank(input@) && !(input@.len() > 0 && input@[0] == ':')),
{
    if text_is_blank(input) {
        return false;
    }
    let cs = chars_of(input);
    !(cs.len() > 0 && cs[0] == ':')
}

} // verus!
