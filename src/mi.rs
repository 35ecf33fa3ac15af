use vstd::prelude::*;
use vstd::string::*;

use crate::mi_parse::{
    chars_of, payload, quoted, scan_to, spec_payload, spec_quoted, MIRepr, Node,
    ParseFailure, find_char, rest_from, failure,
};
use crate::mi_types::{opt_text, ExecutionState, MIResult, ResultKind};

verus! {

/// One line of debugger output, by its leading marker.
#[derive(Debug, PartialEq)]
pub enum Output {
    /// `+`: progress of a slow operation; it can be discarded.
    StatusAsync,
    /// `*`: the target changed its execution state.
    ExecAsync(ExecutionState, MIRepr),
    /// `=`: a notification of the given class.
    NotifyAsync(String, MIRepr),
    /// `~`: text for the console.
    ConsoleStream(String),
    /// `@`: output of the target program.
    TargetStream(String),
    /// `&`: the debugger's own log.
    LogStream(String),
    /// `^`: the reply to the last command.
    ResultRecord(MIResult, Option<MIRepr>),
}

/// Model of an `Output`.
pub ghost enum Record {
    Status,
    Exec(ExecutionState, Node),
    Notify(Seq<char>, Node),
    Console(Seq<char>),
    Target(Seq<char>),
    Log(Seq<char>),
    Result(ResultKind, Option<Node>),
}

pub open spec fn opt_node(o: Option<MIRepr>) -> Option<Node> {
    match o {
        Some(v) => Some(v@),
        None => None,
    }
}

impl Output {
    pub open spec fn view(&self) -> Record {
        match self {
            Output::StatusAsync => Record::Status,
            Output::ExecAsync(st, v) => Record::Exec(*st, v@),
            Output::NotifyAsync(c, v) => Record::Notify(c@, v@),
            Output::ConsoleStream(t) => Record::Console(t@),
            Output::TargetStream(t) => Record::Target(t@),
            Output::LogStream(t) => Record::Log(t@),
            Output::ResultRecord(r, v) => Record::Result(r@, opt_node(*v)),
        }
    }
}

impl Clone for Output {
    fn clone(&self) -> (r: Self)
        ensures
            r@ == self@,
    {
        match self {
            Output::StatusAsync => Output::StatusAsync,
            Output::ExecAsync(st, v) => Output::ExecAsync(*st, v.clone()),
            Output::NotifyAsync(c, v) => Output::NotifyAsync(c.clone(), v.clone()),
            Output::ConsoleStream(t) => Output::ConsoleStream(t.clone()),
            Output::TargetStream(t) => Output::TargetStream(t.clone()),
            Output::LogStream(t) => Output::LogStream(t.clone()),
            Output::ResultRecord(res, v) => Output::ResultRecord(
                res.clone(),
                match v {
                    Some(x) => Some(x.clone()),
                    None => None,
                },
            ),
        }
    }
}

/// What removing shell-style quoting and backslash escapes from a text gives,
/// or `None` where the text holds an escape that is not valid.
pub uninterp spec fn unescaped(s: Seq<char>) -> Option<Seq<char>>;

/// Relies on `snailquote::unescape`: it reads quoting and escapes out of
/// the text, and its result depends on the text alone.
#[verifier::external_body]
fn unescape_text(s: &str) -> (r: Option<String>)
    ensures
        match r {
            Some(t) => unescaped(s@) == Some(t@),
            None => unescaped(s@) is None,
        },
{
    snailquote::unescape(s).ok()
}

/// `kw` stands in `s` at `i`.
pub open spec fn starts_at(s: Seq<char>, i: int, kw: Seq<char>) -> bool {
    0 <= i && i + kw.len() <= s.len() && s.subrange(i, i + kw.len()) == kw
}

/// The execution-state keyword at `i`.
pub open spec fn spec_exec_state(s: Seq<char>, i: int) -> Option<(ExecutionState, int)> {
    if starts_at(s, i, "done"@) {
        Some((ExecutionState::Done, i + "done"@.len()))
    } else if starts_at(s, i, "stopped"@) {
        Some((ExecutionState::Stopped, i + "stopped"@.len()))
    } else if starts_at(s, i, "running"@) {
        Some((ExecutionState::Running, i + "running"@.len()))
    } else if starts_at(s, i, "connected"@) {
        Some((ExecutionState::Connected, i + "connected"@.len()))
    } else if starts_at(s, i, "error"@) {
        Some((ExecutionState::Error, i + "error"@.len()))
    } else if starts_at(s, i, "exit"@) {
        Some((ExecutionState::Exit, i + "exit"@.len()))
    } else {
        None
    }
}

/// A quoted field of an error reply ends at `j`: what follows is the end of
/// the line, a comma or a line break, so a quote inside the text fails.
pub open spec fn field_ends(s: Seq<char>, j: int) -> bool {
    j == s.len() || (0 <= j < s.len() && (s[j] == ',' || s[j] == '\n' || s[j] == '\r'))
}

/// `,msg="..."` at `i`, optionally followed by `,code="..."`.
pub open spec fn spec_message(s: Seq<char>, i: int) -> Option<(Seq<char>, Option<Seq<char>>, int)> {
    if starts_at(s, i, ",msg="@) {
        match spec_quoted(s, i + ",msg="@.len()) {
            Some((m, j)) => if !field_ends(s, j) {
                None
            } else if starts_at(s, j, ",code="@) {
                match spec_quoted(s, j + ",code="@.len()) {
                    Some((c, k)) => if field_ends(s, k) {
                        Some((m, Some(c), k))
                    } else {
                        None
                    },
                    None => Some((m, None, j)),
                }
            } else {
                Some((m, None, j))
            },
            None => None,
        }
    } else {
        None
    }
}

/// The result keyword at `i`, with the message that `error` carries.
pub open spec fn spec_result(s: Seq<char>, i: int) -> Option<(ResultKind, int)> {
    if starts_at(s, i, "done"@) {
        Some((ResultKind::Done, i + "done"@.len()))
    } else if starts_at(s, i, "running"@) {
        Some((ResultKind::Running, i + "running"@.len()))
    } else if starts_at(s, i, "connected"@) {
        Some((ResultKind::Connected, i + "connected"@.len()))
    } else if starts_at(s, i, "error"@) {
        match spec_message(s, i + "error"@.len()) {
            Some((m, c, k)) => Some((ResultKind::Error(m, c), k)),
            None => None,
        }
    } else if starts_at(s, i, "exit"@) {
        Some((ResultKind::Exit, i + "exit"@.len()))
    } else {
        None
    }
}

/// What a line of output reads as, and where reading stopped.
pub open spec fn spec_record(s: Seq<char>) -> Option<(Record, int)> {
    if s.len() == 0 {
        None
    } else if s[0] == '+' {
        Some((Record::Status, s.len() as int))
    } else if s[0] == '*' {
        match spec_exec_state(s, 1) {
            Some((st, j)) => if j < s.len() && s[j] == ',' {
                match spec_payload(s, j + 1) {
                    Some((v, k)) => Some((Record::Exec(st, v), k)),
                    None => None,
                }
            } else {
                None
            },
            None => None,
        }
    } else if s[0] == '=' {
        let j = find_char(s, 1, ',');
        if j < s.len() {
            match spec_payload(s, j + 1) {
                Some((v, k)) => Some((Record::Notify(s.subrange(1, j), v), k)),
                None => None,
            }
        } else {
            None
        }
    } else if s[0] == '~' || s[0] == '@' || s[0] == '&' {
        match unescaped(s.subrange(1, s.len() as int)) {
            Some(t) => Some(
                (
                    if s[0] == '~' {
                        Record::Console(t)
                    } else if s[0] == '@' {
                        Record::Target(t)
                    } else {
                        Record::Log(t)
                    },
                    s.len() as int,
                ),
            ),
            None => None,
        }
    } else if s[0] == '^' {
        match spec_result(s, 1) {
            Some((r, j)) => {
                let j2 = if j < s.len() && s[j] == ',' {
                    j + 1
                } else {
                    j
                };
                match spec_payload(s, j2) {
                    Some((v, k)) => Some((Record::Result(r, Some(v)), k)),
                    None => Some((Record::Result(r, None), j2)),
                }
            },
            None => None,
        }
    } else {
        None
    }
}

/// Whether `kw` stands in `cs` at `i`.
fn matches_at(cs: &Vec<char>, i: usize, kw: &str) -> (b: bool)
    requires
        i <= cs.len(),
    ensures
        b == starts_at(cs@, i as int, kw@),
{
    let n = kw.unicode_len();
    if n > cs.len() - i {
        return false;
    }
    let mut j: usize = 0;
    while j < n
        invariant
            n == kw@.len(),
            i + n <= cs.len(),
            j <= n,
            forall|k: int| 0 <= k < j ==> cs@[i + k] == kw@[k],
        decreases n - j,
    {
        if cs[i + j] != kw.get_char(j) {
            assert(cs@.subrange(i as int, i + n)[j as int] != kw@[j as int]);
            return false;
        }
        j += 1;
    }
    assert(cs@.subrange(i as int, i + n) =~= kw@);
    true
}

fn exec_state_at(cs: &Vec<char>, i: usize) -> (r: Option<(ExecutionState, usize)>)
    requires
        i <= cs.len(),
    ensures
        match r {
            Some((st, j)) => spec_exec_state(cs@, i as int) == Some((st, j as int)) && j <= cs.len(),
            None => spec_exec_state(cs@, i as int) is None,
        },
{
    if matches_at(cs, i, "done") {
        Some((ExecutionState::Done, i + "done".unicode_len()))
    } else if matches_at(cs, i, "stopped") {
        Some((ExecutionState::Stopped, i + "stopped".unicode_len()))
    } else if matches_at(cs, i, "running") {
        Some((ExecutionState::Running, i + "running".unicode_len()))
    } else if matches_at(cs, i, "connected") {
        Some((ExecutionState::Connected, i + "connected".unicode_len()))
    } else if matches_at(cs, i, "error") {
        Some((ExecutionState::Error, i + "error".unicode_len()))
    } else if matches_at(cs, i, "exit") {
        Some((ExecutionState::Exit, i + "exit".unicode_len()))
    } else {
        None
    }
}

fn ends_field(cs: &Vec<char>, j: usize) -> (b: bool)
    requires
        j <= cs.len(),
    ensures
        b == field_ends(cs@, j as int),
{
    j == cs.len() || cs[j] == ',' || cs[j] == '\n' || cs[j] == '\r'
}

fn message(input: &str, cs: &Vec<char>, i: usize) -> (r: Option<(String, Option<String>, usize)>)
    requires
        cs@ == input@,
        i <= cs.len(),
    ensures
        match r {
            Some((m, c, k)) => spec_message(cs@, i as int) == Some((m@, opt_text(c), k as int)) && k
                <= cs.len(),
            None => spec_message(cs@, i as int) is None,
        },
{
    if !matches_at(cs, i, ",msg=") {
        return None;
    }
    match quoted(input, cs, i + ",msg=".unicode_len()) {
        Some((m, j)) => {
            if !ends_field(cs, j) {
                None
            } else if matches_at(cs, j, ",code=") {
                match quoted(input, cs, j + ",code=".unicode_len()) {
                    Some((c, k)) => {
                        if ends_field(cs, k) {
                            Some((m, Some(c), k))
                        } else {
                            None
                        }
                    },
                    None => Some((m, None, j)),
                }
            } else {
                Some((m, None, j))
            }
        },
        None => None,
    }
}

fn result_at(input: &str, cs: &Vec<char>, i: usize) -> (r: Option<(MIResult, usize)>)
    requires
        cs@ == input@,
        i <= cs.len(),
    ensures
        match r {
            Some((res, j)) => spec_result(cs@, i as int) == Some((res@, j as int)) && j <= cs.len(),
            None => spec_result(cs@, i as int) is None,
        },
{
    if matches_at(cs, i, "done") {
        Some((MIResult::Done, i + "done".unicode_len()))
    } else if matches_at(cs, i, "running") {
        Some((MIResult::Running, i + "running".unicode_len()))
    } else if matches_at(cs, i, "connected") {
        Some((MIResult::Connected, i + "connected".unicode_len()))
    } else if matches_at(cs, i, "error") {
        match message(input, cs, i + "error".unicode_len()) {
            Some((msg, code, k)) => Some((MIResult::Error { msg, code }, k)),
            None => None,
        }
    } else if matches_at(cs, i, "exit") {
        Some((MIResult::Exit, i + "exit".unicode_len()))
    } else {
        None
    }
}

fn record(input: &str, cs: &Vec<char>) -> (r: Option<(Output, usize)>)
    requires
        cs@ == input@,
    ensures
        match r {
            Some((out, k)) => spec_record(cs@) == Some((out@, k as int)) && k <= cs.len(),
            None => spec_record(cs@) is None,
        },
{
    let n = cs.len();
    if n == 0 {
        return None;
    }
    let c = cs[0];
    if c == '+' {
        Some((Output::StatusAsync, n))
    } else if c == '*' {
        match exec_state_at(cs, 1) {
            Some((st, j)) => {
                if j < n && cs[j] == ',' {
                    match payload(input, cs, j + 1) {
                        Some((v, k)) => Some((Output::ExecAsync(st, v), k)),
                        None => None,
                    }
                } else {
                    None
                }
            },
            None => None,
        }
    } else if c == '=' {
        let j = scan_to(cs, 1, ',');
        if j < n {
            match payload(input, cs, j + 1) {
                Some((v, k)) => {
                    let class = String::from_str(input.substring_char(1, j));
                    Some((Output::NotifyAsync(class, v), k))
                },
                None => None,
            }
        } else {
            None
        }
    } else if c == '~' || c == '@' || c == '&' {
        match unescape_text(input.substring_char(1, n)) {
            Some(t) => {
                let out = if c == '~' {
                    Output::ConsoleStream(t)
                } else if c == '@' {
                    Output::TargetStream(t)
                } else {
                    Output::LogStream(t)
                };
                Some((out, n))
            },
            None => None,
        }
    } else if c == '^' {
        match result_at(input, cs, 1) {
            Some((res, j)) => {
                let j2 = if j < n && cs[j] == ',' {
                    j + 1
                } else {
                    j
                };
                match payload(input, cs, j2) {
                    Some((v, k)) => Some((Output::ResultRecord(res, Some(v)), k)),
                    None => Some((Output::ResultRecord(res, None), j2)),
                }
            },
            None => None,
        }
    } else {
        None
    }
}

/// Reads one line of debugger output. Gives the text that was left after
/// the record, and the record.
pub fn parse_stream(input: &str) -> (r: Result<(String, Output), ParseFailure>)
    ensures
        match r {
            Ok((rest, out)) => match spec_record(input@) {
                Some((rec, k)) => out@ == rec && rest@ == input@.subrange(k, input@.len() as int),
                None => false,
            },
            Err(e) => spec_record(input@) is None && e.fragment@ == input@,
        },
{
    let cs = chars_of(input);
    match record(input, &cs) {
        Some((out, k)) => Ok((rest_from(input, k), out)),
        None => Err(failure(input)),
    }
}

/// The characters that `char::is_whitespace` accepts (Unicode White_Space).
pub open spec fn is_white_space(c: char) -> bool {
    ('\t' <= c && c <= '\r') || c == ' ' || c == '\u{85}' || c == '\u{a0}' || c == '\u{1680}'
        || ('\u{2000}' <= c && c <= '\u{200a}') || c == '\u{2028}' || c == '\u{2029}'
        || c == '\u{202f}' || c == '\u{205f}' || c == '\u{3000}'
}

fn white_space(c: char) -> (b: bool)
    ensures
        b == is_white_space(c),
{
    ('\t' <= c && c <= '\r') || c == ' ' || c == '\u{85}' || c == '\u{a0}' || c == '\u{1680}'
        || ('\u{2000}' <= c && c <= '\u{200a}') || c == '\u{2028}' || c == '\u{2029}'
        || c == '\u{202f}' || c == '\u{205f}' || c == '\u{3000}'
}

/// Length of `t` without the white space that ends its first `n` characters.
pub open spec fn trimmed_len(t: Seq<char>, n: int) -> int
    decreases n,
{
    if 0 < n <= t.len() && is_white_space(t[n - 1]) {
        trimmed_len(t, n - 1)
    } else {
        n
    }
}

/// Console text as it is shown: text that ends in a newline ends in exactly
/// one, with no white space before it.
pub open spec fn console_text(t: Seq<char>) -> Seq<char> {
    if t.len() > 0 && t.last() == '\n' {
        t.subrange(0, trimmed_len(t, t.len() as int)).push('\n')
    } else {
        t
    }
}

/// What `user_output` gives for a line.
pub open spec fn spec_user_output(s: Seq<char>) -> Option<Seq<char>> {
    match spec_record(s) {
        Some((Record::Console(t), _)) => Some(console_text(t)),
        _ => None,
    }
}

fn shown(t: String) -> (r: String)
    ensures
        r@ == console_text(t@),
{
    let n = t.as_str().unicode_len();
    if n == 0 || t.as_str().get_char(n - 1) != '\n' {
        return t;
    }
    let mut e = n;
    while e > 0 && white_space(t.as_str().get_char(e - 1))
        invariant
            e <= n,
            n == t@.len(),
            trimmed_len(t@, e as int) == trimmed_len(t@, n as int),
        decreases e,
    {
        e -= 1;
    }
    let mut r = String::from_str(t.as_str().substring_char(0, e));
    proof {
        reveal_strlit("\n");
    }
    r.append("\n");
    r
}

/// The text that a console-stream line shows to the user; `None` for any
/// other line.
pub fn user_output(src: &str) -> (r: Option<String>)
    ensures
        match r {
            Some(t) => spec_user_output(src@) == Some(t@),
            None => spec_user_output(src@) is None,
        },
{
    match parse_stream(src) {
        Ok((_, Output::ConsoleStream(t))) => Some(shown(t)),
        _ => None,
    }
}

/// The record kind follows the leading marker: `+ * = ~ @ & ^` give the
/// status, execution, notification, console, target, log and result
/// records; a status line always reads; any other first character, or an
/// empty line, reads as no record.
pub proof fn lemma_dispatch(s: Seq<char>)
    ensures
        s.len() > 0 && s[0] == '+' ==> spec_record(s) == Some((Record::Status, s.len() as int)),
        match spec_record(s) {
            Some((rec, _)) => s.len() > 0 && match rec {
                Record::Status => s[0] == '+',
                Record::Exec(_, _) => s[0] == '*',
                Record::Notify(_, _) => s[0] == '=',
                Record::Console(_) => s[0] == '~',
                Record::Target(_) => s[0] == '@',
                Record::Log(_) => s[0] == '&',
                Record::Result(_, _) => s[0] == '^',
            },
            None => true,
        },
        (s.len() == 0 || !(s[0] == '+' || s[0] == '*' || s[0] == '=' || s[0] == '~' || s[0] == '@'
            || s[0] == '&' || s[0] == '^')) ==> spec_record(s) is None,
{
}

/// Reads a result keyword, with the message that `error` carries, from the
/// start of `input`; gives the rest and the result.
pub fn mi_result(input: &str) -> (r: Result<(String, MIResult), ParseFailure>)
    ensures
        match r {
            Ok((rest, res)) => match spec_result(input@, 0) {
                Some((sr, k)) => res@ == sr && rest@ == input@.subrange(k, input@.len() as int),
                None => false,
            },
            Err(e) => spec_result(input@, 0) is None && e.fragment@ == input@,
        },
{
    let cs = chars_of(input);
    match result_at(input, &cs, 0) {
        Some((res, k)) => Ok((rest_from(input, k), res)),
        None => Err(failure(input)),
    }
}

/// Reads an execution-state keyword from the start of `input`; gives the
/// rest and the state.
pub fn execution_state(input: &str) -> (r: Result<(String, ExecutionState), ParseFailure>)
    ensures
        match r {
            Ok((rest, st)) => match spec_exec_state(input@, 0) {
                Some((ss, k)) => st == ss && rest@ == input@.subrange(k, input@.len() as int),
                None => false,
            },
            Err(e) => spec_exec_state(input@, 0) is None && e.fragment@ == input@,
        },
{
    let cs = chars_of(input);
    match exec_state_at(&cs, 0) {
        Some((st, k)) => Ok((rest_from(input, k), st)),
        None => Err(failure(input)),
    }
}

} // verus!
