use vstd::prelude::*;
use gitql_parser::token::Token;
use crate::handler::QueryError;
use crate::text::{chars_of, string_of};

verus! {

#[verifier::external_type_specification]
#[verifier::external_body]
pub struct ExToken(Token);

/// What the gitql tokenizer makes of a text: the number of its tokens, or the
/// message of the diagnostic it fails with.
pub uninterp spec fn tokenize_outcome(s: Seq<char>) -> Result<nat, Seq<char>>;

/// The characters the tokenizer's string scanner takes as an escape after `\\`.
pub open spec fn is_escape(c: char) -> bool {
    c == '\'' || c == '"' || c == '\\' || c == 'n' || c == 'r' || c == 't'
}

/// Where a left-to-right scan of a statement stands: between tokens, after a
/// `-` or a `/`, inside a string literal closed by the quote it holds (possibly
/// right after a `\\`), inside a line comment, or refused.
#[derive(Clone, Copy, Debug, PartialEq, Eq, Structural)]
pub enum ScanState {
    Between,
    Dash,
    Slash,
    Quoted(char),
    QuotedEscape(char),
    LineComment,
    Refused,
}

/// The scan between tokens reading `c`.
pub open spec fn step_between(c: char) -> ScanState {
    if c == '\'' || c == '"' {
        ScanState::Quoted(c)
    } else if c == '-' {
        ScanState::Dash
    } else if c == '/' {
        ScanState::Slash
    } else if c == '`' {
        ScanState::Refused
    } else {
        ScanState::Between
    }
}

/// One step of the scan. A backtick is refused wherever it stands between
/// tokens (a binary literal may swallow one), and so is a block comment.
pub open spec fn step(st: ScanState, c: char) -> ScanState {
    match st {
        ScanState::Between => step_between(c),
        ScanState::Dash => if c == '-' {
            ScanState::LineComment
        } else {
            step_between(c)
        },
        ScanState::Slash => if c == '*' {
            ScanState::Refused
        } else {
            step_between(c)
        },
        ScanState::Quoted(q) => if c == q {
            ScanState::Between
        } else if c == '\\' {
            ScanState::QuotedEscape(q)
        } else {
            ScanState::Quoted(q)
        },
        ScanState::QuotedEscape(q) => ScanState::Quoted(q),
        ScanState::LineComment => if c == '\n' {
            ScanState::Between
        } else {
            ScanState::LineComment
        },
        ScanState::Refused => ScanState::Refused,
    }
}

/// The state of the scan after all of `s`.
pub open spec fn scan_state(s: Seq<char>) -> ScanState
    decreases s.len(),
{
    if s.len() == 0 {
        ScanState::Between
    } else {
        step(scan_state(s.take(s.len() - 1)), s[s.len() - 1])
    }
}

/// Text on which the tokenizer returns: every string literal and line comment
/// it opens is closed, and it holds no block comment and no backtick.
pub open spec fn scannable(s: Seq<char>) -> bool {
    let st = scan_state(s);
    st == ScanState::Between || st == ScanState::Dash || st == ScanState::Slash
}

fn step_exec(st: ScanState, c: char) -> (r: ScanState)
    ensures
        r == step(st, c),
{
    let between = if c == '\'' || c == '"' {
        ScanState::Quoted(c)
    } else if c == '-' {
        ScanState::Dash
    } else if c == '/' {
        ScanState::Slash
    } else if c == '`' {
        ScanState::Refused
    } else {
        ScanState::Between
    };
    match st {
        ScanState::Between => between,
        ScanState::Dash => if c == '-' {
            ScanState::LineComment
        } else {
            between
        },
        ScanState::Slash => if c == '*' {
            ScanState::Refused
        } else {
            between
        },
        ScanState::Quoted(q) => if c == q {
            ScanState::Between
        } else if c == '\\' {
            ScanState::QuotedEscape(q)
        } else {
            ScanState::Quoted(q)
        },
        ScanState::QuotedEscape(q) => ScanState::Quoted(q),
        ScanState::LineComment => if c == '\n' {
            ScanState::Between
        } else {
            ScanState::LineComment
        },
        ScanState::Refused => ScanState::Refused,
    }
}

/// Whether the tokenizer returns on `s`.
pub(crate) fn check_scannable(s: &Vec<char>) -> (r: bool)
    ensures
        r == scannable(s@),
{
    let mut st = ScanState::Between;
    let mut i: usize = 0;
    while i < s.len()
        invariant
            i <= s@.len(),
            st == scan_state(s@.take(i as int)),
        decreases s@.len() - i,
    {
        assert(s@.take(i + 1).take(i as int) =~= s@.take(i as int));
        st = step_exec(st, s[i]);
        i = i + 1;
    }
    assert(s@.take(i as int) =~= s@);
    match st {
        ScanState::Between | ScanState::Dash | ScanState::Slash => true,
        _ => false,
    }
}

/// Relies on `gitql_parser::tokenizer::Tokenizer::tokenize`, which reads the text
/// alone: its tokens, or the message of its diagnostic. It indexes past the end
/// of the text on an unclosed string literal and does not return on an unclosed
/// backtick identifier, line comment or block comment.
#[verifier::external_body]
fn tokenize(s: &str) -> (r: Result<Vec<Token>, String>)
    requires
        scannable(s@),
    ensures
        match tokenize_outcome(s@) {
            Ok(n) => r is Ok && r->Ok_0@.len() == n,
            Err(m) => r is Err && r->Err_0@ == m,
        },
{
    gitql_parser::tokenizer::Tokenizer::tokenize(s).map_err(|d| d.message().to_owned())
}

/// The hints joined by line breaks.
pub open spec fn join_lines(hints: Seq<Seq<char>>) -> Seq<char>
    decreases hints.len(),
{
    if hints.len() == 0 {
        Seq::empty()
    } else if hints.len() == 1 {
        hints[0]
    } else {
        join_lines(hints.take(hints.len() - 1)) + seq!['\n'] + hints[hints.len() - 1]
    }
}

/// The text of a parse error: its message, then `Help:` and the hints, one per line.
pub open spec fn parse_error_spec(message: Seq<char>, hints: Seq<Seq<char>>) -> Seq<char> {
    message + seq!['\n', 'H', 'e', 'l', 'p', ':', ' '] + join_lines(hints)
}

fn push_str(out: &mut Vec<char>, s: &String)
    ensures
        final(out)@ == old(out)@ + s@,
{
    let ghost start = out@;
    for c in it: s.as_str().chars()
        invariant
            out@ == start + it.seq().take(it.index() as int),
    {
        out.push(c);
    }
}

/// The text of a parse error with message `message` and remediation hints `hints`.
pub fn parse_error_text(message: &String, hints: &Vec<String>) -> (r: String)
    ensures
        r@ == parse_error_spec(message@, hints@.map_values(|h: String| h@)),
{
    let ghost hv = hints@.map_values(|h: String| h@);
    let mut out: Vec<char> = Vec::new();
    push_str(&mut out, message);
    out.push('\n');
    out.push('H');
    out.push('e');
    out.push('l');
    out.push('p');
    out.push(':');
    out.push(' ');
    let ghost head = out@;
    assert(head =~= message@ + seq!['\n', 'H', 'e', 'l', 'p', ':', ' ']);
    let mut i: usize = 0;
    while i < hints.len()
        invariant
            i <= hints@.len(),
            hv == hints@.map_values(|h: String| h@),
            out@ == head + join_lines(hv.take(i as int)),
        decreases hints@.len() - i,
    {
        assert(hv.take(i + 1).take(i as int) =~= hv.take(i as int));
        if i > 0 {
            out.push('\n');
        }
        let ghost o0 = out@;
        push_str(&mut out, &hints[i]);
        i = i + 1;
        proof {
            if i == 1 {
                assert(join_lines(hv.take(0)) =~= Seq::<char>::empty());
                assert(out@ =~= head + join_lines(hv.take(i as int)));
            } else {
                assert(out@ =~= head + join_lines(hv.take(i as int)));
            }
        }
    }
    assert(hv.take(i as int) =~= hv);
    string_of(out.as_slice())
}

/// Tokenizes one statement for the parser.
///
/// Text on which the tokenizer would not return, a tokenizer failure and a
/// statement without tokens are each reported as such.
pub fn tokenize_statement(statement: &str) -> (r: Result<Vec<Token>, QueryError>)
    ensures
        !scannable(statement@) ==> r matches Err(QueryError::UnsupportedText),
        scannable(statement@) ==> match tokenize_outcome(statement@) {
            Err(m) => r matches Err(QueryError::Tokenize(t)) && t@ == m,
            Ok(n) => if n == 0 {
                r matches Err(QueryError::EmptyStatement)
            } else {
                r matches Ok(tokens) && tokens@.len() == n
            },
        },
{
    if !check_scannable(&chars_of(statement)) {
        return Err(QueryError::UnsupportedText);
    }
    match tokenize(statement) {
        Ok(tokens) => if tokens.len() == 0 {
            Err(QueryError::EmptyStatement)
        } else {
            Ok(tokens)
        },
        Err(m) => Err(QueryError::Tokenize(m)),
    }
}

} // verus!
