//! How the command line reports an error against its source, and when a
//! line typed at the console is complete.
use crate::lexer::Lexer;
use crate::strops::{lines_chars, lines_seq, strings_are};
use crate::text::{nat_digits, str_to_chars, u64_to_string};
use crate::token::{Token, TokenKind};
use vstd::prelude::*;
use vstd::utf8::encode_utf8;

verus! {

/// `n` spaces.
pub open spec fn spaces(n: nat) -> Seq<char> {
    Seq::new(n, |i: int| ' ')
}

/// Where the caret of a report points: the error's own line and column when
/// the line exists, else just past the end of the last line (line 1 of an
/// empty source).
pub open spec fn shown_position(line: nat, column: nat, ls: Seq<Seq<char>>) -> (nat, nat) {
    if line <= ls.len() {
        (line, column)
    } else {
        let last_len: nat = if ls.len() > 0 {
            encode_utf8(ls.last()).len()
        } else {
            0
        };
        (if ls.len() >= 1 {
            ls.len()
        } else {
            1
        }, last_len + 1)
    }
}

/// The lines of an error report: `error: message`; then, for an error with a
/// line, ` --> path:line:column` (no column when it is 0) and, when that line
/// exists, the line itself under its number with a caret at the column.
pub open spec fn report_lines(message: Seq<char>, line: nat, column: nat, source: Seq<char>, path: Seq<char>) -> Seq<
    Seq<char>,
> {
    let head = "error: "@ + message;
    if line == 0 {
        seq![head]
    } else {
        let ls = lines_seq(source);
        let (sl, sc) = shown_position(line, column, ls);
        let loc = if sc > 0 {
            " --> "@ + path + ":"@ + nat_digits(sl) + ":"@ + nat_digits(sc)
        } else {
            " --> "@ + path + ":"@ + nat_digits(sl)
        };
        if sl <= ls.len() {
            let ln = nat_digits(sl);
            let pad = spaces(ln.len());
            seq![
                head,
                loc,
                pad + " |"@,
                ln + " | "@ + ls[sl - 1],
                if sc > 0 {
                    pad + " | "@ + spaces((sc - 1) as nat) + "^"@
                } else {
                    pad + " |"@
                },
            ]
        } else {
            seq![head, loc]
        }
    }
}

fn spaces_string(n: usize) -> (s: String)
    ensures
        s@ == spaces(n as nat),
{
    proof {
        reveal_strlit(" ");
    }
    let mut s = String::new();
    let mut i: usize = 0;
    while i < n
        invariant
            i <= n,
            s@ == spaces(i as nat),
        decreases n - i,
    {
        proof {
            reveal_strlit(" ");
        }
        s.append(" ");
        i += 1;
        assert(s@ =~= spaces(i as nat));
    }
    s
}

/// The lines to show for an error at `line`:`column` of `source` read from
/// `path` (see `report_lines`).  A last line of `usize::MAX` bytes, whose
/// caret column would not fit, is left out.
pub fn error_report(message: &str, line: usize, column: usize, source: &str, path: &str) -> (r: Vec<String>)
    requires
        lines_seq(source@).len() > 0 ==> encode_utf8(lines_seq(source@).last()).len() < usize::MAX,
    ensures
        strings_are(r@, report_lines(message@, line as nat, column as nat, source@, path@)),
{
    let mut out: Vec<String> = Vec::new();
    let mut head = String::from_str("error: ");
    head.append(message);
    out.push(head);
    if line == 0 {
        return out;
    }
    let ls = lines_chars(&str_to_chars(source));
    let total = ls.len();
    let (show_line, show_col) = if line <= total {
        (line, column)
    } else {
        let last_len = if total > 0 {
            ls[total - 1].as_str().as_bytes().len()
        } else {
            0
        };
        (if total >= 1 {
            total
        } else {
            1
        }, last_len + 1)
    };
    let sl = u64_to_string(show_line as u64);
    let mut loc = String::from_str(" --> ");
    loc.append(path);
    loc.append(":");
    loc.append(sl.as_str());
    if show_col > 0 {
        loc.append(":");
        loc.append(u64_to_string(show_col as u64).as_str());
    }
    out.push(loc);
    if show_line <= total {
        let pad = spaces_string(sl.as_str().unicode_len());
        let mut l1 = pad.clone();
        l1.append(" |");
        out.push(l1);
        let mut l2 = sl.clone();
        l2.append(" | ");
        l2.append(ls[show_line - 1].as_str());
        out.push(l2);
        let mut l3 = pad.clone();
        if show_col > 0 {
            l3.append(" | ");
            l3.append(spaces_string(show_col - 1).as_str());
            l3.append("^");
        } else {
            l3.append(" |");
        }
        out.push(l3);
    }
    out
}

/// How far the brackets of `tokens` are open: `{`, `(` and `[` count one
/// up, their closers one down.
pub open spec fn bracket_depth(tokens: Seq<Token>) -> int
    decreases tokens.len(),
{
    if tokens.len() == 0 {
        0
    } else {
        bracket_depth(tokens.drop_last()) + match tokens.last().kind {
            TokenKind::LeftBrace | TokenKind::LeftParen | TokenKind::LeftBracket => 1int,
            TokenKind::RightBrace | TokenKind::RightParen | TokenKind::RightBracket => -1int,
            _ => 0int,
        }
    }
}

proof fn lemma_depth_bound(tokens: Seq<Token>)
    ensures
        -tokens.len() <= bracket_depth(tokens) <= tokens.len(),
    decreases tokens.len(),
{
    if tokens.len() > 0 {
        lemma_depth_bound(tokens.drop_last());
    }
}

/// Whether every bracket that `tokens` opens is closed.
pub fn tokens_complete(tokens: &Vec<Token>) -> (r: bool)
    ensures
        r == (bracket_depth(tokens@) <= 0),
{
    let mut depth: i128 = 0;
    let mut i: usize = 0;
    while i < tokens.len()
        invariant
            i <= tokens@.len(),
            depth == bracket_depth(tokens@.take(i as int)),
        decreases tokens@.len() - i,
    {
        proof {
            assert(tokens@.take(i + 1).drop_last() =~= tokens@.take(i as int));
            lemma_depth_bound(tokens@.take(i as int));
        }
        match &tokens[i].kind {
            TokenKind::LeftBrace | TokenKind::LeftParen | TokenKind::LeftBracket => depth += 1,
            TokenKind::RightBrace | TokenKind::RightParen | TokenKind::RightBracket => depth -= 1,
            _ => {},
        }
        i += 1;
    }
    assert(tokens@.take(tokens@.len() as int) =~= tokens@);
    depth <= 0
}

/// Whether a console entry is complete: every bracket its tokens open is
/// closed, so it can be run without reading another line.
pub fn is_input_complete(source: &str) -> (r: bool) {
    let tokens = Lexer::new(source).scan_tokens();
    tokens_complete(&tokens)
}

} // verus!
