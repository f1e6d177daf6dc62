//! Parsing of operator command lines.
//!
//! One command per line, whitespace-tokenized: `add <SYMBOL>`,
//! `remove <SYMBOL>`, `list`, `exit`. A blank line is ignored and any
//! other shape is reported as unknown. Whitespace here is the ASCII kind:
//! space, tab, carriage return, newline.

use vstd::prelude::*;
use vstd::string::StrSliceExecFns;
use crate::registry::Command;

verus! {

/// The characters that separate tokens.
pub open spec fn is_space(c: char) -> bool {
    c == ' ' || c == '\t' || c == '\r' || c == '\n'
}

/// The whitespace-separated tokens of `s`, via an accumulator holding
/// the token being read.
pub open spec fn tokens_acc(s: Seq<char>, cur: Seq<char>) -> Seq<Seq<char>>
    decreases s.len(),
{
    if s.len() == 0 {
        if cur.len() == 0 {
            Seq::empty()
        } else {
            seq![cur]
        }
    } else if is_space(s[0]) {
        if cur.len() == 0 {
            tokens_acc(s.drop_first(), Seq::empty())
        } else {
            seq![cur] + tokens_acc(s.drop_first(), Seq::empty())
        }
    } else {
        tokens_acc(s.drop_first(), cur.push(s[0]))
    }
}

/// The whitespace-separated tokens of a line, in order.
pub open spec fn tokens_of(s: Seq<char>) -> Seq<Seq<char>> {
    tokens_acc(s, Seq::empty())
}

/// The token shapes that name a command.
pub open spec fn recognized(toks: Seq<Seq<char>>) -> bool {
    ||| (toks.len() == 2 && toks[0] == "add"@)
    ||| (toks.len() == 2 && toks[0] == "remove"@)
    ||| (toks.len() == 1 && toks[0] == "list"@)
    ||| (toks.len() == 1 && toks[0] == "exit"@)
}

/// What one input line means.
pub enum ParsedLine {
    /// Nothing but whitespace; to be ignored.
    Blank,
    /// A well-formed command.
    Parsed(Command),
    /// A non-blank line that names no command.
    Unknown,
}

fn is_space_char(c: char) -> (r: bool)
    ensures
        r == is_space(c),
{
    c == ' ' || c == '\t' || c == '\r' || c == '\n'
}

/// Whether the characters `start..end` of `line` spell `kw`.
fn token_matches(line: &str, start: usize, end: usize, kw: &str) -> (r: bool)
    requires
        start <= end <= line@.len(),
    ensures
        r == (line@.subrange(start as int, end as int) == kw@),
{
    let klen = kw.unicode_len();
    if end - start != klen {
        proof {
            assert(line@.subrange(start as int, end as int).len() == end - start);
        }
        return false;
    }
    let mut k: usize = 0;
    while k < klen
        invariant
            0 <= k <= klen,
            klen == kw@.len(),
            end - start == klen,
            start <= end <= line@.len(),
            forall|m: int| 0 <= m < k ==> line@[start + m] == kw@[m],
        decreases klen - k,
    {
        if line.get_char(start + k) != kw.get_char(k) {
            proof {
                assert(line@.subrange(start as int, end as int)[k as int] == line@[start + k]);
            }
            return false;
        }
        k = k + 1;
    }
    proof {
        assert(line@.subrange(start as int, end as int) =~= kw@);
    }
    true
}

/// The `(start, end)` bounds of each token of `bs`, as the tokens they
/// delimit.
pub open spec fn bounds_tokens(s: Seq<char>, bs: Seq<(usize, usize)>) -> Seq<Seq<char>> {
    bs.map(|k: int, b: (usize, usize)| s.subrange(b.0 as int, b.1 as int))
}

/// The `(start, end)` character bounds of each whitespace-separated
/// token of `line`, in order.
fn tokenize(line: &str) -> (bounds: Vec<(usize, usize)>)
    ensures
        forall|k: int|
            0 <= k < bounds@.len() ==> (#[trigger] bounds@[k]).0 < bounds@[k].1 <= line@.len(),
        bounds_tokens(line@, bounds@) == tokens_of(line@),
{
    let n = line.unicode_len();
    let mut bounds: Vec<(usize, usize)> = Vec::new();
    let mut pos: usize = 0;
    proof {
        assert(line@.skip(0) =~= line@);
        assert(bounds_tokens(line@, bounds@) =~= Seq::<Seq<char>>::empty());
        assert(Seq::<Seq<char>>::empty() + tokens_acc(line@, Seq::empty()) =~= tokens_acc(
            line@,
            Seq::empty(),
        ));
    }
    while pos < n
        invariant
            0 <= pos <= n,
            n == line@.len(),
            forall|k: int|
                0 <= k < bounds@.len() ==> (#[trigger] bounds@[k]).0 < bounds@[k].1 <= n,
            tokens_of(line@) == bounds_tokens(line@, bounds@) + tokens_acc(
                line@.skip(pos as int),
                Seq::empty(),
            ),
        decreases n - pos,
    {
        if is_space_char(line.get_char(pos)) {
            proof {
                assert(line@.skip(pos as int).drop_first() =~= line@.skip(pos + 1));
            }
            pos = pos + 1;
        } else {
            let start = pos;
            proof {
                assert(line@.skip(pos as int).drop_first() =~= line@.skip(pos + 1));
                assert(Seq::<char>::empty().push(line@[pos as int]) =~= line@.subrange(
                    pos as int,
                    pos + 1,
                ));
            }
            pos = pos + 1;
            while pos < n && !is_space_char(line.get_char(pos))
                invariant
                    start < pos <= n,
                    n == line@.len(),
                    tokens_acc(line@.skip(start as int), Seq::empty()) == tokens_acc(
                        line@.skip(pos as int),
                        line@.subrange(start as int, pos as int),
                    ),
                decreases n - pos,
            {
                proof {
                    assert(line@.skip(pos as int).drop_first() =~= line@.skip(pos + 1));
                    assert(line@.subrange(start as int, pos as int).push(line@[pos as int])
                        =~= line@.subrange(start as int, pos + 1));
                }
                pos = pos + 1;
            }
            let ghost cur = line@.subrange(start as int, pos as int);
            proof {
                if pos < n {
                    assert(line@.skip(pos as int).drop_first() =~= line@.skip(pos + 1));
                    assert(tokens_acc(line@.skip(pos as int), cur) == seq![cur] + tokens_acc(
                        line@.skip(pos + 1),
                        Seq::empty(),
                    ));
                    assert(tokens_acc(line@.skip(pos as int), Seq::empty()) == tokens_acc(
                        line@.skip(pos + 1),
                        Seq::empty(),
                    ));
                } else {
                    assert(line@.skip(pos as int).len() == 0);
                    assert(tokens_acc(line@.skip(pos as int), cur) == seq![cur]);
                    assert(tokens_acc(line@.skip(pos as int), Seq::empty())
                        == Seq::<Seq<char>>::empty());
                }
                assert(bounds_tokens(line@, bounds@.push((start, pos))) =~= bounds_tokens(
                    line@,
                    bounds@,
                ) + seq![cur]);
                assert((bounds_tokens(line@, bounds@) + seq![cur]) + tokens_acc(
                    line@.skip(pos as int),
                    Seq::empty(),
                ) =~= bounds_tokens(line@, bounds@) + tokens_acc(
                    line@.skip(start as int),
                    Seq::empty(),
                ));
            }
            bounds.push((start, pos));
        }
    }
    proof {
        assert(line@.skip(n as int).len() == 0);
        assert(bounds_tokens(line@, bounds@) + tokens_acc(line@.skip(n as int), Seq::empty())
            =~= bounds_tokens(line@, bounds@));
    }
    bounds
}

/// Parses one input line.
///
/// A line of nothing but whitespace is blank; `add <SYMBOL>`,
/// `remove <SYMBOL>`, `list` and `exit` (tokenized on whitespace) are the
/// four commands; every other shape is unknown.
pub fn parse_command(line: &str) -> (r: ParsedLine)
    ensures
        r is Blank <==> tokens_of(line@).len() == 0,
        r is Parsed <==> recognized(tokens_of(line@)),
        r is Unknown <==> tokens_of(line@).len() > 0 && !recognized(tokens_of(line@)),
        r matches ParsedLine::Parsed(cmd) ==> match cmd {
            Command::AddStock(sym) => tokens_of(line@) == seq!["add"@, sym@],
            Command::RemoveStock(sym) => tokens_of(line@) == seq!["remove"@, sym@],
            Command::List => tokens_of(line@) == seq!["list"@],
            Command::Exit => tokens_of(line@) == seq!["exit"@],
        },
{
    let bounds = tokenize(line);
    let ghost toks = tokens_of(line@);
    if bounds.len() == 0 {
        return ParsedLine::Blank;
    }
    let (a0, b0) = (bounds[0].0, bounds[0].1);
    proof {
        assert(toks[0] == line@.subrange(a0 as int, b0 as int));
    }
    if bounds.len() == 1 {
        proof {
            assert(toks.len() == 1);
        }
        if token_matches(line, a0, b0, "list") {
            proof {
                assert(toks =~= seq!["list"@]);
            }
            ParsedLine::Parsed(Command::List)
        } else if token_matches(line, a0, b0, "exit") {
            proof {
                assert(toks =~= seq!["exit"@]);
            }
            ParsedLine::Parsed(Command::Exit)
        } else {
            ParsedLine::Unknown
        }
    } else if bounds.len() == 2 {
        let (a1, b1) = (bounds[1].0, bounds[1].1);
        proof {
            assert(toks.len() == 2);
            assert(toks[1] == line@.subrange(a1 as int, b1 as int));
        }
        if token_matches(line, a0, b0, "add") {
            let sym = line.substring_char(a1, b1).to_owned();
            proof {
                assert(toks =~= seq!["add"@, sym@]);
            }
            ParsedLine::Parsed(Command::AddStock(sym))
        } else if token_matches(line, a0, b0, "remove") {
            let sym = line.substring_char(a1, b1).to_owned();
            proof {
                assert(toks =~= seq!["remove"@, sym@]);
            }
            ParsedLine::Parsed(Command::RemoveStock(sym))
        } else {
            ParsedLine::Unknown
        }
    } else {
        ParsedLine::Unknown
    }
}

} // verus!
