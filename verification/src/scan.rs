//! The pure core of the document scanner: finding the marked regions in a
//! document's lines. A region starts on a line holding the invocation token and
//! ends on a line holding the raw-block terminator; the lines between them are
//! the declarative text. A region still open at the end of the document is an
//! error, reported with the marker's line, and yields no block at all.

use vstd::prelude::*;
use crate::text::{has_pattern, str_contains};

verus! {

/// The blocks of a line-addressed document, as character sequences keyed by the
/// one-based line of their invocation token.
pub open spec fn blocks_view(v: Seq<(usize, String)>) -> Seq<(nat, Seq<char>)> {
    v.map_values(|p: (usize, String)| (p.0 as nat, p.1@))
}

/// Scanning from line `i` in state `st`: outside any region (`None`), or inside
/// the region opened at the recorded line with the text gathered so far.
pub open spec fn scan_rec(
    lines: Seq<Seq<char>>,
    i: int,
    st: Option<(nat, Seq<char>)>,
) -> Result<Seq<(nat, Seq<char>)>, nat>
    decreases lines.len() - i,
{
    if i < 0 || i >= lines.len() {
        match st {
            None => Ok(Seq::empty()),
            Some(open) => Err(open.0),
        }
    } else {
        let l = lines[i];
        match st {
            None => scan_rec(
                lines,
                i + 1,
                if has_pattern(l, "refstruct!"@) {
                    Some(((i + 1) as nat, Seq::<char>::empty()))
                } else {
                    None
                },
            ),
            Some(open) => {
                if !has_pattern(l, "\"#"@) {
                    scan_rec(lines, i + 1, Some((open.0, open.1 + l + seq!['\n'])))
                } else {
                    match scan_rec(lines, i + 1, None) {
                        Ok(rest) => Ok(seq![open] + rest),
                        Err(e) => Err(e),
                    }
                }
            },
        }
    }
}

/// What scanning a whole document yields: each marked region's starting line
/// and text, or the starting line of an unterminated region.
pub open spec fn scan_model(lines: Seq<Seq<char>>) -> Result<Seq<(nat, Seq<char>)>, nat> {
    scan_rec(lines, 0, None)
}

/// The document scanner's pure core; the I/O around it lives with the caller.
pub struct Scanner {}

impl Scanner {
    /// Finds every marked region in the document's lines: its invocation
    /// token's one-based line and the enclosed text, one line per gathered
    /// line, each with its newline. An unterminated region is the error, with
    /// the line its token stands on.
    pub fn scan_lines(lines: &Vec<String>) -> (r: Result<Vec<(usize, String)>, usize>)
        ensures
            match r {
                Ok(blocks) => scan_model(lines.deep_view()) == Ok::<Seq<(nat, Seq<char>)>, nat>(
                    blocks_view(blocks@),
                ),
                Err(line) => scan_model(lines.deep_view()) == Err::<Seq<(nat, Seq<char>)>, nat>(
                    line as nat,
                ),
            },
    {
        let ghost ls = lines.deep_view();
        let n = lines.len();
        let mut blocks: Vec<(usize, String)> = Vec::new();
        let mut in_block = false;
        let mut start: usize = 0;
        let mut acc = String::new();
        let mut i: usize = 0;
        proof {
            assert(blocks_view(blocks@) =~= Seq::<(nat, Seq<char>)>::empty());
        }
        while i < n
            invariant
                ls == lines.deep_view(),
                n == ls.len(),
                n == lines@.len(),
                i <= n,
                scan_model(ls) == match scan_rec(
                    ls,
                    i as int,
                    if in_block {
                        Some((start as nat, acc@))
                    } else {
                        None
                    },
                ) {
                    Ok(rest) => Ok::<Seq<(nat, Seq<char>)>, nat>(blocks_view(blocks@) + rest),
                    Err(e) => Err::<Seq<(nat, Seq<char>)>, nat>(e),
                },
            decreases n - i,
        {
            assert(ls[i as int] == lines@[i as int]@);
            let line = lines[i].as_str();
            if !in_block {
                if str_contains(line, "refstruct!") {
                    in_block = true;
                    start = i + 1;
                    acc = String::new();
                }
            } else {
                if !str_contains(line, "\"#") {
                    let ghost acc0 = acc@;
                    acc.append(line);
                    acc.append("\n");
                    proof {
                        reveal_strlit("\n");
                        assert(acc@ =~= acc0 + ls[i as int] + seq!['\n']);
                    }
                } else {
                    let ghost open = (start as nat, acc@);
                    let ghost blocks0 = blocks@;
                    let finished = acc;
                    blocks.push((start, finished));
                    acc = String::new();
                    in_block = false;
                    proof {
                        assert(blocks_view(blocks@) =~= blocks_view(blocks0).push(open));
                        match scan_rec(ls, i + 1, None) {
                            Ok(rest) => {
                                assert(blocks_view(blocks0) + (seq![open] + rest) =~= blocks_view(
                                    blocks@,
                                ) + rest);
                            },
                            Err(_) => {},
                        }
                    }
                }
            }
            i = i + 1;
        }
        if in_block {
            Err(start)
        } else {
            proof {
                match scan_model(ls) {
                    Ok(all) => {
                        assert(blocks_view(blocks@) + Seq::<(nat, Seq<char>)>::empty()
                            =~= blocks_view(blocks@));
                    },
                    Err(_) => {},
                }
            }
            Ok(blocks)
        }
    }
}

} // verus!
