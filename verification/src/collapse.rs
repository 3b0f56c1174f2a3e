//! Collapsing of carriage-return overwrites inside one logical line.
//!
//! A terminal treats a carriage return as "move back to column one", so a
//! line such as `10%\r50%\r100%` ends up showing only `100%`. A line
//! holding carriage returns is split on every one, empty pieces are
//! discarded, and the last remaining piece is kept — exactly what stays
//! on screen after the final overwrite. A line without any passes
//! through as one piece.

use vstd::prelude::*;

verus! {

/// The pieces of `s` split on carriage returns, with empty pieces
/// removed, in order of appearance.
pub open spec fn cr_pieces_nonempty(s: Seq<char>) -> Seq<Seq<char>>
    decreases s.len(),
{
    if s.len() == 0 {
        Seq::empty()
    } else {
        let prev = cr_pieces_nonempty(s.drop_last());
        let c = s.last();
        if c == '\r' {
            prev
        } else if s.len() >= 2 && s[s.len() - 2] != '\r' {
            prev.update(prev.len() - 1, prev.last().push(c))
        } else {
            prev.push(seq![c])
        }
    }
}

/// How one line splits at carriage returns: a line without any carriage
/// return is one piece, the empty line included; a line with them is
/// split on every one and the empty pieces are dropped.
pub open spec fn cr_pieces(s: Seq<char>) -> Seq<Seq<char>> {
    if s.contains('\r') {
        cr_pieces_nonempty(s)
    } else {
        seq![s]
    }
}

/// The final overwrite state of line `s`: its last carriage-return
/// piece, or the empty sequence when no piece remains.
pub open spec fn collapse_spec(s: Seq<char>) -> Seq<char> {
    if cr_pieces(s).len() == 0 {
        Seq::empty()
    } else {
        cr_pieces(s).last()
    }
}

/// Split `input` at carriage returns: the input itself, as one piece,
/// when it holds none; otherwise the pieces between them, empty pieces
/// dropped.
pub fn split_cr_lines<'a>(input: &'a str) -> (r: Vec<&'a str>)
    ensures
        r.deep_view() == cr_pieces(input@),
{
    let n = input.unicode_len();
    let mut has_cr = false;
    let mut i: usize = 0;
    while i < n
        invariant
            n == input@.len(),
            0 <= i <= n,
            has_cr <==> exists|j: int| 0 <= j < i && input@[j] == '\r',
        decreases n - i,
    {
        if input.get_char(i) == '\r' {
            has_cr = true;
            proof {
                assert(input@[i as int] == '\r');
            }
        }
        i = i + 1;
    }
    if !has_cr {
        proof {
            assert(!input@.contains('\r'));
        }
        let mut out: Vec<&'a str> = Vec::new();
        out.push(input);
        proof {
            assert(out.deep_view() =~~= seq![input@]);
        }
        return out;
    }
    proof {
        assert(input@.contains('\r'));
    }
    let mut out: Vec<&'a str> = Vec::new();
    let mut start: usize = 0;
    let mut i: usize = 0;
    proof {
        assert(input@.take(0) =~= Seq::<char>::empty());
    }
    while i < n
        invariant
            n == input@.len(),
            0 <= start <= i <= n,
            start == i ==> i == 0 || input@[i as int - 1] == '\r',
            start == i ==> out.deep_view() == cr_pieces_nonempty(input@.take(i as int)),
            start < i ==> (forall|j: int| start <= j < i ==> input@[j] != '\r'),
            start < i ==> start == 0 || input@[start as int - 1] == '\r',
            start < i ==> out.deep_view().push(input@.subrange(start as int, i as int))
                == cr_pieces_nonempty(input@.take(i as int)),
        decreases n - i,
    {
        let c = input.get_char(i);
        proof {
            assert(input@.take(i as int + 1).drop_last() =~= input@.take(i as int));
            assert(input@.take(i as int + 1).last() == c);
        }
        if c == '\r' {
            if start < i {
                let piece = input.substring_char(start, i);
                proof {
                    let old_dv = out.deep_view();
                    assert(old_dv.push(piece@) == cr_pieces_nonempty(input@.take(i as int)));
                }
                out.push(piece);
                proof {
                    assert(out.deep_view() =~~= cr_pieces_nonempty(input@.take(i as int)));
                }
            }
            start = i + 1;
        } else {
            if start == i {
                proof {
                    let t = input@.take(i as int + 1);
                    if i == 0 {
                        assert(cr_pieces_nonempty(t) =~~= cr_pieces_nonempty(
                            input@.take(i as int),
                        ).push(seq![c]));
                    } else {
                        assert(t[t.len() - 2] == input@[i as int - 1]);
                        assert(cr_pieces_nonempty(t) =~~= cr_pieces_nonempty(
                            input@.take(i as int),
                        ).push(seq![c]));
                    }
                    assert(input@.subrange(i as int, i as int + 1) =~= seq![c]);
                }
            } else {
                proof {
                    let t = input@.take(i as int + 1);
                    let pending = input@.subrange(start as int, i as int);
                    let prev = cr_pieces_nonempty(input@.take(i as int));
                    assert(t[t.len() - 2] == input@[i as int - 1]);
                    assert(input@[i as int - 1] != '\r');
                    assert(prev == out.deep_view().push(pending));
                    assert(prev.len() >= 1);
                    assert(prev.last() == pending);
                    assert(cr_pieces_nonempty(t) == prev.update(prev.len() - 1, pending.push(c)));
                    assert(prev.update(prev.len() - 1, pending.push(c)) =~~= out.deep_view().push(
                        pending.push(c),
                    ));
                    assert(pending.push(c) =~= input@.subrange(start as int, i as int + 1));
                }
            }
        }
        i = i + 1;
    }
    if start < n {
        let piece = input.substring_char(start, n);
        out.push(piece);
        proof {
            assert(input@.take(n as int) =~= input@);
            assert(out.deep_view() =~~= cr_pieces_nonempty(input@));
        }
    } else {
        proof {
            assert(input@.take(n as int) =~= input@);
        }
    }
    out
}

/// Collapse carriage-return overwrites in `line`, keeping only the text
/// that a terminal would leave on screen: the last piece of the
/// carriage-return split, or an empty string when no piece remains.
pub fn collapse_overwrite(line: &str) -> (r: String)
    ensures
        r@ == collapse_spec(line@),
{
    let pieces = split_cr_lines(line);
    if pieces.len() == 0 {
        proof {
            assert(cr_pieces(line@).len() == 0);
        }
        String::new()
    } else {
        let last = pieces[pieces.len() - 1];
        proof {
            assert(last.deep_view() == cr_pieces(line@).last());
        }
        last.to_owned()
    }
}

} // verus!
