//! The tail-extraction pipeline.
//!
//! A byte window taken from the end of a log file is segmented on newline
//! bytes into raw lines; each raw line is decoded as UTF-8 (a line that
//! is not valid UTF-8 is silently dropped), collapsed at carriage
//! returns to its final overwrite state, and stripped of escape
//! sequences; the visible lines that remain non-empty are kept, oldest
//! first, in a recency buffer of capacity `max_lines`.

use crate::buffer::last_n;
use crate::buffer::push_model;
use crate::buffer::RecencyBuffer;
use crate::collapse::collapse_overwrite;
use crate::collapse::collapse_spec;
use crate::strip::strip_ansi_fast;
use crate::strip::strip_spec;
use vstd::prelude::*;
use vstd::utf8::decode_utf8;
use vstd::utf8::valid_utf8;

verus! {

/// The raw lines of a byte window: the segments between newline bytes,
/// without the delimiters. A window always has at least one segment; an
/// empty window has one empty segment.
pub open spec fn nl_split(b: Seq<u8>) -> Seq<Seq<u8>>
    decreases b.len(),
{
    if b.len() == 0 {
        seq![Seq::<u8>::empty()]
    } else {
        let prev = nl_split(b.drop_last());
        if b.last() == 10u8 {
            prev.push(Seq::empty())
        } else {
            prev.update(prev.len() - 1, prev.last().push(b.last()))
        }
    }
}

/// The raw lines decoded as UTF-8 text, in order; a line whose bytes are
/// not valid UTF-8 is dropped.
pub open spec fn decoded_lines(ls: Seq<Seq<u8>>) -> Seq<Seq<char>>
    decreases ls.len(),
{
    if ls.len() == 0 {
        Seq::empty()
    } else {
        let prev = decoded_lines(ls.drop_last());
        if valid_utf8(ls.last()) {
            prev.push(decode_utf8(ls.last()))
        } else {
            prev
        }
    }
}

/// What one decoded line shows on screen: carriage-return overwrites
/// collapsed, then escape sequences removed.
pub open spec fn visible_of(line: Seq<char>) -> Seq<char> {
    strip_spec(collapse_spec(line))
}

/// The non-empty visible lines of a sequence of decoded lines, in order.
pub open spec fn visibles(lines: Seq<Seq<char>>) -> Seq<Seq<char>>
    decreases lines.len(),
{
    if lines.len() == 0 {
        Seq::empty()
    } else {
        let prev = visibles(lines.drop_last());
        let v = visible_of(lines.last());
        if v.len() == 0 {
            prev
        } else {
            prev.push(v)
        }
    }
}

/// The tail preview of a sequence of decoded lines: the last `max`
/// non-empty visible lines, oldest first.
pub open spec fn tail_spec(lines: Seq<Seq<char>>, max: nat) -> Seq<Seq<char>> {
    last_n(visibles(lines), max)
}

/// The tail preview of a byte window.
pub open spec fn tail_model(window: Seq<u8>, max: nat) -> Seq<Seq<char>> {
    tail_spec(decoded_lines(nl_split(window)), max)
}

/// The trailing portion of `content` that a read window of capacity
/// `cap` covers: the whole content when it fits, its last `cap` bytes
/// otherwise.
pub open spec fn window_of(content: Seq<u8>, cap: nat) -> Seq<u8> {
    if content.len() <= cap {
        content
    } else {
        content.skip(content.len() - cap)
    }
}

/// Relies on `core::str::from_utf8`: it returns `Ok` exactly when the
/// bytes are valid UTF-8, and the returned string slice is their UTF-8
/// decoding.
#[verifier::external_body]
fn utf8_line(bytes: &[u8]) -> (r: Option<&str>)
    ensures
        r is Some <==> valid_utf8(bytes@),
        r matches Some(s) ==> s@ == decode_utf8(bytes@),
{
    core::str::from_utf8(bytes).ok()
}

/// Split a byte window on newline bytes into raw lines, discarding the
/// delimiters.
pub fn split_newlines(window: &Vec<u8>) -> (r: Vec<Vec<u8>>)
    ensures
        r.deep_view() == nl_split(window@),
{
    let mut out: Vec<Vec<u8>> = Vec::new();
    let mut cur: Vec<u8> = Vec::new();
    let mut i: usize = 0;
    proof {
        assert(window@.take(0) =~= Seq::<u8>::empty());
        assert(out.deep_view().push(cur@) =~~= nl_split(window@.take(0)));
    }
    while i < window.len()
        invariant
            0 <= i <= window@.len(),
            out.deep_view().push(cur@) == nl_split(window@.take(i as int)),
        decreases window@.len() - i,
    {
        let b = window[i];
        proof {
            assert(window@.take(i as int + 1).drop_last() =~= window@.take(i as int));
            assert(window@.take(i as int + 1).last() == b);
        }
        let ghost prev = nl_split(window@.take(i as int));
        if b == 10 {
            out.push(cur);
            cur = Vec::new();
            proof {
                assert(out.deep_view().push(cur@) =~~= prev.push(Seq::<u8>::empty()));
            }
        } else {
            let ghost cur_before = cur@;
            cur.push(b);
            proof {
                assert(prev.last() == cur_before);
                assert(prev.update(prev.len() - 1, cur_before.push(b)) =~~= out.deep_view().push(
                    cur@,
                ));
            }
        }
        i = i + 1;
    }
    proof {
        assert(window@.take(window@.len() as int) =~= window@);
    }
    out.push(cur);
    proof {
        assert(out.deep_view() =~~= nl_split(window@));
    }
    out
}

/// Extract the tail preview from the byte window read at the end of a
/// log file: at most `max_lines` visible lines, oldest first, none of
/// them empty.
pub fn tail_from_window(window: &Vec<u8>, max_lines: usize) -> (r: Vec<String>)
    ensures
        r.deep_view() == tail_model(window@, max_lines as nat),
        r@.len() <= max_lines,
{
    let lines = split_newlines(window);
    let mut buf = RecencyBuffer::new(max_lines);
    let mut i: usize = 0;
    proof {
        assert(lines.deep_view().take(0) =~= Seq::<Seq<u8>>::empty());
    }
    while i < lines.len()
        invariant
            lines.deep_view() == nl_split(window@),
            lines@.len() == lines.deep_view().len(),
            0 <= i <= lines@.len(),
            buf.cap() == max_lines as nat,
            buf.wf(),
            buf@ == last_n(
                visibles(decoded_lines(lines.deep_view().take(i as int))),
                max_lines as nat,
            ),
        decreases lines@.len() - i,
    {
        let ghost done = lines.deep_view().take(i as int);
        let ghost prior = visibles(decoded_lines(done));
        let line = &lines[i];
        proof {
            assert(lines.deep_view().take(i as int + 1).drop_last() =~= done);
            assert(lines.deep_view().take(i as int + 1).last() == line@);
        }
        match utf8_line(line.as_slice()) {
            None => {
                proof {
                    assert(decoded_lines(lines.deep_view().take(i as int + 1)) == decoded_lines(
                        done,
                    ));
                }
            },
            Some(text) => {
                let ghost decoded = decoded_lines(done).push(decode_utf8(line@));
                proof {
                    assert(decoded_lines(lines.deep_view().take(i as int + 1)) == decoded);
                    assert(decoded.drop_last() =~= decoded_lines(done));
                    assert(decoded.last() == decode_utf8(line@));
                }
                let segment = collapse_overwrite(text);
                let vis = strip_ansi_fast(segment.as_str());
                if vis.as_str().is_empty() {
                    proof {
                        assert(visibles(decoded) == prior);
                    }
                } else {
                    proof {
                        assert(visibles(decoded) == prior.push(vis@));
                    }
                    buf.push(vis);
                    proof {
                        lemma_push_keeps_last_n(prior, vis@, max_lines as nat);
                    }
                }
            },
        }
        i = i + 1;
    }
    proof {
        assert(lines.deep_view().take(lines@.len() as int) =~= lines.deep_view());
    }
    let r = buf.into_lines();
    proof {
        assert(r@.len() == r.deep_view().len());
        assert(tail_model(window@, max_lines as nat).len() <= max_lines as nat);
    }
    r
}

/// Extract the tail preview of a full log content, considering only its
/// trailing read window of capacity `window_cap` bytes.
pub fn tail_from_content(content: &Vec<u8>, max_lines: usize, window_cap: usize) -> (r: Vec<
    String,
>)
    ensures
        r.deep_view() == tail_model(window_of(content@, window_cap as nat), max_lines as nat),
        r@.len() <= max_lines,
{
    let start: usize = if content.len() > window_cap {
        content.len() - window_cap
    } else {
        0
    };
    let mut window: Vec<u8> = Vec::new();
    let mut j: usize = start;
    proof {
        assert(window@ =~= content@.subrange(start as int, start as int));
    }
    while j < content.len()
        invariant
            start <= j <= content@.len(),
            window@ == content@.subrange(start as int, j as int),
        decreases content@.len() - j,
    {
        let b = content[j];
        window.push(b);
        proof {
            assert(content@.subrange(start as int, j as int).push(b) =~= content@.subrange(
                start as int,
                j as int + 1,
            ));
        }
        j = j + 1;
    }
    proof {
        assert(window@ =~= window_of(content@, window_cap as nat));
    }
    tail_from_window(&window, max_lines)
}

/// Appending one line to a sequence whose last `max` entries a buffer
/// holds, with eviction at capacity `max`, leaves the buffer holding the
/// last `max` entries of the extended sequence.
pub proof fn lemma_push_keeps_last_n(v: Seq<Seq<char>>, x: Seq<char>, max: nat)
    ensures
        push_model(last_n(v, max), x, max) == last_n(v.push(x), max),
{
    if max == 0 {
        assert(push_model(last_n(v, max), x, max) =~= last_n(v.push(x), max));
    } else if v.len() < max {
        assert(push_model(last_n(v, max), x, max) =~= last_n(v.push(x), max));
    } else {
        assert(last_n(v, max).len() == max);
        assert(push_model(last_n(v, max), x, max) =~= last_n(v.push(x), max));
    }
}

/// Capacity law: the tail preview never exceeds `max` lines, and once at
/// least `max` non-empty visible lines exist it is exactly the last
/// `max` of them, in their original order.
pub proof fn lemma_capacity_bound(lines: Seq<Seq<char>>, max: nat)
    ensures
        tail_spec(lines, max).len() <= max,
        visibles(lines).len() >= max ==> tail_spec(lines, max).len() == max,
        visibles(lines).len() >= max ==> tail_spec(lines, max) == visibles(lines).skip(
            visibles(lines).len() - max,
        ),
{
    if visibles(lines).len() == max {
        assert(visibles(lines).skip(visibles(lines).len() - max) =~= visibles(lines));
    }
}

/// An empty read window yields an empty preview.
pub proof fn lemma_empty_window(max: nat)
    ensures
        tail_model(Seq::<u8>::empty(), max) == Seq::<Seq<char>>::empty(),
{
    let lines = nl_split(Seq::<u8>::empty());
    assert(lines == seq![Seq::<u8>::empty()]);
    assert(lines.drop_last() =~= Seq::<Seq<u8>>::empty());
    assert(valid_utf8(Seq::<u8>::empty()));
    assert(decode_utf8(Seq::<u8>::empty()) =~= Seq::<char>::empty());
    assert(decoded_lines(Seq::<Seq<u8>>::empty()) == Seq::<Seq<char>>::empty());
    let decoded = decoded_lines(lines);
    assert(decoded == decoded_lines(lines.drop_last()).push(decode_utf8(lines.last())));
    assert(decoded =~~= seq![Seq::<char>::empty()]);
    assert(!Seq::<char>::empty().contains('\r'));
    assert(crate::collapse::cr_pieces(Seq::<char>::empty()) == seq![Seq::<char>::empty()]);
    assert(crate::collapse::collapse_spec(Seq::<char>::empty()) == Seq::<char>::empty());
    assert(visible_of(Seq::<char>::empty()) =~= Seq::<char>::empty());
    assert(decoded.drop_last() =~= Seq::<Seq<char>>::empty());
    assert(visibles(Seq::<Seq<char>>::empty()) == Seq::<Seq<char>>::empty());
    assert(decoded.last() == Seq::<char>::empty());
    assert(visibles(decoded) =~= Seq::<Seq<char>>::empty());
}

proof fn lemma_visibles_nonempty(lines: Seq<Seq<char>>)
    ensures
        forall|i: int| 0 <= i < visibles(lines).len() ==> visibles(lines)[i].len() > 0,
    decreases lines.len(),
{
    if lines.len() > 0 {
        lemma_visibles_nonempty(lines.drop_last());
        let prev = visibles(lines.drop_last());
        let v = visible_of(lines.last());
        if v.len() > 0 {
            assert(visibles(lines) == prev.push(v));
            assert forall|i: int| 0 <= i < visibles(lines).len() implies visibles(
                lines,
            )[i].len() > 0 by {
                if i < prev.len() {
                    assert(visibles(lines)[i] == prev[i]);
                } else {
                    assert(visibles(lines)[i] == v);
                }
            }
        }
    }
}

/// No entry of the tail preview is empty: a line whose visible text
/// vanishes is dropped, never stored.
pub proof fn lemma_no_empty_lines(lines: Seq<Seq<char>>, max: nat)
    ensures
        forall|i: int|
            0 <= i < tail_spec(lines, max).len() ==> tail_spec(lines, max)[i].len() > 0,
{
    lemma_visibles_nonempty(lines);
    let v = visibles(lines);
    assert forall|i: int| 0 <= i < tail_spec(lines, max).len() implies tail_spec(lines, max)[i].len()
        > 0 by {
        if v.len() > max {
            assert(tail_spec(lines, max)[i] == v[v.len() - max + i]);
        }
    }
}

/// A raw line with no visible text after collapsing and stripping, such
/// as a lone carriage return or a bare escape sequence, never
/// contributes an entry to the preview.
pub proof fn lemma_blank_line_dropped(lines: Seq<Seq<char>>, line: Seq<char>, max: nat)
    requires
        visible_of(line).len() == 0,
    ensures
        tail_spec(lines.push(line), max) == tail_spec(lines, max),
{
    assert(lines.push(line).drop_last() =~= lines);
    assert(visibles(lines.push(line)) == visibles(lines));
}

} // verus!
