//! The document converter: turns one document's raw text into an HTML body.
//!
//! The document is split on the fence token into alternating formatted and
//! literal segments. Each formatted segment is taken line by line: every line
//! is trimmed, classified, wrapped, run through the inline rewrite chain, and
//! cleared of empty-paragraph artifacts. Each literal segment is rendered
//! verbatim: every line is wrapped in paragraph markers, empty-paragraph
//! artifacts are stripped, and the whole segment is enclosed in a
//! preformatted-code container; no rewrite rule runs inside it. The segment
//! outputs are concatenated in their original order.

use vstd::prelude::*;
use crate::classify::{
    fence, kind_of, p_close, p_open, segment_document, spec_wrap_line, wrap_line, SegmentKind,
};
use crate::rewrite::{rewrite_chars, spec_rewrite};
use crate::text::{
    lemma_find_absent, lemma_find_present, lemma_remove_absent, match_at, spec_split_from,
    append_all, chars_to_string, lemma_split_nonempty, remove_all, spec_find, spec_remove,
    spec_split, spec_trim, split_all, str_to_chars, trim_chars, views,
};

verus! {

/// The empty-paragraph artifact stripped after wrapping and rewriting.
pub open spec fn pp_mark() -> Seq<char> {
    "<p></p>"@
}

/// The line separator.
pub open spec fn nl_mark() -> Seq<char> {
    "\n"@
}

/// The opening of the literal-segment container.
pub open spec fn pre_open() -> Seq<char> {
    "<pre><code>"@
}

/// The closing of the literal-segment container.
pub open spec fn pre_close() -> Seq<char> {
    "</code></pre>"@
}

/// A line wrapped in paragraph markers.
pub open spec fn p_wrap(l: Seq<char>) -> Seq<char> {
    p_open() + l + p_close()
}

/// The lines of a segment: the pieces between line separators, except that a
/// final empty piece, left by a trailing separator, is not a line.
pub open spec fn spec_lines(s: Seq<char>) -> Seq<Seq<char>> {
    let p = spec_split(s, nl_mark());
    if p.len() > 0 && p.last().len() == 0 {
        p.drop_last()
    } else {
        p
    }
}

/// One line of a formatted segment, fully transformed: trimmed, classified
/// and wrapped, rewritten by the inline chain, and cleared of
/// empty-paragraph artifacts.
pub open spec fn spec_format_line(l: Seq<char>) -> Seq<char> {
    spec_remove(spec_rewrite(spec_wrap_line(spec_trim(l))), pp_mark())
}

pub open spec fn spec_formatted_lines(ls: Seq<Seq<char>>, i: int) -> Seq<char>
    decreases ls.len() - i,
{
    if 0 <= i < ls.len() {
        spec_format_line(ls[i]) + spec_formatted_lines(ls, i + 1)
    } else {
        Seq::empty()
    }
}

/// A formatted segment's output: its transformed lines, concatenated with no
/// separators left between them.
pub open spec fn spec_formatted(s: Seq<char>) -> Seq<char> {
    spec_formatted_lines(spec_lines(s), 0)
}

pub open spec fn spec_literal_lines(ls: Seq<Seq<char>>, i: int) -> Seq<char>
    decreases ls.len() - i,
{
    if 0 <= i < ls.len() {
        spec_remove(p_wrap(ls[i]), pp_mark()) + spec_literal_lines(ls, i + 1)
    } else {
        Seq::empty()
    }
}

/// A literal segment's output: every piece between line separators wrapped
/// in paragraph markers, empty-paragraph artifacts stripped, the whole
/// enclosed in the preformatted-code container. No rewrite rule applies.
pub open spec fn spec_literal(s: Seq<char>) -> Seq<char> {
    pre_open() + spec_literal_lines(spec_split(s, nl_mark()), 0) + pre_close()
}

/// A segment's output, by its kind.
pub open spec fn spec_segment_out(t: Seq<char>, k: SegmentKind) -> Seq<char> {
    match k {
        SegmentKind::Formatted => spec_formatted(t),
        SegmentKind::Literal => spec_literal(t),
    }
}

pub open spec fn spec_segments_out(ps: Seq<Seq<char>>, i: int) -> Seq<char>
    decreases ps.len() - i,
{
    if 0 <= i < ps.len() {
        spec_segment_out(ps[i], kind_of(i)) + spec_segments_out(ps, i + 1)
    } else {
        Seq::empty()
    }
}

/// The whole conversion: the outputs of the document's segments, alternating
/// formatted and literal, concatenated in order.
pub open spec fn spec_convert(s: Seq<char>) -> Seq<char> {
    spec_segments_out(spec_split(s, fence()), 0)
}

/// Transforms one line of a formatted segment.
fn format_line(l: &Vec<char>) -> (r: Vec<char>)
    ensures
        r@ == spec_format_line(l@),
{
    let t = trim_chars(l);
    let w = wrap_line(&t);
    let rw = rewrite_chars(&w);
    let pp = str_to_chars("<p></p>");
    proof {
        reveal_strlit("<p></p>");
    }
    remove_all(&rw, &pp)
}

/// Renders one formatted segment.
fn render_formatted(text: &str) -> (out: Vec<char>)
    ensures
        out@ == spec_formatted(text@),
{
    let v = str_to_chars(text);
    let nl = str_to_chars("\n");
    proof {
        reveal_strlit("\n");
    }
    let mut pieces = split_all(&v, &nl);
    let ghost full = views(pieces@);
    let np = pieces.len();
    proof {
        lemma_split_nonempty(v@, nl@, 0);
    }
    if pieces[np - 1].len() == 0 {
        let _tail = pieces.pop();
        proof {
            assert(views(pieces@) =~= full.drop_last());
        }
    }
    proof {
        assert(views(pieces@) == spec_lines(text@));
    }
    let ghost lines = spec_lines(text@);
    let mut out: Vec<char> = Vec::new();
    let mut i: usize = 0;
    let n = pieces.len();
    assert(out@ =~= Seq::<char>::empty());
    while i < n
        invariant
            n == pieces@.len(),
            views(pieces@) == lines,
            i <= n,
            spec_formatted_lines(lines, 0) == out@ + spec_formatted_lines(lines, i as int),
        decreases n - i,
    {
        let piece = format_line(&pieces[i]);
        append_all(&mut out, &piece);
        proof {
            assert(spec_formatted_lines(lines, i as int) == spec_format_line(lines[i as int])
                + spec_formatted_lines(lines, i as int + 1));
            assert(spec_formatted_lines(lines, 0) =~= out@ + spec_formatted_lines(
                lines,
                i as int + 1,
            ));
        }
        i += 1;
    }
    proof {
        assert(spec_formatted_lines(lines, n as int) =~= Seq::<char>::empty());
        assert(out@ + spec_formatted_lines(lines, n as int) =~= out@);
    }
    out
}

/// Renders one literal segment.
fn render_literal(text: &str) -> (out: Vec<char>)
    ensures
        out@ == spec_literal(text@),
{
    let v = str_to_chars(text);
    let nl = str_to_chars("\n");
    let pp = str_to_chars("<p></p>");
    proof {
        reveal_strlit("\n");
        reveal_strlit("<p></p>");
    }
    let pieces = split_all(&v, &nl);
    let ghost lines = spec_split(text@, nl_mark());
    let mut out = str_to_chars("<pre><code>");
    let mut i: usize = 0;
    let n = pieces.len();
    proof {
        assert(out@ + spec_literal_lines(lines, 0) =~= pre_open() + spec_literal_lines(lines, 0));
    }
    while i < n
        invariant
            n == pieces@.len(),
            views(pieces@) == lines,
            pp@ == pp_mark(),
            pp@.len() >= 1,
            i <= n,
            pre_open() + spec_literal_lines(lines, 0) == out@ + spec_literal_lines(
                lines,
                i as int,
            ),
        decreases n - i,
    {
        let mut wrapped = str_to_chars("<p>");
        append_all(&mut wrapped, &pieces[i]);
        let pc = str_to_chars("</p>");
        append_all(&mut wrapped, &pc);
        proof {
            assert(wrapped@ == p_wrap(lines[i as int]));
        }
        let cleaned = remove_all(&wrapped, &pp);
        append_all(&mut out, &cleaned);
        proof {
            assert(spec_literal_lines(lines, i as int) == spec_remove(
                p_wrap(lines[i as int]),
                pp_mark(),
            ) + spec_literal_lines(lines, i as int + 1));
            assert(pre_open() + spec_literal_lines(lines, 0) =~= out@ + spec_literal_lines(
                lines,
                i as int + 1,
            ));
        }
        i += 1;
    }
    proof {
        assert(spec_literal_lines(lines, n as int) =~= Seq::<char>::empty());
        assert(out@ =~= pre_open() + spec_literal_lines(lines, 0));
    }
    let tail = str_to_chars("</code></pre>");
    append_all(&mut out, &tail);
    out
}

/// Converts one document's raw text into its HTML body. The conversion is a
/// pure function of the text: it performs no reads and keeps no state.
pub fn convert(text: &str) -> (r: String)
    ensures
        r@ == spec_convert(text@),
{
    let segs = segment_document(text);
    let ghost ps = spec_split(text@, fence());
    let mut out: Vec<char> = Vec::new();
    let mut i: usize = 0;
    let n = segs.len();
    assert(out@ =~= Seq::<char>::empty());
    while i < n
        invariant
            n == segs@.len(),
            n == ps.len(),
            forall|k: int|
                0 <= k < n ==> segs@[k].kind == kind_of(k) && segs@[k].text@ == ps[k],
            i <= n,
            ps == spec_split(text@, fence()),
            spec_segments_out(ps, 0) == out@ + spec_segments_out(ps, i as int),
        decreases n - i,
    {
        let seg = &segs[i];
        let piece = match seg.kind {
            SegmentKind::Formatted => render_formatted(seg.text.as_str()),
            SegmentKind::Literal => render_literal(seg.text.as_str()),
        };
        proof {
            assert(piece@ == spec_segment_out(ps[i as int], kind_of(i as int)));
        }
        append_all(&mut out, &piece);
        proof {
            assert(spec_segments_out(ps, i as int) == spec_segment_out(
                ps[i as int],
                kind_of(i as int),
            ) + spec_segments_out(ps, i as int + 1));
            assert(spec_segments_out(ps, 0) =~= out@ + spec_segments_out(ps, i as int + 1));
        }
        i += 1;
    }
    proof {
        assert(spec_segments_out(ps, n as int) =~= Seq::<char>::empty());
        assert(out@ =~= spec_segments_out(ps, 0));
    }
    chars_to_string(&out)
}

/// Text inside a fenced segment is never touched by the heading, link or
/// emphasis rules: it reaches the output verbatim, only block-wrapped. The
/// statement covers ordinary literal content — non-empty text holding no
/// fence character, no line separator and no `<` — so that the block
/// wrapping and the artifact-stripping around it are the identity on its
/// characters; content that itself contains markers or separators is still
/// exempt from the rules, but is reshaped by the block wrapping.
pub proof fn lemma_literal_text_verbatim(t: Seq<char>)
    requires
        t.len() > 0,
        forall|i: int| 0 <= i < t.len() ==> t[i] != '`' && t[i] != '\n' && t[i] != '<',
    ensures
        spec_convert(fence() + t + fence()) == pre_open() + p_open() + t + p_close() + pre_close(),
{
    reveal_strlit("```");
    reveal_strlit("\n");
    reveal_strlit("<p>");
    reveal_strlit("</p>");
    reveal_strlit("<p></p>");
    let s = fence() + t + fence();
    let tn = t.len() as int;
    // the document splits on the two fences into an empty formatted piece,
    // the literal text, and an empty formatted piece
    assert(s.subrange(0, 3) =~= fence());
    lemma_find_present(s, fence(), 0, 0);
    assert(s.subrange(3 + tn, 6 + tn) =~= fence());
    assert forall|j: int| 3 <= j < 3 + tn implies !match_at(s, fence(), j) by {
        if match_at(s, fence(), j) {
            assert(s.subrange(j, j + 3)[0] == s[j]);
            assert(s[j] == t[j - 3]);
        }
    }
    lemma_find_present(s, fence(), 3, 3 + tn);
    assert(spec_find(s, fence(), 6 + tn) is None);
    let ps = spec_split(s, fence());
    assert(spec_split_from(s, fence(), 6 + tn) == seq![s.subrange(6 + tn, s.len() as int)]);
    assert(spec_split_from(s, fence(), 3) == seq![s.subrange(3, 3 + tn)] + spec_split_from(
        s,
        fence(),
        6 + tn,
    ));
    assert(spec_split_from(s, fence(), 0) == seq![s.subrange(0, 0)] + spec_split_from(
        s,
        fence(),
        3,
    ));
    assert(s.subrange(6 + tn, s.len() as int) =~= Seq::<char>::empty());
    assert(s.subrange(0, 0) =~= Seq::<char>::empty());
    assert(s.subrange(3, 3 + tn) =~= t);
    assert(ps =~= seq![Seq::<char>::empty(), t, Seq::<char>::empty()]);
    // an empty formatted segment renders to nothing
    assert(spec_find(Seq::<char>::empty(), nl_mark(), 0) is None);
    assert(spec_split(Seq::<char>::empty(), nl_mark()) == seq![
        Seq::<char>::empty().subrange(0, 0),
    ]);
    assert(Seq::<char>::empty().subrange(0, 0) =~= Seq::<char>::empty());
    assert(spec_lines(Seq::<char>::empty()) =~= Seq::<Seq<char>>::empty());
    assert(spec_formatted(Seq::<char>::empty()) =~= Seq::<char>::empty());
    // the literal text is a single line, and the empty-paragraph artifact
    // occurs nowhere in its wrapped form
    assert forall|j: int| j >= 0 implies !match_at(t, nl_mark(), j) by {
        if match_at(t, nl_mark(), j) {
            assert(t.subrange(j, j + 1)[0] == t[j]);
        }
    }
    lemma_find_absent(t, nl_mark(), 0);
    assert(spec_split(t, nl_mark()) == seq![t.subrange(0, tn)]);
    assert(t.subrange(0, tn) =~= t);
    let w = p_wrap(t);
    assert(w.len() == tn + 7);
    assert forall|j: int| j >= 0 implies !match_at(w, pp_mark(), j) by {
        if match_at(w, pp_mark(), j) {
            assert(pp_mark().len() == 7);
            if j == 0 {
                assert(w.subrange(j, j + 7)[3] == w[3]);
                assert(w[3] == t[0]);
                assert(pp_mark()[3] == '<');
            } else if j == 1 {
                assert(w.subrange(j, j + 7)[0] == w[1]);
                assert(w[1] == 'p');
                assert(pp_mark()[0] == '<');
            } else if j == 2 {
                assert(w.subrange(j, j + 7)[0] == w[2]);
                assert(w[2] == '>');
            } else {
                assert(w.subrange(j, j + 7)[0] == w[j]);
                assert(w[j] == t[j - 3]);
            }
        }
    }
    lemma_remove_absent(w, pp_mark());
    let ls = seq![t];
    assert(spec_literal_lines(ls, 1) =~= Seq::<char>::empty());
    assert(spec_literal_lines(ls, 0) =~= w);
    assert(spec_literal(t) =~= pre_open() + w + pre_close());
    // assemble the three segments
    assert(spec_segments_out(ps, 3) =~= Seq::<char>::empty());
    assert(kind_of(0) == SegmentKind::Formatted);
    assert(kind_of(1) == SegmentKind::Literal);
    assert(kind_of(2) == SegmentKind::Formatted);
    assert(ps[0] == Seq::<char>::empty() && ps[1] == t && ps[2] == Seq::<char>::empty());
    assert(spec_segments_out(ps, 2) == spec_segment_out(ps[2], kind_of(2)) + spec_segments_out(
        ps,
        3,
    ));
    assert(spec_segments_out(ps, 1) == spec_segment_out(ps[1], kind_of(1)) + spec_segments_out(
        ps,
        2,
    ));
    assert(spec_segments_out(ps, 0) == spec_segment_out(ps[0], kind_of(0)) + spec_segments_out(
        ps,
        1,
    ));
    assert(spec_segments_out(ps, 0) =~= spec_literal(t));
    assert(spec_convert(s) =~= pre_open() + p_open() + t + p_close() + pre_close());
}

/// A document in which the fence token does not occur is treated as one
/// single formatted segment.
pub proof fn lemma_no_fence_single_segment(d: Seq<char>)
    requires
        spec_find(d, fence(), 0) is None,
    ensures
        spec_convert(d) == spec_formatted(d),
{
    assert(d.subrange(0, d.len() as int) =~= d);
    let ps = spec_split(d, fence());
    assert(ps =~= seq![d]);
    assert(spec_segments_out(ps, 1) =~= Seq::<char>::empty());
    assert(kind_of(0) == SegmentKind::Formatted);
    assert(spec_segments_out(ps, 0) =~= spec_formatted(d));
}

} // verus!
