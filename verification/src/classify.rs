//! The block classifier: splits one document into alternating literal and
//! formatted segments on the fence token, and classifies each line of a
//! formatted segment as a heading, a blank line, or a paragraph.
//!
//! Segment kinds strictly alternate, starting with a formatted segment: the
//! piece at even position in the split is formatted, the piece at odd
//! position is literal. When the fence token appears an odd number of times,
//! the final piece therefore counts as literal; that reading of an unclosed
//! fence is kept deliberately.

use vstd::prelude::*;
use crate::rewrite::{heading_body, heading_level, heading_parse, is_heading};
use crate::text::{chars_to_string, spec_split, spec_trim, str_to_chars, split_all, subvec, trim_chars, views, append_all};

verus! {

/// The fence token: the three-character delimiter between literal and
/// formatted segments.
pub open spec fn fence() -> Seq<char> {
    "```"@
}

/// The opening paragraph marker.
pub open spec fn p_open() -> Seq<char> {
    "<p>"@
}

/// The closing paragraph marker.
pub open spec fn p_close() -> Seq<char> {
    "</p>"@
}

/// The line-break marker a blank line becomes.
pub open spec fn br_mark() -> Seq<char> {
    "<br>"@
}

/// The kind of a segment: formatted text goes through line classification and
/// the inline rewrite chain; literal text is only block-wrapped.
#[derive(Clone, Copy, Debug, PartialEq, Eq, Structural)]
pub enum SegmentKind {
    Formatted,
    Literal,
}

/// One segment of a document: a contiguous slice of its text and its kind.
#[derive(Debug)]
pub struct Segment {
    pub kind: SegmentKind,
    pub text: String,
}

/// The kind of the segment at position `i` of the split: kinds alternate,
/// starting formatted.
pub open spec fn kind_of(i: int) -> SegmentKind {
    if i % 2 == 0 {
        SegmentKind::Formatted
    } else {
        SegmentKind::Literal
    }
}

/// Splits a document on the fence token into its ordered segments.
pub fn segment_document(text: &str) -> (r: Vec<Segment>)
    ensures
        r@.len() == spec_split(text@, fence()).len(),
        forall|i: int|
            0 <= i < r@.len() ==> r@[i].kind == kind_of(i) && r@[i].text@ == spec_split(
                text@,
                fence(),
            )[i],
{
    let v = str_to_chars(text);
    let f = str_to_chars("```");
    proof {
        reveal_strlit("```");
    }
    let pieces = split_all(&v, &f);
    let mut r: Vec<Segment> = Vec::new();
    let mut i: usize = 0;
    let n = pieces.len();
    while i < n
        invariant
            n == pieces@.len(),
            views(pieces@) == spec_split(text@, fence()),
            i <= n,
            r@.len() == i,
            forall|k: int|
                0 <= k < i ==> r@[k].kind == kind_of(k) && r@[k].text@ == spec_split(
                    text@,
                    fence(),
                )[k],
        decreases n - i,
    {
        let kind = if i % 2 == 0 {
            SegmentKind::Formatted
        } else {
            SegmentKind::Literal
        };
        let s = chars_to_string(&pieces[i]);
        r.push(Segment { kind: kind, text: s });
        i += 1;
    }
    r
}

/// The classification of one line of a formatted segment, made after
/// trimming surrounding whitespace: a heading with its level and text, a
/// blank line, or a paragraph.
#[derive(Debug)]
pub enum LineClass {
    Blank,
    Heading { level: usize, text: String },
    Paragraph { text: String },
}

/// Classifies one line of a formatted segment.
pub fn classify_line(line: &str) -> (r: LineClass)
    ensures
        spec_trim(line@).len() == 0 ==> r is Blank,
        spec_trim(line@).len() > 0 && is_heading(spec_trim(line@)) ==> (r matches
            LineClass::Heading { level, text } && level as int == heading_level(spec_trim(line@))
            && text@ == heading_body(spec_trim(line@))),
        spec_trim(line@).len() > 0 && !is_heading(spec_trim(line@)) ==> (r matches
            LineClass::Paragraph { text } && text@ == spec_trim(line@)),
{
    let v = str_to_chars(line);
    let t = trim_chars(&v);
    if t.len() == 0 {
        return LineClass::Blank;
    }
    match heading_parse(&t) {
        Some((n, w)) => {
            let body = subvec(&t, w, t.len());
            LineClass::Heading { level: n, text: chars_to_string(&body) }
        },
        None => LineClass::Paragraph { text: chars_to_string(&t) },
    }
}

/// How a classified line reads before the inline rewrite chain runs: a blank
/// line becomes the line-break marker, a heading line is kept verbatim for
/// the heading rule, and a paragraph line is wrapped in paragraph markers.
pub open spec fn spec_wrap_line(l: Seq<char>) -> Seq<char> {
    if l.len() == 0 {
        br_mark()
    } else if is_heading(l) {
        l
    } else {
        p_open() + l + p_close()
    }
}

/// Renders one already-trimmed line into its pre-rewrite form.
pub fn wrap_line(t: &Vec<char>) -> (r: Vec<char>)
    ensures
        r@ == spec_wrap_line(t@),
{
    if t.len() == 0 {
        return str_to_chars("<br>");
    }
    if heading_parse(t).is_some() {
        let r = subvec(t, 0, t.len());
        proof {
            assert(t@.subrange(0, t@.len() as int) =~= t@);
        }
        return r;
    }
    let mut out = str_to_chars("<p>");
    append_all(&mut out, t);
    let pc = str_to_chars("</p>");
    append_all(&mut out, &pc);
    out
}

} // verus!
