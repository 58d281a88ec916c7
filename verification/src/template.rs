//! The template renderer: substitutes a converted document body into the
//! shared page template.
//!
//! The template is a single string holding the placeholder marker; rendering
//! replaces the marker's first occurrence with the body. When the marker is
//! absent the template is returned verbatim and the body is dropped silently;
//! that quirk is kept deliberately.

use vstd::prelude::*;
use vstd::string::StringExecFns;
use crate::text::{append_all, chars_to_string, find_from, spec_find, str_to_chars, subvec};

verus! {

/// The placeholder marker replaced by the converted body.
pub open spec fn placeholder() -> Seq<char> {
    "{{{}}}"@
}

/// The fixed name of the template file in the source root.
pub fn template_file_name() -> (r: String)
    ensures
        r@ == "template.html"@,
{
    String::from_str("template.html")
}

/// The rendered page: the template with the first occurrence of the
/// placeholder replaced by the body, or the template verbatim when the
/// placeholder is absent.
pub open spec fn spec_render(t: Seq<char>, body: Seq<char>) -> Seq<char> {
    match spec_find(t, placeholder(), 0) {
        Some(i) => {
            if 0 <= i && i + placeholder().len() <= t.len() {
                t.subrange(0, i) + body + t.subrange(i + placeholder().len() as int, t.len() as int)
            } else {
                t
            }
        },
        None => t,
    }
}

/// Substitutes `body` for the first occurrence of the placeholder in
/// `template`.
pub fn render(template: &str, body: &str) -> (r: String)
    ensures
        r@ == spec_render(template@, body@),
{
    let t = str_to_chars(template);
    let b = str_to_chars(body);
    let ph = str_to_chars("{{{}}}");
    proof {
        reveal_strlit("{{{}}}");
    }
    match find_from(&t, &ph, 0) {
        Some(i) => {
            let mut out = subvec(&t, 0, i);
            append_all(&mut out, &b);
            let tn: usize = t.len();
            assert(i + ph@.len() <= tn);
            let rest = subvec(&t, i + ph.len(), tn);
            append_all(&mut out, &rest);
            chars_to_string(&out)
        },
        None => String::from_str(template),
    }
}

/// When the placeholder does not occur in the template, rendering returns
/// the template verbatim, whatever the body: the converted body is silently
/// dropped, a quirk kept deliberately.
pub proof fn lemma_absent_placeholder_keeps_template(t: Seq<char>, b: Seq<char>)
    requires
        spec_find(t, placeholder(), 0) is None,
    ensures
        spec_render(t, b) == t,
{
}

} // verus!
