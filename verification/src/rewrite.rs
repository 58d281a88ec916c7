//! The inline rewriter: an ordered chain of rewrite rules applied to one line
//! of a formatted segment after line classification.
//!
//! The order of the rules is a contract, not an accident of call order:
//! 1. the heading rule, then
//! 2. the link rule, then
//! 3. the bold rule, then
//! 4. the italic rule, then
//! 5. the underline rule,
//! each rule consuming the previous rule's output. The bold rule must run
//! before the italic rule: the italic rule's single-marker pattern would
//! otherwise partially consume doubled markers and corrupt bold text. A
//! malformed pattern (an unclosed marker) simply fails to match, and its text
//! passes through unchanged.

use vstd::prelude::*;
use crate::text::{
    append_all, find_from, is_match_at, is_space, is_space_char, match_at, spec_find, str_to_chars,
    subvec, chars_to_string,
};

verus! {

/// The digit naming a heading level; levels run from 0 to 6.
pub open spec fn level_char(n: int) -> char {
    if n == 0 {
        '0'
    } else if n == 1 {
        '1'
    } else if n == 2 {
        '2'
    } else if n == 3 {
        '3'
    } else if n == 4 {
        '4'
    } else if n == 5 {
        '5'
    } else {
        '6'
    }
}

/// The opening tag of a heading of level `n`.
pub open spec fn h_open(n: int) -> Seq<char> {
    seq!['<', 'h', level_char(n), '>']
}

/// The closing tag of a heading of level `n`.
pub open spec fn h_close(n: int) -> Seq<char> {
    seq!['<', '/', 'h', level_char(n), '>']
}

fn level_digit(n: usize) -> (r: char)
    requires
        n <= 6,
    ensures
        r == level_char(n as int),
{
    if n == 0 {
        '0'
    } else if n == 1 {
        '1'
    } else if n == 2 {
        '2'
    } else if n == 3 {
        '3'
    } else if n == 4 {
        '4'
    } else if n == 5 {
        '5'
    } else {
        '6'
    }
}

/// The number of consecutive `#` characters in `l` starting at `i`.
pub open spec fn hash_run(l: Seq<char>, i: int) -> int
    decreases l.len() - i,
{
    if 0 <= i < l.len() && l[i] == '#' {
        1 + hash_run(l, i + 1)
    } else {
        0
    }
}

/// The number of consecutive whitespace characters in `l` starting at `i`.
pub open spec fn space_run(l: Seq<char>, i: int) -> int
    decreases l.len() - i,
{
    if 0 <= i < l.len() && is_space(l[i]) {
        1 + space_run(l, i + 1)
    } else {
        0
    }
}

/// The heading level a line claims: the count of its leading `#` characters.
pub open spec fn heading_level(l: Seq<char>) -> int {
    hash_run(l, 0)
}

/// A line matches the heading rule when zero to six `#` characters are
/// followed by at least one whitespace character; the level may be 0, which
/// yields a degenerate level-0 heading tag, kept deliberately.
pub open spec fn is_heading(l: Seq<char>) -> bool {
    let n = heading_level(l);
    n <= 6 && n < l.len() && is_space(l[n])
}

/// Where the heading text begins: after the `#` run and the whitespace run.
pub open spec fn heading_body_start(l: Seq<char>) -> int {
    heading_level(l) + space_run(l, heading_level(l))
}

/// The text of a heading line: everything after the marks and the whitespace.
pub open spec fn heading_body(l: Seq<char>) -> Seq<char> {
    l.subrange(heading_body_start(l), l.len() as int)
}

/// The heading rule: a matching line becomes a heading element of its level;
/// any other line is unchanged.
pub open spec fn spec_heading_rule(l: Seq<char>) -> Seq<char> {
    if is_heading(l) && 0 <= heading_body_start(l) <= l.len() {
        h_open(heading_level(l)) + heading_body(l) + h_close(heading_level(l))
    } else {
        l
    }
}

proof fn lemma_hash_run(l: Seq<char>, i: int, r: int)
    requires
        0 <= i <= r <= l.len(),
        forall|k: int| i <= k < r ==> l[k] == '#',
        r == l.len() || l[r] != '#',
    ensures
        hash_run(l, i) == r - i,
    decreases r - i,
{
    if i < r {
        assert(l[i] == '#');
        lemma_hash_run(l, i + 1, r);
    }
}

proof fn lemma_space_run(l: Seq<char>, i: int, r: int)
    requires
        0 <= i <= r <= l.len(),
        forall|k: int| i <= k < r ==> is_space(l[k]),
        r == l.len() || !is_space(l[r]),
    ensures
        space_run(l, i) == r - i,
    decreases r - i,
{
    if i < r {
        assert(is_space(l[i]));
        lemma_space_run(l, i + 1, r);
    }
}

/// Parses a line against the heading pattern: returns the heading level and
/// the position where the heading text begins, when the line matches.
pub fn heading_parse(v: &Vec<char>) -> (r: Option<(usize, usize)>)
    ensures
        (r is Some) == is_heading(v@),
        (match r {
            Some(p) => {
                &&& p.0 as int == heading_level(v@)
                &&& p.1 as int == heading_body_start(v@)
                &&& p.0 <= 6
                &&& p.1 <= v@.len()
            },
            None => true,
        }),
{
    let vn: usize = v.len();
    let mut n: usize = 0;
    while n < vn && v[n] == '#'
        invariant
            vn == v@.len(),
            n <= vn,
            forall|k: int| 0 <= k < n ==> v@[k] == '#',
        decreases vn - n,
    {
        n += 1;
    }
    proof {
        lemma_hash_run(v@, 0, n as int);
    }
    if n > 6 || n >= vn || !is_space_char(v[n]) {
        proof {
            assert(!is_heading(v@));
        }
        return None;
    }
    let mut w: usize = n;
    while w < vn && is_space_char(v[w])
        invariant
            vn == v@.len(),
            n <= w <= vn,
            forall|k: int| n <= k < w ==> is_space(v@[k]),
        decreases vn - w,
    {
        w += 1;
    }
    proof {
        lemma_space_run(v@, n as int, w as int);
        assert(heading_body_start(v@) == w as int);
    }
    Some((n, w))
}

/// Applies the heading rule to one line.
pub fn heading_rule(v: &Vec<char>) -> (r: Vec<char>)
    ensures
        r@ == spec_heading_rule(v@),
{
    let vn: usize = v.len();
    let parsed = heading_parse(v);
    if parsed.is_none() {
        let r = subvec(v, 0, vn);
        proof {
            assert(v@.subrange(0, v@.len() as int) =~= v@);
        }
        return r;
    }
    let (n, w) = parsed.unwrap();
    let mut out: Vec<char> = Vec::new();
    out.push('<');
    out.push('h');
    out.push(level_digit(n));
    out.push('>');
    proof {
        assert(out@ =~= h_open(n as int));
    }
    let body = subvec(v, w, vn);
    append_all(&mut out, &body);
    out.push('<');
    out.push('/');
    out.push('h');
    out.push(level_digit(n));
    out.push('>');
    proof {
        assert(out@ =~= h_open(n as int) + heading_body(v@) + h_close(n as int));
    }
    out
}

/// The positions that make `[label](target)` match at `i`: the first `]`
/// after the `[`, immediately followed by `(`, and the first `)` after that.
pub open spec fn link_parts(s: Seq<char>, i: int) -> Option<(int, int)> {
    if 0 <= i < s.len() && s[i] == '[' {
        match spec_find(s, "]"@, i + 1) {
            Some(j) => if j + 1 < s.len() && s[j + 1] == '(' {
                match spec_find(s, ")"@, j + 2) {
                    Some(k) => if i + 1 <= j && j + 2 <= k && k < s.len() {
                        Some((j, k))
                    } else {
                        None
                    },
                    None => None,
                }
            } else {
                None
            },
            None => None,
        }
    } else {
        None
    }
}

/// The link rule applied from position `i` on: each match becomes an anchor
/// element with the target as reference and the label as visible text;
/// unmatched characters are kept.
pub open spec fn spec_link_rule_from(s: Seq<char>, i: int) -> Seq<char>
    decreases s.len() - i,
{
    if !(0 <= i < s.len()) {
        Seq::empty()
    } else {
        match link_parts(s, i) {
            Some(jk) => "<a href=\""@ + s.subrange(jk.0 + 2, jk.1) + "\">"@ + s.subrange(
                i + 1,
                jk.0,
            ) + "</a>"@ + spec_link_rule_from(s, jk.1 + 1),
            None => seq![s[i]] + spec_link_rule_from(s, i + 1),
        }
    }
}

/// The link rule over a whole line.
pub open spec fn spec_link_rule(s: Seq<char>) -> Seq<char> {
    spec_link_rule_from(s, 0)
}

/// Applies the link rule to one line.
pub fn link_rule(v: &Vec<char>) -> (out: Vec<char>)
    ensures
        out@ == spec_link_rule(v@),
{
    let rb = str_to_chars("]");
    let rp = str_to_chars(")");
    let ao = str_to_chars("<a href=\"");
    let am = str_to_chars("\">");
    let ac = str_to_chars("</a>");
    proof {
        reveal_strlit("]");
        reveal_strlit(")");
    }
    let vn: usize = v.len();
    let mut out: Vec<char> = Vec::new();
    let mut i: usize = 0;
    assert(out@ =~= Seq::<char>::empty());
    while i < vn
        invariant
            vn == v@.len(),
            i <= vn,
            rb@ == "]"@,
            rp@ == ")"@,
            ao@ == "<a href=\""@,
            am@ == "\">"@,
            ac@ == "</a>"@,
            spec_link_rule_from(v@, 0) == out@ + spec_link_rule_from(v@, i as int),
        decreases vn - i,
    {
        proof {
            reveal_strlit("]");
            reveal_strlit(")");
        }
        if v[i] == '[' {
            if let Some(j) = find_from(v, &rb, i + 1) {
                if j + 1 < vn && v[j + 1] == '(' {
                    if let Some(k) = find_from(v, &rp, j + 2) {
                        proof {
                            assert(link_parts(v@, i as int) == Some((j as int, k as int)));
                        }
                        append_all(&mut out, &ao);
                        let target = subvec(v, j + 2, k);
                        append_all(&mut out, &target);
                        append_all(&mut out, &am);
                        let label = subvec(v, i + 1, j);
                        append_all(&mut out, &label);
                        append_all(&mut out, &ac);
                        proof {
                            assert(spec_link_rule_from(v@, 0) =~= out@ + spec_link_rule_from(
                                v@,
                                k + 1,
                            ));
                        }
                        i = k + 1;
                        continue;
                    }
                }
            }
        }
        out.push(v[i]);
        proof {
            assert(link_parts(v@, i as int) is None);
            assert(spec_link_rule_from(v@, 0) =~= out@ + spec_link_rule_from(v@, i + 1));
        }
        i += 1;
    }
    proof {
        assert(spec_link_rule_from(v@, vn as int) =~= Seq::<char>::empty());
        assert(out@ + spec_link_rule_from(v@, vn as int) =~= out@);
    }
    out
}

/// The position of the closing marker that makes a pair of `m` markers match
/// at `i`: the first occurrence of `m` after the opening marker.
pub open spec fn pair_close(s: Seq<char>, m: Seq<char>, i: int) -> Option<int> {
    if match_at(s, m, i) {
        match spec_find(s, m, i + m.len() as int) {
            Some(j) => if i + m.len() <= j && j + m.len() <= s.len() {
                Some(j)
            } else {
                None
            },
            None => None,
        }
    } else {
        None
    }
}

/// A paired-marker rule applied from position `i` on: text enclosed by two
/// occurrences of the marker `m` is wrapped in `ot` and `ct`; unmatched
/// characters are kept.
pub open spec fn spec_pair_rule_from(
    s: Seq<char>,
    m: Seq<char>,
    ot: Seq<char>,
    ct: Seq<char>,
    i: int,
) -> Seq<char>
    decreases s.len() - i,
{
    if !(0 <= i < s.len()) {
        Seq::empty()
    } else {
        match pair_close(s, m, i) {
            Some(j) => if m.len() > 0 {
                ot + s.subrange(i + m.len() as int, j) + ct + spec_pair_rule_from(
                    s,
                    m,
                    ot,
                    ct,
                    j + m.len() as int,
                )
            } else {
                seq![s[i]] + spec_pair_rule_from(s, m, ot, ct, i + 1)
            },
            None => seq![s[i]] + spec_pair_rule_from(s, m, ot, ct, i + 1),
        }
    }
}

/// Applies a paired-marker rule to one line.
fn pair_rule(v: &Vec<char>, m: &Vec<char>, ot: &Vec<char>, ct: &Vec<char>) -> (out: Vec<char>)
    requires
        m@.len() >= 1,
    ensures
        out@ == spec_pair_rule_from(v@, m@, ot@, ct@, 0),
{
    let vn: usize = v.len();
    let mut out: Vec<char> = Vec::new();
    let mut i: usize = 0;
    assert(out@ =~= Seq::<char>::empty());
    while i < vn
        invariant
            vn == v@.len(),
            i <= vn,
            m@.len() >= 1,
            spec_pair_rule_from(v@, m@, ot@, ct@, 0) == out@ + spec_pair_rule_from(
                v@,
                m@,
                ot@,
                ct@,
                i as int,
            ),
        decreases vn - i,
    {
        if vn - i >= m.len() && is_match_at(v, m, i) {
            if let Some(j) = find_from(v, m, i + m.len()) {
                proof {
                    assert(pair_close(v@, m@, i as int) == Some(j as int));
                }
                append_all(&mut out, ot);
                let mid = subvec(v, i + m.len(), j);
                append_all(&mut out, &mid);
                append_all(&mut out, ct);
                proof {
                    assert(spec_pair_rule_from(v@, m@, ot@, ct@, 0) =~= out@ + spec_pair_rule_from(
                        v@,
                        m@,
                        ot@,
                        ct@,
                        j + m@.len() as int,
                    ));
                }
                i = j + m.len();
                continue;
            }
        }
        out.push(v[i]);
        proof {
            assert(pair_close(v@, m@, i as int) is None);
            assert(spec_pair_rule_from(v@, m@, ot@, ct@, 0) =~= out@ + spec_pair_rule_from(
                v@,
                m@,
                ot@,
                ct@,
                i + 1,
            ));
        }
        i += 1;
    }
    proof {
        assert(spec_pair_rule_from(v@, m@, ot@, ct@, vn as int) =~= Seq::<char>::empty());
        assert(out@ + spec_pair_rule_from(v@, m@, ot@, ct@, vn as int) =~= out@);
    }
    out
}

/// The bold rule: text between doubled emphasis markers becomes a
/// strong-emphasis element.
pub open spec fn spec_bold_rule(s: Seq<char>) -> Seq<char> {
    spec_pair_rule_from(s, "**"@, "<strong>"@, "</strong>"@, 0)
}

/// The italic rule: text between single emphasis markers becomes an italic
/// element.
pub open spec fn spec_italic_rule(s: Seq<char>) -> Seq<char> {
    spec_pair_rule_from(s, "*"@, "<i>"@, "</i>"@, 0)
}

/// The underline rule: text between doubled alternate markers becomes an
/// underline element.
pub open spec fn spec_underline_rule(s: Seq<char>) -> Seq<char> {
    spec_pair_rule_from(s, "__"@, "<u>"@, "</u>"@, 0)
}

/// Applies the bold rule to one line.
pub fn bold_rule(v: &Vec<char>) -> (out: Vec<char>)
    ensures
        out@ == spec_bold_rule(v@),
{
    let m = str_to_chars("**");
    let ot = str_to_chars("<strong>");
    let ct = str_to_chars("</strong>");
    proof {
        reveal_strlit("**");
    }
    pair_rule(v, &m, &ot, &ct)
}

/// Applies the italic rule to one line.
pub fn italic_rule(v: &Vec<char>) -> (out: Vec<char>)
    ensures
        out@ == spec_italic_rule(v@),
{
    let m = str_to_chars("*");
    let ot = str_to_chars("<i>");
    let ct = str_to_chars("</i>");
    proof {
        reveal_strlit("*");
    }
    pair_rule(v, &m, &ot, &ct)
}

/// Applies the underline rule to one line.
pub fn underline_rule(v: &Vec<char>) -> (out: Vec<char>)
    ensures
        out@ == spec_underline_rule(v@),
{
    let m = str_to_chars("__");
    let ot = str_to_chars("<u>");
    let ct = str_to_chars("</u>");
    proof {
        reveal_strlit("__");
    }
    pair_rule(v, &m, &ot, &ct)
}

/// The whole rewrite chain over one line, in its contractual order: heading,
/// then link, then bold, then italic, then underline.
pub open spec fn spec_rewrite(s: Seq<char>) -> Seq<char> {
    spec_underline_rule(spec_italic_rule(spec_bold_rule(spec_link_rule(spec_heading_rule(s)))))
}

/// Applies the whole rewrite chain to one line.
pub fn rewrite_chars(v: &Vec<char>) -> (out: Vec<char>)
    ensures
        out@ == spec_rewrite(v@),
{
    let a = heading_rule(v);
    let b = link_rule(&a);
    let c = bold_rule(&b);
    let d = italic_rule(&c);
    underline_rule(&d)
}

/// Applies the whole rewrite chain to one line given as a string.
pub fn rewrite(line: &str) -> (out: String)
    ensures
        out@ == spec_rewrite(line@),
{
    let v = str_to_chars(line);
    let r = rewrite_chars(&v);
    chars_to_string(&r)
}

} // verus!
