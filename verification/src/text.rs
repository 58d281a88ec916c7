//! Character-sequence utilities shared by every stage of the pipeline:
//! substring search, splitting on a token, removing every occurrence of a
//! token, trimming surrounding whitespace, and conversions between `String`
//! and `Vec<char>`.

use vstd::prelude::*;
use vstd::string::StrSliceExecFns;

verus! {

/// The whitespace characters recognised when trimming a line and when
/// matching the whitespace that separates heading marks from heading text.
pub open spec fn is_space(c: char) -> bool {
    c == ' ' || c == '\t' || c == '\n' || c == '\r' || c == '\u{000B}' || c == '\u{000C}'
}

pub fn is_space_char(c: char) -> (r: bool)
    ensures
        r == is_space(c),
{
    c == ' ' || c == '\t' || c == '\n' || c == '\r' || c == '\u{000B}' || c == '\u{000C}'
}

/// The pattern `pat` occurs in `s` starting at position `i`.
pub open spec fn match_at(s: Seq<char>, pat: Seq<char>, i: int) -> bool {
    &&& 0 <= i
    &&& i + pat.len() <= s.len()
    &&& s.subrange(i, i + pat.len() as int) == pat
}

/// The position of the first occurrence of `pat` in `s` at or after `from`,
/// if there is one.
pub open spec fn spec_find(s: Seq<char>, pat: Seq<char>, from: int) -> Option<int>
    decreases s.len() - from + 1,
{
    if from + pat.len() <= s.len() {
        if match_at(s, pat, from) {
            Some(from)
        } else {
            spec_find(s, pat, from + 1)
        }
    } else {
        None
    }
}

/// Conversely, the first match position is what the search returns.
pub proof fn lemma_find_present(s: Seq<char>, pat: Seq<char>, from: int, i: int)
    requires
        from <= i,
        match_at(s, pat, i),
        forall|j: int| from <= j < i ==> !match_at(s, pat, j),
    ensures
        spec_find(s, pat, from) == Some(i),
    decreases i - from,
{
    if from == i {
    } else {
        assert(!match_at(s, pat, from));
        lemma_find_present(s, pat, from + 1, i);
    }
}

/// With no match anywhere at or after `from`, the search fails.
pub proof fn lemma_find_absent(s: Seq<char>, pat: Seq<char>, from: int)
    requires
        forall|j: int| j >= from ==> !match_at(s, pat, j),
    ensures
        spec_find(s, pat, from) is None,
    decreases s.len() - from + 1,
{
    if from + pat.len() <= s.len() {
        assert(!match_at(s, pat, from));
        lemma_find_absent(s, pat, from + 1);
    }
}

pub(crate) fn is_match_at(v: &Vec<char>, pat: &Vec<char>, i: usize) -> (r: bool)
    requires
        i + pat@.len() <= v@.len(),
    ensures
        r == match_at(v@, pat@, i as int),
{
    let mut j: usize = 0;
    while j < pat.len()
        invariant
            i + pat@.len() <= v@.len(),
            0 <= j <= pat@.len(),
            forall|k: int| 0 <= k < j ==> v@[i + k] == pat@[k],
        decreases pat@.len() - j,
    {
        let vn: usize = v.len();
        assert(i + j < vn);
        if v[i + j] != pat[j] {
            proof {
                if match_at(v@, pat@, i as int) {
                    assert(v@.subrange(i as int, i + pat@.len() as int)[j as int] == pat@[j as int]);
                }
            }
            return false;
        }
        j += 1;
    }
    proof {
        assert(v@.subrange(i as int, i + pat@.len() as int) =~= pat@);
    }
    true
}

/// Finds the first occurrence of `pat` in `v` at or after `from`.
pub fn find_from(v: &Vec<char>, pat: &Vec<char>, from: usize) -> (r: Option<usize>)
    requires
        pat@.len() >= 1,
        from <= v@.len(),
    ensures
        match r {
            Some(i) => {
                &&& spec_find(v@, pat@, from as int) == Some(i as int)
                &&& from <= i
                &&& i + pat@.len() <= v@.len()
                &&& match_at(v@, pat@, i as int)
            },
            None => spec_find(v@, pat@, from as int) is None,
        },
{
    let mut i: usize = from;
    while v.len() - i >= pat.len()
        invariant
            pat@.len() >= 1,
            from <= i <= v@.len(),
            spec_find(v@, pat@, from as int) == spec_find(v@, pat@, i as int),
        decreases v@.len() - i,
    {
        if is_match_at(v, pat, i) {
            return Some(i);
        }
        proof {
            assert(spec_find(v@, pat@, i as int) == spec_find(v@, pat@, i + 1));
        }
        i += 1;
    }
    assert(spec_find(v@, pat@, i as int) is None);
    None
}

/// Copies the range `[a, b)` of `v` into a fresh vector.
pub fn subvec(v: &Vec<char>, a: usize, b: usize) -> (r: Vec<char>)
    requires
        a <= b <= v@.len(),
    ensures
        r@ == v@.subrange(a as int, b as int),
{
    let mut r: Vec<char> = Vec::new();
    let mut i: usize = a;
    assert(r@ =~= v@.subrange(a as int, a as int));
    while i < b
        invariant
            a <= i <= b <= v@.len(),
            r@ == v@.subrange(a as int, i as int),
        decreases b - i,
    {
        r.push(v[i]);
        proof {
            assert(r@ =~= v@.subrange(a as int, i as int + 1));
        }
        i += 1;
    }
    r
}

/// Appends all of `src` to `dst`.
pub fn append_all(dst: &mut Vec<char>, src: &Vec<char>)
    ensures
        final(dst)@ == old(dst)@ + src@,
{
    let mut i: usize = 0;
    assert(dst@ =~= old(dst)@ + src@.subrange(0, 0));
    while i < src.len()
        invariant
            i <= src@.len(),
            dst@ == old(dst)@ + src@.subrange(0, i as int),
        decreases src@.len() - i,
    {
        dst.push(src[i]);
        proof {
            assert(dst@ =~= old(dst)@ + src@.subrange(0, i as int + 1));
        }
        i += 1;
    }
    proof {
        assert(src@.subrange(0, src@.len() as int) =~= src@);
    }
}

/// Relies on `String::push`: appends one character to the string.
#[verifier::external_body]
fn push_char(s: &mut String, c: char)
    ensures
        final(s)@ == old(s)@ + seq![c],
{
    s.push(c);
}

/// Builds a `String` holding exactly the characters of `v`.
pub fn chars_to_string(v: &Vec<char>) -> (r: String)
    ensures
        r@ == v@,
{
    let mut r = String::new();
    let mut i: usize = 0;
    assert(r@ =~= v@.subrange(0, 0));
    while i < v.len()
        invariant
            i <= v@.len(),
            r@ == v@.subrange(0, i as int),
        decreases v@.len() - i,
    {
        push_char(&mut r, v[i]);
        proof {
            assert(r@ =~= v@.subrange(0, i as int + 1));
        }
        i += 1;
    }
    proof {
        assert(v@.subrange(0, v@.len() as int) =~= v@);
    }
    r
}

/// Collects the characters of a string slice into a vector.
pub fn str_to_chars(s: &str) -> (r: Vec<char>)
    ensures
        r@ == s@,
{
    let n = s.unicode_len();
    let mut r: Vec<char> = Vec::new();
    let mut i: usize = 0;
    assert(r@ =~= s@.subrange(0, 0));
    while i < n
        invariant
            n == s@.len(),
            i <= n,
            r@ == s@.subrange(0, i as int),
        decreases n - i,
    {
        let c = s.get_char(i);
        r.push(c);
        proof {
            assert(r@ =~= s@.subrange(0, i as int + 1));
        }
        i += 1;
    }
    proof {
        assert(s@.subrange(0, s@.len() as int) =~= s@);
    }
    r
}

/// The first position at or after `i` holding a non-whitespace character,
/// or the length of `s` if there is none.
pub open spec fn spec_trim_lo(s: Seq<char>, i: int) -> int
    decreases s.len() - i,
{
    if 0 <= i < s.len() {
        if is_space(s[i]) {
            spec_trim_lo(s, i + 1)
        } else {
            i
        }
    } else {
        s.len() as int
    }
}

/// The position after the last non-whitespace character strictly before `i`,
/// or 0 if there is none.
pub open spec fn spec_trim_hi(s: Seq<char>, i: int) -> int
    decreases i,
{
    if 0 < i <= s.len() {
        if is_space(s[i - 1]) {
            spec_trim_hi(s, i - 1)
        } else {
            i
        }
    } else {
        0
    }
}

/// `s` with leading and trailing whitespace removed.
pub open spec fn spec_trim(s: Seq<char>) -> Seq<char> {
    let lo = spec_trim_lo(s, 0);
    if lo == s.len() {
        Seq::empty()
    } else {
        s.subrange(lo, spec_trim_hi(s, s.len() as int))
    }
}

proof fn lemma_trim_lo(s: Seq<char>, i: int, r: int)
    requires
        0 <= i <= r <= s.len(),
        forall|k: int| i <= k < r ==> is_space(s[k]),
        r == s.len() || !is_space(s[r]),
    ensures
        spec_trim_lo(s, i) == r,
    decreases r - i,
{
    if i < r {
        assert(is_space(s[i]));
        lemma_trim_lo(s, i + 1, r);
    }
}

proof fn lemma_trim_hi(s: Seq<char>, i: int, r: int)
    requires
        0 <= r <= i <= s.len(),
        forall|k: int| r <= k < i ==> is_space(s[k]),
        r == 0 || !is_space(s[r - 1]),
    ensures
        spec_trim_hi(s, i) == r,
    decreases i - r,
{
    if r < i {
        assert(is_space(s[i - 1]));
        lemma_trim_hi(s, i - 1, r);
    }
}

/// Removes leading and trailing whitespace from `v`.
pub fn trim_chars(v: &Vec<char>) -> (r: Vec<char>)
    ensures
        r@ == spec_trim(v@),
{
    let mut lo: usize = 0;
    while lo < v.len() && is_space_char(v[lo])
        invariant
            lo <= v@.len(),
            forall|k: int| 0 <= k < lo ==> is_space(v@[k]),
        decreases v@.len() - lo,
    {
        lo += 1;
    }
    proof {
        lemma_trim_lo(v@, 0, lo as int);
    }
    if lo == v.len() {
        let r: Vec<char> = Vec::new();
        assert(r@ =~= spec_trim(v@));
        return r;
    }
    let mut hi: usize = v.len();
    while hi > 0 && is_space_char(v[hi - 1])
        invariant
            hi <= v@.len(),
            forall|k: int| hi <= k < v@.len() ==> is_space(v@[k]),
        decreases hi,
    {
        hi -= 1;
    }
    proof {
        lemma_trim_hi(v@, v@.len() as int, hi as int);
        if hi <= lo {
            assert(is_space(v@[lo as int]));
        }
    }
    subvec(v, lo, hi)
}

/// The views of a sequence of character vectors.
pub open spec fn views(parts: Seq<Vec<char>>) -> Seq<Seq<char>> {
    Seq::new(parts.len(), |i: int| parts[i]@)
}

/// The pieces of `s` between the occurrences of `pat`, scanning from `start`:
/// occurrences are consumed left to right and never overlap, and the final
/// piece runs to the end of `s`.
pub open spec fn spec_split_from(s: Seq<char>, pat: Seq<char>, start: int) -> Seq<Seq<char>>
    decreases s.len() - start,
{
    match spec_find(s, pat, start) {
        Some(i) => {
            if start <= i && pat.len() > 0 && i + pat.len() <= s.len() {
                seq![s.subrange(start, i)] + spec_split_from(s, pat, i + pat.len() as int)
            } else {
                seq![s.subrange(start, s.len() as int)]
            }
        },
        None => seq![s.subrange(start, s.len() as int)],
    }
}

/// The pieces of `s` between the occurrences of `pat`.
pub open spec fn spec_split(s: Seq<char>, pat: Seq<char>) -> Seq<Seq<char>> {
    spec_split_from(s, pat, 0)
}

/// Splits `v` on every occurrence of `pat`.
pub fn split_all(v: &Vec<char>, pat: &Vec<char>) -> (r: Vec<Vec<char>>)
    requires
        pat@.len() >= 1,
    ensures
        views(r@) == spec_split(v@, pat@),
        r@.len() == spec_split(v@, pat@).len(),
{
    let mut r: Vec<Vec<char>> = Vec::new();
    let mut start: usize = 0;
    let mut done = false;
    assert(views(r@) =~= Seq::<Seq<char>>::empty());
    while !done
        invariant
            pat@.len() >= 1,
            start <= v@.len(),
            !done ==> spec_split(v@, pat@) == views(r@) + spec_split_from(v@, pat@, start as int),
            done ==> spec_split(v@, pat@) == views(r@),
        decreases v@.len() - start + (if done { 0int } else { 1int }),
    {
        match find_from(v, pat, start) {
            Some(i) => {
                let piece = subvec(v, start, i);
                let ghost old_views = views(r@);
                r.push(piece);
                proof {
                    assert(views(r@) =~= old_views + seq![v@.subrange(start as int, i as int)]);
                    assert(spec_split_from(v@, pat@, start as int) =~= seq![
                        v@.subrange(start as int, i as int),
                    ] + spec_split_from(v@, pat@, i + pat@.len() as int));
                    assert(spec_split(v@, pat@) =~= views(r@) + spec_split_from(
                        v@,
                        pat@,
                        i + pat@.len() as int,
                    ));
                }
                let vn: usize = v.len();
                assert(i + pat@.len() <= vn);
                start = i + pat.len();
            },
            None => {
                let piece = subvec(v, start, v.len());
                let ghost old_views = views(r@);
                r.push(piece);
                proof {
                    assert(views(r@) =~= old_views + seq![
                        v@.subrange(start as int, v@.len() as int),
                    ]);
                    assert(spec_split_from(v@, pat@, start as int) =~= seq![
                        v@.subrange(start as int, v@.len() as int),
                    ]);
                    assert(spec_split(v@, pat@) =~= views(r@));
                }
                done = true;
            },
        }
    }
    r
}

/// `s` from `start` on, with every occurrence of `pat` removed: occurrences
/// are found left to right and the text between them is kept unchanged.
pub open spec fn spec_remove_from(s: Seq<char>, pat: Seq<char>, start: int) -> Seq<char>
    decreases s.len() - start,
{
    match spec_find(s, pat, start) {
        Some(i) => {
            if start <= i && pat.len() > 0 && i + pat.len() <= s.len() {
                s.subrange(start, i) + spec_remove_from(s, pat, i + pat.len() as int)
            } else {
                s.subrange(start, s.len() as int)
            }
        },
        None => s.subrange(start, s.len() as int),
    }
}

/// `s` with every occurrence of `pat` removed.
pub open spec fn spec_remove(s: Seq<char>, pat: Seq<char>) -> Seq<char> {
    spec_remove_from(s, pat, 0)
}

/// Removes every occurrence of `pat` from `v`.
pub fn remove_all(v: &Vec<char>, pat: &Vec<char>) -> (r: Vec<char>)
    requires
        pat@.len() >= 1,
    ensures
        r@ == spec_remove(v@, pat@),
{
    let mut r: Vec<char> = Vec::new();
    let mut start: usize = 0;
    let mut done = false;
    assert(r@ =~= Seq::<char>::empty());
    while !done
        invariant
            pat@.len() >= 1,
            start <= v@.len(),
            !done ==> spec_remove(v@, pat@) == r@ + spec_remove_from(v@, pat@, start as int),
            done ==> spec_remove(v@, pat@) == r@,
        decreases v@.len() - start + (if done { 0int } else { 1int }),
    {
        match find_from(v, pat, start) {
            Some(i) => {
                let piece = subvec(v, start, i);
                append_all(&mut r, &piece);
                proof {
                    assert(spec_remove_from(v@, pat@, start as int) =~= v@.subrange(
                        start as int,
                        i as int,
                    ) + spec_remove_from(v@, pat@, i + pat@.len() as int));
                    assert(spec_remove(v@, pat@) =~= r@ + spec_remove_from(
                        v@,
                        pat@,
                        i + pat@.len() as int,
                    ));
                }
                let vn: usize = v.len();
                assert(i + pat@.len() <= vn);
                start = i + pat.len();
            },
            None => {
                let piece = subvec(v, start, v.len());
                append_all(&mut r, &piece);
                proof {
                    assert(spec_remove_from(v@, pat@, start as int) =~= v@.subrange(
                        start as int,
                        v@.len() as int,
                    ));
                    assert(spec_remove(v@, pat@) =~= r@);
                }
                done = true;
            },
        }
    }
    r
}

/// Splitting always yields at least one piece.
pub proof fn lemma_split_nonempty(s: Seq<char>, pat: Seq<char>, start: int)
    ensures
        spec_split_from(s, pat, start).len() >= 1,
{
    match spec_find(s, pat, start) {
        Some(i) => {},
        None => {},
    }
}

/// When `pat` occurs nowhere in `s`, removal keeps `s` unchanged.
pub proof fn lemma_remove_absent(s: Seq<char>, pat: Seq<char>)
    requires
        forall|j: int| j >= 0 ==> !match_at(s, pat, j),
    ensures
        spec_remove(s, pat) == s,
{
    lemma_find_absent(s, pat, 0);
    assert(spec_remove_from(s, pat, 0) =~= s.subrange(0, s.len() as int));
    assert(s.subrange(0, s.len() as int) =~= s);
}

} // verus!
