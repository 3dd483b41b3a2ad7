//! Verified building blocks for working with strings as sequences of
//! characters: equality, substring search, prefix/suffix tests, and
//! splitting on a separator character.

use vstd::prelude::*;

verus! {

use vstd::string::StrSliceExecFns;

/// `p` occurs in `s` starting at index `i`.
pub open spec fn occurs_at(s: Seq<char>, p: Seq<char>, i: int) -> bool {
    0 <= i && i + p.len() <= s.len() && s.subrange(i, i + p.len() as int) == p
}

/// `p` occurs somewhere in `s`.
pub open spec fn is_substring_of(s: Seq<char>, p: Seq<char>) -> bool {
    exists|i: int| occurs_at(s, p, i)
}

pub open spec fn is_prefix_of(s: Seq<char>, p: Seq<char>) -> bool {
    p.len() <= s.len() && s.subrange(0, p.len() as int) == p
}

pub open spec fn is_suffix_of(s: Seq<char>, p: Seq<char>) -> bool {
    p.len() <= s.len() && s.subrange(s.len() - p.len(), s.len() as int) == p
}

/// Character-for-character equality of two string slices.
pub fn str_eq(a: &str, b: &str) -> (r: bool)
    ensures
        r == (a@ == b@),
{
    let a_len = a.unicode_len();
    let b_len = b.unicode_len();
    if a_len != b_len {
        assert(a@ != b@);
        return false;
    }
    let mut i: usize = 0;
    while i < a_len
        invariant
            i <= a_len,
            a_len == a@.len(),
            a_len == b@.len(),
            forall|j: int| 0 <= j < i ==> a@[j] == b@[j],
        decreases a_len - i,
    {
        if a.get_char(i) != b.get_char(i) {
            return false;
        }
        i = i + 1;
    }
    assert(a@ =~= b@);
    true
}

/// Whether `s` begins with `p`.
pub fn str_starts_with(s: &str, p: &str) -> (r: bool)
    ensures
        r == is_prefix_of(s@, p@),
{
    let s_len = s.unicode_len();
    let p_len = p.unicode_len();
    if p_len > s_len {
        return false;
    }
    let mut i: usize = 0;
    while i < p_len
        invariant
            i <= p_len,
            p_len == p@.len(),
            s_len == s@.len(),
            p_len <= s_len,
            forall|j: int| 0 <= j < i ==> s@[j] == p@[j],
        decreases p_len - i,
    {
        if s.get_char(i) != p.get_char(i) {
            assert(!is_prefix_of(s@, p@)) by {
                assert(s@.subrange(0, p@.len() as int)[i as int] == s@[i as int]);
            }
            return false;
        }
        i = i + 1;
    }
    assert(s@.subrange(0, p@.len() as int) =~= p@);
    true
}

/// Whether `s` ends with `p`.
pub fn str_ends_with(s: &str, p: &str) -> (r: bool)
    ensures
        r == is_suffix_of(s@, p@),
{
    let s_len = s.unicode_len();
    let p_len = p.unicode_len();
    if p_len > s_len {
        return false;
    }
    let off: usize = s_len - p_len;
    let mut i: usize = 0;
    while i < p_len
        invariant
            i <= p_len,
            p_len == p@.len(),
            s_len == s@.len(),
            off == s_len - p_len,
            forall|j: int| 0 <= j < i ==> s@[off + j] == p@[j],
        decreases p_len - i,
    {
        if s.get_char(off + i) != p.get_char(i) {
            assert(!is_suffix_of(s@, p@)) by {
                assert(s@.subrange(s@.len() - p@.len(), s@.len() as int)[i as int]
                    == s@[off + i]);
            }
            return false;
        }
        i = i + 1;
    }
    assert(s@.subrange(s@.len() - p@.len(), s@.len() as int) =~= p@);
    true
}

/// Whether `p` occurs in `s` starting exactly at index `at`.
fn occurs_here(s: &str, p: &str, at: usize) -> (r: bool)
    requires
        at + p@.len() <= s@.len(),
    ensures
        r == occurs_at(s@, p@, at as int),
{
    let s_len = s.unicode_len();
    let p_len = p.unicode_len();
    let mut i: usize = 0;
    while i < p_len
        invariant
            i <= p_len,
            p_len == p@.len(),
            s_len == s@.len(),
            at + p_len <= s_len,
            forall|j: int| 0 <= j < i ==> s@[at + j] == p@[j],
        decreases p_len - i,
    {
        if s.get_char(at + i) != p.get_char(i) {
            assert(!occurs_at(s@, p@, at as int)) by {
                assert(s@.subrange(at as int, at + p@.len() as int)[i as int]
                    == s@[at + i]);
            }
            return false;
        }
        i = i + 1;
    }
    assert(s@.subrange(at as int, at + p@.len() as int) =~= p@);
    true
}

/// Leftmost occurrence of `p` in `s` at an index `>= start`, if any.
pub fn str_find_from(s: &str, p: &str, start: usize) -> (r: Option<usize>)
    requires
        start <= s@.len(),
    ensures
        match r {
            Some(j) => start <= j && occurs_at(s@, p@, j as int)
                && forall|k: int| start <= k < j ==> !occurs_at(s@, p@, k),
            None => forall|k: int| start <= k ==> !occurs_at(s@, p@, k),
        },
{
    let s_len = s.unicode_len();
    let p_len = p.unicode_len();
    if p_len > s_len || start > s_len - p_len {
        assert(forall|k: int| start <= k ==> !occurs_at(s@, p@, k));
        return None;
    }
    let last: usize = s_len - p_len;
    let mut j: usize = start;
    while j < last
        invariant
            start <= j <= last,
            last == s@.len() - p@.len(),
            s_len == s@.len(),
            p_len == p@.len(),
            forall|k: int| start <= k < j ==> !occurs_at(s@, p@, k),
        decreases last - j,
    {
        if occurs_here(s, p, j) {
            return Some(j);
        }
        j = j + 1;
    }
    if occurs_here(s, p, last) {
        return Some(last);
    }
    assert(forall|k: int| start <= k ==> !occurs_at(s@, p@, k)) by {
        assert(forall|k: int| k > last ==> !occurs_at(s@, p@, k));
    }
    None
}

/// Whether `p` occurs anywhere in `s`.
pub fn str_contains(s: &str, p: &str) -> (r: bool)
    ensures
        r == is_substring_of(s@, p@),
{
    match str_find_from(s, p, 0) {
        Some(_) => true,
        None => {
            assert(forall|k: int| !occurs_at(s@, p@, k)) by {
                assert(forall|k: int| k < 0 ==> !occurs_at(s@, p@, k));
            }
            false
        },
    }
}

} // verus!

verus! {

/// The pieces of `s` between occurrences of `sep`; always at least one piece.
pub open spec fn split_on(s: Seq<char>, sep: char) -> Seq<Seq<char>>
    decreases s.len(),
{
    if s.len() == 0 {
        seq![Seq::<char>::empty()]
    } else if s[0] == sep {
        seq![Seq::<char>::empty()] + split_on(s.drop_first(), sep)
    } else {
        let rest = split_on(s.drop_first(), sep);
        seq![seq![s[0]] + rest[0]] + rest.drop_first()
    }
}

pub proof fn lemma_split_on_len(s: Seq<char>, sep: char)
    ensures
        split_on(s, sep).len() >= 1,
    decreases s.len(),
{
    if s.len() != 0 {
        lemma_split_on_len(s.drop_first(), sep);
    }
}

/// Extending the input by one character extends the last piece, or starts a
/// fresh empty piece when the character is the separator.
pub proof fn lemma_split_on_push(s: Seq<char>, c: char, sep: char)
    ensures
        c == sep ==> split_on(s.push(c), sep) == split_on(s, sep).push(Seq::<char>::empty()),
        c != sep ==> split_on(s.push(c), sep) == split_on(s, sep).update(
            split_on(s, sep).len() - 1,
            split_on(s, sep).last().push(c),
        ),
    decreases s.len(),
{
    lemma_split_on_len(s, sep);
    if s.len() == 0 {
        assert(s.push(c).len() == 1);
        assert(s.push(c)[0] == c);
        assert(s.push(c).drop_first() =~= Seq::<char>::empty());
        assert(s =~= Seq::<char>::empty());
        if c == sep {
            assert(split_on(s.push(c), sep) =~~= split_on(s, sep).push(Seq::<char>::empty()));
        } else {
            assert(seq![s.push(c)[0]] + split_on(s.push(c).drop_first(), sep)[0] =~= seq![c]);
            assert(split_on(s.push(c), sep) =~= split_on(s, sep).update(
                0,
                split_on(s, sep).last().push(c),
            ));
        }
    } else {
        let t = s.drop_first();
        assert(s.push(c).drop_first() =~= t.push(c));
        lemma_split_on_push(t, c, sep);
        lemma_split_on_len(t, sep);
        let restp = split_on(t.push(c), sep);
        let rest = split_on(t, sep);
        if c == sep {
            if s[0] == sep {
                assert(split_on(s.push(c), sep) =~= seq![Seq::<char>::empty()] + restp);
                assert(seq![Seq::<char>::empty()] + rest.push(Seq::<char>::empty())
                    =~= (seq![Seq::<char>::empty()] + rest).push(Seq::<char>::empty()));
            } else {
                assert(restp[0] == rest[0]);
                assert(restp.drop_first() =~= rest.drop_first().push(Seq::<char>::empty()));
                assert(split_on(s.push(c), sep)
                    =~= (seq![seq![s[0]] + rest[0]] + rest.drop_first()).push(Seq::<char>::empty()));
            }
        } else {
            if s[0] == sep {
                assert(restp =~= rest.update(rest.len() - 1, rest.last().push(c)));
                assert(split_on(s.push(c), sep) =~= seq![Seq::<char>::empty()] + restp);
                assert(seq![Seq::<char>::empty()] + restp
                    =~= (seq![Seq::<char>::empty()] + rest).update(
                        (seq![Seq::<char>::empty()] + rest).len() - 1,
                        (seq![Seq::<char>::empty()] + rest).last().push(c),
                    ));
            } else {
                if rest.len() == 1 {
                    assert(restp[0] == rest[0].push(c));
                    assert(restp.drop_first() =~= rest.drop_first());
                    assert(seq![seq![s.push(c)[0]] + restp[0]] + restp.drop_first()
                        =~= (seq![seq![s[0]] + rest[0]] + rest.drop_first()).update(
                            rest.len() - 1 + 1 - 1,
                            (seq![seq![s[0]] + rest[0]] + rest.drop_first()).last().push(c),
                        ));
                } else {
                    assert(restp[0] == rest[0]);
                    assert(restp.drop_first() =~= rest.drop_first().update(
                        rest.drop_first().len() - 1,
                        rest.drop_first().last().push(c),
                    ));
                    assert(seq![seq![s.push(c)[0]] + restp[0]] + restp.drop_first()
                        =~= (seq![seq![s[0]] + rest[0]] + rest.drop_first()).update(
                            (seq![seq![s[0]] + rest[0]] + rest.drop_first()).len() - 1,
                            (seq![seq![s[0]] + rest[0]] + rest.drop_first()).last().push(c),
                        ));
                }
            }
        }
    }
}

/// Splits `s` on every occurrence of `sep`, keeping empty pieces.
pub fn split_str(s: &str, sep: char) -> (r: Vec<String>)
    ensures
        r.deep_view() == split_on(s@, sep),
{
    let len = s.unicode_len();
    let mut out: Vec<String> = Vec::new();
    let mut st: usize = 0;
    let mut i: usize = 0;
    proof {
        assert(s@.subrange(0, 0) =~= Seq::<char>::empty());
    }
    while i < len
        invariant
            st <= i <= len,
            len == s@.len(),
            out.deep_view().push(s@.subrange(st as int, i as int))
                == split_on(s@.subrange(0, i as int), sep),
        decreases len - i,
    {
        let c = s.get_char(i);
        proof {
            lemma_split_on_push(s@.subrange(0, i as int), s@[i as int], sep);
            assert(s@.subrange(0, i + 1) =~= s@.subrange(0, i as int).push(s@[i as int]));
            lemma_split_on_len(s@.subrange(0, i as int), sep);
        }
        if c == sep {
            let piece = s.substring_char(st, i).to_owned();
            out.push(piece);
            st = i + 1;
            proof {
                assert(s@.subrange(st as int, (i + 1) as int) =~= Seq::<char>::empty());
                assert(out.deep_view().push(s@.subrange(st as int, (i + 1) as int))
                    =~= split_on(s@.subrange(0, i as int), sep).push(Seq::<char>::empty()));
            }
        } else {
            proof {
                let old_split = split_on(s@.subrange(0, i as int), sep);
                assert(old_split.last() == s@.subrange(st as int, i as int));
                assert(s@.subrange(st as int, i + 1) =~= s@.subrange(st as int, i as int).push(
                    s@[i as int],
                ));
                assert(out.deep_view().push(s@.subrange(st as int, (i + 1) as int))
                    =~= old_split.update(old_split.len() - 1, old_split.last().push(s@[i as int])));
            }
        }
        i = i + 1;
    }
    let piece = s.substring_char(st, len).to_owned();
    out.push(piece);
    proof {
        assert(s@.subrange(0, len as int) =~= s@);
        assert(out.deep_view() =~= split_on(s@, sep));
    }
    out
}

} // verus!

verus! {

/// Unicode whitespace, as trimmed from the ends of an exclude pattern:
/// the characters with the White_Space property.
pub open spec fn is_space_char(c: char) -> bool {
    ||| c == ' ' || c == '\t' || c == '\n' || c == '\r' || c == '\u{000B}' || c == '\u{000C}'
    ||| c == '\u{0085}' || c == '\u{00A0}' || c == '\u{1680}'
    ||| ('\u{2000}' <= c && c <= '\u{200A}')
    ||| c == '\u{2028}' || c == '\u{2029}' || c == '\u{202F}' || c == '\u{205F}' || c
        == '\u{3000}'
}

pub open spec fn strip_leading(s: Seq<char>) -> Seq<char>
    decreases s.len(),
{
    if s.len() > 0 && is_space_char(s[0]) {
        strip_leading(s.drop_first())
    } else {
        s
    }
}

pub open spec fn strip_trailing(s: Seq<char>) -> Seq<char>
    decreases s.len(),
{
    if s.len() > 0 && is_space_char(s.last()) {
        strip_trailing(s.drop_last())
    } else {
        s
    }
}

/// `s` with ASCII whitespace removed from both ends.
pub open spec fn trim_spec(s: Seq<char>) -> Seq<char> {
    strip_trailing(strip_leading(s))
}

proof fn lemma_strip_leading_subrange(s: Seq<char>, a: int)
    requires
        0 <= a <= s.len(),
        forall|j: int| 0 <= j < a ==> is_space_char(s[j]),
    ensures
        strip_leading(s) == strip_leading(s.subrange(a, s.len() as int)),
    decreases a,
{
    if a > 0 {
        assert(is_space_char(s[0]));
        assert(s.drop_first() =~= s.subrange(1, s.len() as int));
        let t = s.subrange(1, s.len() as int);
        assert(forall|j: int| 0 <= j < a - 1 ==> is_space_char(t[j]));
        lemma_strip_leading_subrange(t, a - 1);
        assert(t.subrange(a - 1, t.len() as int) =~= s.subrange(a, s.len() as int));
    } else {
        assert(s.subrange(0, s.len() as int) =~= s);
    }
}

proof fn lemma_strip_trailing_subrange(s: Seq<char>, b: int)
    requires
        0 <= b <= s.len(),
        forall|j: int| b <= j < s.len() ==> is_space_char(s[j]),
    ensures
        strip_trailing(s) == strip_trailing(s.subrange(0, b)),
    decreases s.len() - b,
{
    if b < s.len() {
        assert(is_space_char(s.last()));
        assert(s.drop_last() =~= s.subrange(0, s.len() - 1));
        let t = s.subrange(0, s.len() - 1);
        assert(forall|j: int| b <= j < t.len() ==> is_space_char(t[j]));
        lemma_strip_trailing_subrange(t, b);
        assert(t.subrange(0, b) =~= s.subrange(0, b));
    } else {
        assert(s.subrange(0, b) =~= s);
    }
}

fn is_space(c: char) -> (r: bool)
    ensures
        r == is_space_char(c),
{
    (c == ' ' || c == '\t' || c == '\n' || c == '\r' || c == '\u{000B}' || c == '\u{000C}')
        || (c == '\u{0085}' || c == '\u{00A0}' || c == '\u{1680}')
        || ('\u{2000}' <= c && c <= '\u{200A}')
        || (c == '\u{2028}' || c == '\u{2029}' || c == '\u{202F}' || c == '\u{205F}' || c
            == '\u{3000}')
}

/// Removes ASCII whitespace from both ends of `s`.
pub fn trim_str(s: &str) -> (r: String)
    ensures
        r@ == trim_spec(s@),
{
    let len = s.unicode_len();
    let mut a: usize = 0;
    while a < len && is_space(s.get_char(a))
        invariant
            a <= len,
            len == s@.len(),
            forall|j: int| 0 <= j < a ==> is_space_char(s@[j]),
        decreases len - a,
    {
        a = a + 1;
    }
    proof {
        lemma_strip_leading_subrange(s@, a as int);
    }
    if a == len {
        proof {
            assert(s@.subrange(a as int, s@.len() as int) =~= Seq::<char>::empty());
        }
        return String::new();
    }
    // s@[a] is not a space, so strip_leading(s@) == s@[a ..]
    assert(strip_leading(s@) == s@.subrange(a as int, len as int));
    let mut b: usize = len;
    while b > a + 1 && is_space(s.get_char(b - 1))
        invariant
            a < b <= len,
            len == s@.len(),
            forall|j: int| b <= j < len ==> is_space_char(s@[j]),
        decreases b,
    {
        b = b - 1;
    }
    // Either b == a + 1 or s@[b - 1] is not a space.
    let t = s.substring_char(a, b);
    proof {
        let stripped = s@.subrange(a as int, len as int);
        lemma_strip_trailing_subrange(stripped, b - a);
        assert(stripped.subrange(0, b - a) =~= s@.subrange(a as int, b as int));
        if b == a + 1 && is_space_char(s@[b - 1]) {
            // A single remaining space character strips to the empty piece,
            // and the loop above never removes the character at `a`.
            assert(stripped.subrange(0, b - a) =~= seq![s@[a as int]]);
            assert(strip_trailing(stripped.subrange(0, b - a))
                == strip_trailing(seq![s@[a as int]].drop_last()));
            assert(seq![s@[a as int]].drop_last() =~= Seq::<char>::empty());
            assert(false);
        }
    }
    t.to_owned()
}

} // verus!
