//! The wildcard exclude matcher and the exclude-pattern parser. A pattern
//! is split on `*`; literal segments must appear in the path in order, the
//! first anchored at the start and the last at the end unless the pattern
//! opens or closes with `*`.

use vstd::prelude::*;

verus! {

use vstd::string::StrSliceExecFns;
use crate::strutil::{
    occurs_at, is_substring_of, is_prefix_of, split_on, split_str, trim_spec, trim_str,
    str_contains, str_starts_with, str_ends_with, str_find_from, lemma_split_on_len,
};

/// Segments `segs[k..]` match the path from consumption point `i` on.
/// An empty segment constrains nothing. When the final segment is anchored
/// at the end, it must close the path after the consumption point; any
/// other segment may sit anywhere at or after it, and what follows is
/// matched beyond the segment's end.
pub open spec fn segs_match_from(
    path: Seq<char>,
    segs: Seq<Seq<char>>,
    k: int,
    i: int,
    anchored_end: bool,
) -> bool
    decreases segs.len() - k,
{
    if k < 0 || k >= segs.len() {
        true
    } else if segs[k].len() == 0 {
        segs_match_from(path, segs, k + 1, i, anchored_end)
    } else if k == segs.len() - 1 && anchored_end {
        i + segs[k].len() <= path.len() && occurs_at(
            path,
            segs[k],
            path.len() - segs[k].len(),
        )
    } else {
        exists|j: int|
            i <= j && occurs_at(path, segs[k], j) && segs_match_from(
                path,
                segs,
                k + 1,
                j + segs[k].len(),
                anchored_end,
            )
    }
}

/// The wildcard match relation. A pattern without `*` matches as a plain
/// substring; otherwise its literal segments must appear in order, with the
/// anchoring described on `segs_match_from`.
pub open spec fn wildcard_match(path: Seq<char>, pattern: Seq<char>) -> bool {
    let segs = split_on(pattern, '*');
    if segs.len() == 1 {
        is_substring_of(path, pattern)
    } else if pattern[0] != '*' {
        is_prefix_of(path, segs[0]) && segs_match_from(
            path,
            segs,
            1,
            segs[0].len() as int,
            pattern.last() != '*',
        )
    } else {
        segs_match_from(path, segs, 0, 0, pattern.last() != '*')
    }
}

/// Matching only gets easier from an earlier consumption point.
proof fn lemma_segs_match_mono(
    path: Seq<char>,
    segs: Seq<Seq<char>>,
    k: int,
    i: int,
    i2: int,
    anchored_end: bool,
)
    requires
        i2 <= i,
        segs_match_from(path, segs, k, i, anchored_end),
    ensures
        segs_match_from(path, segs, k, i2, anchored_end),
    decreases segs.len() - k,
{
    if k < 0 || k >= segs.len() {
    } else if segs[k].len() == 0 {
        lemma_segs_match_mono(path, segs, k + 1, i, i2, anchored_end);
    } else if k == segs.len() - 1 && anchored_end {
    } else {
        let j = choose|j: int|
            i <= j && occurs_at(path, segs[k], j) && segs_match_from(
                path,
                segs,
                k + 1,
                j + segs[k].len(),
                anchored_end,
            );
        assert(i2 <= j && occurs_at(path, segs[k], j) && segs_match_from(
            path,
            segs,
            k + 1,
            j + segs[k].len(),
            anchored_end,
        ));
    }
}

/// Whether `path` matches the wildcard `pattern`. `*` stands for any run
/// of characters; matching is case-sensitive.
pub fn matches_wildcard_pattern(path: &str, pattern: &str) -> (r: bool)
    ensures
        r == wildcard_match(path@, pattern@),
{
    let parts = split_str(pattern, '*');
    let ghost gsegs = split_on(pattern@, '*');
    proof {
        lemma_split_on_len(pattern@, '*');
    }
    if parts.len() == 1 {
        return str_contains(path, pattern);
    }
    let path_len = path.unicode_len();
    let pattern_len = pattern.unicode_len();
    assert(pattern@.len() > 0) by {
        if pattern@.len() == 0 {
            assert(gsegs.len() == 1);
        }
    }
    let anchored_end = pattern.get_char(pattern_len - 1) != '*';
    let mut k: usize;
    let mut cur: usize;
    if pattern.get_char(0) != '*' {
        assert(gsegs[0] == parts@[0]@);
        if !str_starts_with(path, parts[0].as_str()) {
            return false;
        }
        k = 1;
        cur = parts[0].as_str().unicode_len();
    } else {
        k = 0;
        cur = 0;
    }
    while k < parts.len()
        invariant
            k <= parts.len(),
            cur <= path_len,
            path_len == path@.len(),
            gsegs == split_on(pattern@, '*'),
            parts.deep_view() == gsegs,
            gsegs.len() >= 2,
            pattern@.len() > 0,
            anchored_end == (pattern@.last() != '*'),
            wildcard_match(path@, pattern@) == segs_match_from(
                path@,
                gsegs,
                k as int,
                cur as int,
                anchored_end,
            ),
        decreases parts.len() - k,
    {
        let seg = &parts[k];
        assert(gsegs[k as int] == parts@[k as int]@);
        let seg_len = seg.as_str().unicode_len();
        if seg_len == 0 {
            k = k + 1;
        } else if k == parts.len() - 1 && anchored_end {
            let fits = seg_len <= path_len - cur;
            let ok = fits && str_ends_with(path, seg.as_str());
            return ok;
        } else {
            match str_find_from(path, seg.as_str(), cur) {
                None => {
                    // No occurrence at or after the consumption point, so
                    // no witness can satisfy the segment relation.
                    assert(!segs_match_from(path@, gsegs, k as int, cur as int, anchored_end));
                    return false;
                },
                Some(j) => {
                    proof {
                        let g = gsegs[k as int];
                        let next = j + g.len();
                        if segs_match_from(path@, gsegs, k as int, cur as int, anchored_end) {
                            let w = choose|w: int|
                                cur <= w && occurs_at(path@, g, w) && segs_match_from(
                                    path@,
                                    gsegs,
                                    k + 1,
                                    w + g.len(),
                                    anchored_end,
                                );
                            assert(j <= w);
                            lemma_segs_match_mono(
                                path@,
                                gsegs,
                                k + 1,
                                w + g.len(),
                                next as int,
                                anchored_end,
                            );
                        }
                        if segs_match_from(path@, gsegs, k + 1, next as int, anchored_end) {
                            assert(cur <= j as int && occurs_at(path@, g, j as int)
                                && segs_match_from(path@, gsegs, k + 1, j + g.len(), anchored_end));
                        }
                    }
                    k = k + 1;
                    cur = j + seg_len;
                },
            }
        }
    }
    true
}

/// The trimmed, non-empty pieces of a piece list, in order.
pub open spec fn trimmed_nonempty(pieces: Seq<Seq<char>>) -> Seq<Seq<char>>
    decreases pieces.len(),
{
    if pieces.len() == 0 {
        Seq::<Seq<char>>::empty()
    } else {
        let rest = trimmed_nonempty(pieces.drop_last());
        if trim_spec(pieces.last()).len() == 0 {
            rest
        } else {
            rest.push(trim_spec(pieces.last()))
        }
    }
}

/// What the exclude string parses to: its comma-separated pieces, each
/// trimmed, with empty pieces discarded; the empty string parses to
/// nothing.
pub open spec fn parse_patterns_spec(s: Seq<char>) -> Seq<Seq<char>> {
    if s.len() == 0 {
        Seq::<Seq<char>>::empty()
    } else {
        trimmed_nonempty(split_on(s, ','))
    }
}

/// Splits a comma-separated exclude string into trimmed, non-empty
/// patterns.
pub fn parse_exclude_patterns(exclude_paths: &str) -> (r: Vec<String>)
    ensures
        r.deep_view() == parse_patterns_spec(exclude_paths@),
{
    let mut out: Vec<String> = Vec::new();
    if exclude_paths.unicode_len() == 0 {
        return out;
    }
    let pieces = split_str(exclude_paths, ',');
    let ghost gpieces = split_on(exclude_paths@, ',');
    let mut i: usize = 0;
    while i < pieces.len()
        invariant
            i <= pieces.len(),
            gpieces == split_on(exclude_paths@, ','),
            pieces.deep_view() == gpieces,
            out.deep_view() == trimmed_nonempty(gpieces.subrange(0, i as int)),
        decreases pieces.len() - i,
    {
        assert(gpieces[i as int] == pieces@[i as int]@);
        let t = trim_str(pieces[i].as_str());
        let ghost before = out.deep_view();
        if t.as_str().unicode_len() > 0 {
            out.push(t);
            proof {
                assert(out.deep_view() =~= before.push(trim_spec(gpieces[i as int]))) by {
                    assert(forall|w: int|
                        0 <= w < out.deep_view().len() ==> out.deep_view()[w] == out@[w]@);
                }
            }
        }
        proof {
            let pre = gpieces.subrange(0, i as int);
            let post = gpieces.subrange(0, i + 1);
            assert(post.drop_last() =~= pre);
            assert(post.last() == gpieces[i as int]);
        }
        i = i + 1;
    }
    proof {
        assert(gpieces.subrange(0, gpieces.len() as int) =~= gpieces);
    }
    out
}

/// Whether some pattern in `exclude_patterns` matches `path`.
pub fn should_exclude_path(path: &str, exclude_patterns: &Vec<String>) -> (r: bool)
    ensures
        r == exists|i: int|
            0 <= i < exclude_patterns.deep_view().len() && wildcard_match(
                path@,
                exclude_patterns.deep_view()[i],
            ),
{
    let mut i: usize = 0;
    while i < exclude_patterns.len()
        invariant
            i <= exclude_patterns.len(),
            forall|j: int|
                0 <= j < i ==> !wildcard_match(path@, exclude_patterns.deep_view()[j]),
        decreases exclude_patterns.len() - i,
    {
        assert(exclude_patterns.deep_view()[i as int] == exclude_patterns@[i as int]@);
        if matches_wildcard_pattern(path, exclude_patterns[i].as_str()) {
            return true;
        }
        i = i + 1;
    }
    false
}

} // verus!

verus! {

/// A single `*` matches every path.
pub proof fn lemma_star_matches_every_path(path: Seq<char>)
    ensures
        wildcard_match(path, "*"@),
{
    reveal_strlit("*");
    let pat = "*"@;
    assert(pat =~= seq!['*']);
    let segs = split_on(pat, '*');
    assert(pat.drop_first() =~= Seq::<char>::empty());
    assert(split_on(Seq::<char>::empty(), '*') =~= seq![Seq::<char>::empty()]);
    assert(pat[0] == '*');
    assert(segs =~~= seq![Seq::<char>::empty(), Seq::<char>::empty()]);
    assert(segs_match_from(path, segs, 2, 0, false));
    assert(segs_match_from(path, segs, 1, 0, false));
    assert(segs_match_from(path, segs, 0, 0, false));
    assert(pat.last() == '*');
}

/// The empty pattern matches every path: the empty string is a substring
/// of every string.
pub proof fn lemma_empty_pattern_matches_every_path(path: Seq<char>)
    ensures
        wildcard_match(path, Seq::<char>::empty()),
{
    let segs = split_on(Seq::<char>::empty(), '*');
    assert(segs.len() == 1);
    assert(occurs_at(path, Seq::<char>::empty(), 0)) by {
        assert(path.subrange(0, 0) =~= Seq::<char>::empty());
    }
}

/// Splitting a string without the separator yields the string alone.
proof fn lemma_split_no_sep(s: Seq<char>, sep: char)
    requires
        forall|i: int| 0 <= i < s.len() ==> s[i] != sep,
    ensures
        split_on(s, sep) == seq![s],
    decreases s.len(),
{
    if s.len() > 0 {
        let t = s.drop_first();
        lemma_split_no_sep(t, sep);
        assert(seq![s[0]] + split_on(t, sep)[0] =~= s);
        assert(split_on(s, sep) =~= seq![s]);
    } else {
        assert(s =~= Seq::<char>::empty());
        assert(split_on(s, sep) =~= seq![s]);
    }
}

/// A pattern without `*` that is equal to the path matches that path:
/// every string contains itself.
pub proof fn lemma_pattern_equal_to_path_matches(path: Seq<char>)
    requires
        forall|i: int| 0 <= i < path.len() ==> path[i] != '*',
    ensures
        wildcard_match(path, path),
{
    lemma_split_no_sep(path, '*');
    assert(occurs_at(path, path, 0)) by {
        assert(path.subrange(0, path.len() as int) =~= path);
    }
}

} // verus!

verus! {

use crate::strutil::{strip_leading, strip_trailing, is_space_char};

/// The pieces joined back into one string with `sep` between them.
pub open spec fn join_with(pieces: Seq<Seq<char>>, sep: char) -> Seq<char>
    decreases pieces.len(),
{
    if pieces.len() == 0 {
        Seq::<char>::empty()
    } else if pieces.len() == 1 {
        pieces[0]
    } else {
        join_with(pieces.drop_last(), sep) + seq![sep] + pieces.last()
    }
}

/// No piece of a split contains the separator.
proof fn lemma_split_pieces_no_sep(s: Seq<char>, sep: char)
    ensures
        forall|p: int, q: int|
            #![trigger split_on(s, sep)[p][q]]
            0 <= p < split_on(s, sep).len() && 0 <= q < split_on(s, sep)[p].len() ==> split_on(
                s,
                sep,
            )[p][q] != sep,
    decreases s.len(),
{
    if s.len() == 0 {
    } else {
        let t = s.drop_first();
        lemma_split_pieces_no_sep(t, sep);
        let rest = split_on(t, sep);
        crate::strutil::lemma_split_on_len(t, sep);
        if s[0] == sep {
            assert forall|p: int, q: int|
                0 <= p < split_on(s, sep).len() && 0 <= q < split_on(s, sep)[p].len()
                implies split_on(s, sep)[p][q] != sep by {
                if p > 0 {
                    assert(split_on(s, sep)[p] == rest[p - 1]);
                }
            }
        } else {
            assert forall|p: int, q: int|
                0 <= p < split_on(s, sep).len() && 0 <= q < split_on(s, sep)[p].len()
                implies split_on(s, sep)[p][q] != sep by {
                if p == 0 {
                    let piece = seq![s[0]] + rest[0];
                    assert(split_on(s, sep)[0] == piece);
                    if q > 0 {
                        assert(piece[q] == rest[0][q - 1]);
                    }
                } else {
                    assert(split_on(s, sep)[p] == rest.drop_first()[p - 1]);
                    assert(rest.drop_first()[p - 1] == rest[p]);
                }
            }
        }
    }
}

proof fn lemma_strip_leading_no_sep(s: Seq<char>, sep: char)
    requires
        forall|q: int| 0 <= q < s.len() ==> s[q] != sep,
    ensures
        forall|q: int| 0 <= q < strip_leading(s).len() ==> strip_leading(s)[q] != sep,
    decreases s.len(),
{
    if s.len() > 0 && is_space_char(s[0]) {
        assert forall|q: int| 0 <= q < s.drop_first().len() implies s.drop_first()[q] != sep by {
            assert(s[q + 1] != sep);
        }
        lemma_strip_leading_no_sep(s.drop_first(), sep);
        assert(strip_leading(s) == strip_leading(s.drop_first()));
    } else {
        assert forall|q: int| 0 <= q < strip_leading(s).len() implies strip_leading(s)[q] != sep by {
            assert(strip_leading(s) == s);
            assert(s[q] != sep);
        }
    }
}

proof fn lemma_strip_trailing_no_sep(s: Seq<char>, sep: char)
    requires
        forall|q: int| 0 <= q < s.len() ==> s[q] != sep,
    ensures
        forall|q: int| 0 <= q < strip_trailing(s).len() ==> strip_trailing(s)[q] != sep,
    decreases s.len(),
{
    if s.len() > 0 && is_space_char(s.last()) {
        assert forall|q: int| 0 <= q < s.drop_last().len() implies s.drop_last()[q] != sep by {
            assert(s[q] != sep);
        }
        lemma_strip_trailing_no_sep(s.drop_last(), sep);
        assert(strip_trailing(s) == strip_trailing(s.drop_last()));
    } else {
        assert forall|q: int| 0 <= q < strip_trailing(s).len() implies strip_trailing(s)[q] != sep
            by {
            assert(strip_trailing(s) == s);
            assert(s[q] != sep);
        }
    }
}

/// After stripping, the first character is no longer whitespace.
proof fn lemma_strip_leading_head(s: Seq<char>)
    ensures
        strip_leading(s).len() == 0 || !is_space_char(strip_leading(s)[0]),
    decreases s.len(),
{
    if s.len() > 0 && is_space_char(s[0]) {
        lemma_strip_leading_head(s.drop_first());
    }
}

/// After stripping, the last character is no longer whitespace.
proof fn lemma_strip_trailing_last(s: Seq<char>)
    ensures
        strip_trailing(s).len() == 0 || !is_space_char(strip_trailing(s).last()),
    decreases s.len(),
{
    if s.len() > 0 && is_space_char(s.last()) {
        lemma_strip_trailing_last(s.drop_last());
    }
}

/// Stripping from the right leaves a prefix of the input.
proof fn lemma_strip_trailing_prefix(s: Seq<char>)
    ensures
        strip_trailing(s).len() <= s.len(),
        strip_trailing(s) == s.subrange(0, strip_trailing(s).len() as int),
    decreases s.len(),
{
    if s.len() > 0 && is_space_char(s.last()) {
        let t = s.drop_last();
        lemma_strip_trailing_prefix(t);
        assert(t.subrange(0, strip_trailing(t).len() as int) =~= s.subrange(
            0,
            strip_trailing(t).len() as int,
        ));
    } else {
        assert(s.subrange(0, s.len() as int) =~= s);
    }
}

/// Trimming is idempotent.
pub proof fn lemma_trim_idempotent(s: Seq<char>)
    ensures
        trim_spec(trim_spec(s)) == trim_spec(s),
{
    let u = strip_leading(s);
    let t = strip_trailing(u);
    lemma_strip_leading_head(s);
    lemma_strip_trailing_last(s);
    lemma_strip_trailing_prefix(u);
    lemma_strip_trailing_last(u);
    if t.len() == 0 {
    } else {
        assert(t[0] == u[0]) by {
            assert(t == u.subrange(0, t.len() as int));
        }
        assert(!is_space_char(t[0]));
        assert(strip_leading(t) == t);
        assert(!is_space_char(t.last()));
        assert(strip_trailing(t) == t);
    }
}

/// A piece list of trimmed, non-empty pieces is its own parse.
proof fn lemma_trimmed_nonempty_fixed(pieces: Seq<Seq<char>>)
    requires
        forall|p: int|
            #![trigger pieces[p]]
            0 <= p < pieces.len() ==> trim_spec(pieces[p]) == pieces[p] && pieces[p].len() > 0,
    ensures
        trimmed_nonempty(pieces) == pieces,
    decreases pieces.len(),
{
    if pieces.len() > 0 {
        lemma_trimmed_nonempty_fixed(pieces.drop_last());
        assert(trim_spec(pieces.last()) == pieces.last());
        assert(trimmed_nonempty(pieces) =~= pieces.drop_last().push(pieces.last()));
        assert(pieces.drop_last().push(pieces.last()) =~= pieces);
    }
}

/// Splitting `a`, a separator, then separator-free `b` splits `a` and
/// appends `b` as one more piece.
proof fn lemma_split_join_append(a: Seq<char>, b: Seq<char>, sep: char)
    requires
        forall|q: int| 0 <= q < b.len() ==> b[q] != sep,
    ensures
        split_on(a + seq![sep] + b, sep) == split_on(a, sep).push(b),
    decreases b.len(),
{
    crate::strutil::lemma_split_on_len(a, sep);
    if b.len() == 0 {
        assert(a + seq![sep] + b =~= a.push(sep));
        crate::strutil::lemma_split_on_push(a, sep, sep);
        assert(b =~= Seq::<char>::empty());
        assert(split_on(a, sep).push(Seq::<char>::empty()) =~= split_on(a, sep).push(b));
    } else {
        let bp = b.drop_last();
        let c = b.last();
        lemma_split_join_append(a, bp, sep);
        assert(a + seq![sep] + b =~= (a + seq![sep] + bp).push(c));
        crate::strutil::lemma_split_on_push(a + seq![sep] + bp, c, sep);
        let prev = split_on(a, sep).push(bp);
        assert(split_on((a + seq![sep] + bp).push(c), sep) == prev.update(
            prev.len() - 1,
            prev.last().push(c),
        ));
        assert(prev.last() == bp);
        assert(bp.push(c) =~= b);
        assert(prev.update(prev.len() - 1, b) =~= split_on(a, sep).push(b));
    }
}

/// Splitting the join of separator-free pieces gives the pieces back.
proof fn lemma_split_of_join(pieces: Seq<Seq<char>>, sep: char)
    requires
        pieces.len() >= 1,
        forall|p: int, q: int|
            #![trigger pieces[p][q]]
            0 <= p < pieces.len() && 0 <= q < pieces[p].len() ==> pieces[p][q] != sep,
    ensures
        split_on(join_with(pieces, sep), sep) == pieces,
    decreases pieces.len(),
{
    if pieces.len() == 1 {
        lemma_split_no_sep(pieces[0], sep);
        assert(split_on(join_with(pieces, sep), sep) =~= pieces);
    } else {
        let front = pieces.drop_last();
        lemma_split_of_join(front, sep);
        lemma_split_join_append(join_with(front, sep), pieces.last(), sep);
        assert(front.push(pieces.last()) =~= pieces);
    }
}

/// Every parsed pattern is non-empty, already trimmed, and free of the
/// separating comma.
proof fn lemma_trimmed_outputs(pieces: Seq<Seq<char>>)
    requires
        forall|p: int, q: int|
            #![trigger pieces[p][q]]
            0 <= p < pieces.len() && 0 <= q < pieces[p].len() ==> pieces[p][q] != ',',
    ensures
        forall|p: int|
            #![trigger trimmed_nonempty(pieces)[p]]
            0 <= p < trimmed_nonempty(pieces).len() ==> {
                let out = trimmed_nonempty(pieces)[p];
                out.len() > 0 && trim_spec(out) == out && forall|q: int|
                    0 <= q < out.len() ==> out[q] != ','
            },
    decreases pieces.len(),
{
    if pieces.len() > 0 {
        let front = pieces.drop_last();
        lemma_trimmed_outputs(front);
        let last = pieces.last();
        lemma_trim_idempotent(last);
        lemma_strip_leading_no_sep(last, ',');
        lemma_strip_trailing_no_sep(strip_leading(last), ',');
        let rest = trimmed_nonempty(front);
        assert forall|p: int|
            #![trigger trimmed_nonempty(pieces)[p]]
            0 <= p < trimmed_nonempty(pieces).len() implies {
            let out = trimmed_nonempty(pieces)[p];
            out.len() > 0 && trim_spec(out) == out && forall|q: int|
                0 <= q < out.len() ==> out[q] != ','
        } by {
            if p < rest.len() {
                assert(trimmed_nonempty(pieces)[p] == rest[p]);
            } else {
                assert(trim_spec(last).len() > 0);
                assert(trimmed_nonempty(pieces)[p] == trim_spec(last));
            }
        }
    }
}

/// Joined non-empty pieces are a non-empty string.
proof fn lemma_join_nonempty(pieces: Seq<Seq<char>>, sep: char)
    requires
        pieces.len() >= 1,
        pieces.last().len() > 0,
    ensures
        join_with(pieces, sep).len() > 0,
{
}

/// Parsing is idempotent: re-parsing the comma-join of a parse yields the
/// same pattern list.
pub proof fn lemma_parse_exclude_patterns_idempotent(s: Seq<char>)
    ensures
        parse_patterns_spec(join_with(parse_patterns_spec(s), ',')) == parse_patterns_spec(s),
{
    let ps = parse_patterns_spec(s);
    if ps.len() == 0 {
    } else {
        assert(s.len() > 0);
        lemma_split_pieces_no_sep(s, ',');
        lemma_trimmed_outputs(split_on(s, ','));
        assert(ps == trimmed_nonempty(split_on(s, ',')));
        assert forall|p: int, q: int|
            #![trigger ps[p][q]]
            0 <= p < ps.len() && 0 <= q < ps[p].len() implies ps[p][q] != ',' by {
            assert(ps[p].len() > 0 && trim_spec(ps[p]) == ps[p]);
        }
        assert(ps.last().len() > 0);
        lemma_join_nonempty(ps, ',');
        let j = join_with(ps, ',');
        lemma_split_of_join(ps, ',');
        assert(parse_patterns_spec(j) == trimmed_nonempty(ps));
        lemma_trimmed_nonempty_fixed(ps);
    }
}

} // verus!
