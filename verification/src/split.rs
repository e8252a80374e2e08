//! Splitting character sequences on a separator, as `str::split` does.

use vstd::prelude::*;
use crate::text::{chars_of, slice_range, starts_with, starts_with_exec, string_of, trim, trim_bounds};

verus! {

/// The pieces of `s` between occurrences of `c`, as `str::split(c)` yields
/// them: `n` separators give `n + 1` pieces, so an empty string is one empty
/// piece.
pub open spec fn split_char(s: Seq<char>, c: char) -> Seq<Seq<char>>
    decreases s.len(),
{
    if s.len() == 0 {
        seq![Seq::<char>::empty()]
    } else if s[0] == c {
        seq![Seq::<char>::empty()] + split_char(s.drop_first(), c)
    } else {
        let rest = split_char(s.drop_first(), c);
        rest.update(0, seq![s[0]] + rest[0])
    }
}

/// The first index at or after `from` holding `c`, or the length of `s`.
pub open spec fn next_sep(s: Seq<char>, c: char, from: int) -> int
    decreases s.len() - from,
{
    if from >= s.len() {
        s.len() as int
    } else if s[from] == c {
        from
    } else {
        next_sep(s, c, from + 1)
    }
}

pub proof fn lemma_split_nonempty(s: Seq<char>, c: char)
    ensures
        split_char(s, c).len() >= 1,
    decreases s.len(),
{
    if s.len() > 0 {
        lemma_split_nonempty(s.drop_first(), c);
    }
}

pub proof fn lemma_next_sep_bounds(s: Seq<char>, c: char, from: int)
    requires
        0 <= from <= s.len(),
    ensures
        from <= next_sep(s, c, from) <= s.len(),
        forall|k: int| from <= k < next_sep(s, c, from) ==> s[k] != c,
        next_sep(s, c, from) < s.len() ==> s[next_sep(s, c, from)] == c,
    decreases s.len() - from,
{
    if from < s.len() && s[from] != c {
        lemma_next_sep_bounds(s, c, from + 1);
    }
}

/// The pieces of `s[i..]`: the one up to the next separator, then the pieces
/// after it.
pub proof fn lemma_split_from(s: Seq<char>, c: char, i: int)
    requires
        0 <= i <= s.len(),
    ensures
        ({
            let j = next_sep(s, c, i);
            split_char(s.skip(i), c) == if j < s.len() {
                seq![s.subrange(i, j)] + split_char(s.skip(j + 1), c)
            } else {
                seq![s.subrange(i, j)]
            }
        }),
    decreases s.len() - i,
{
    let j = next_sep(s, c, i);
    let t = s.skip(i);
    if i == s.len() {
        assert(t.len() == 0);
        assert(s.subrange(i, j) =~= Seq::<char>::empty());
    } else if s[i] == c {
        assert(t[0] == c);
        assert(t.drop_first() =~= s.skip(i + 1));
        assert(s.subrange(i, j) =~= Seq::<char>::empty());
    } else {
        lemma_split_from(s, c, i + 1);
        lemma_next_sep_bounds(s, c, i + 1);
        assert(t.drop_first() =~= s.skip(i + 1));
        assert(next_sep(s, c, i) == next_sep(s, c, i + 1));
        let rest = split_char(s.skip(i + 1), c);
        lemma_split_nonempty(s.skip(i + 1), c);
        assert(rest[0] == s.subrange(i + 1, j));
        assert(seq![s[i]] + s.subrange(i + 1, j) =~= s.subrange(i, j));
        if j < s.len() {
            assert(rest.update(0, seq![s[i]] + rest[0]) =~= seq![s.subrange(i, j)] + split_char(
                s.skip(j + 1),
                c,
            ));
        } else {
            assert(rest.update(0, seq![s[i]] + rest[0]) =~= seq![s.subrange(i, j)]);
        }
    }
}

/// The first piece (in order) whose trimmed text starts with `prefix`, with
/// the prefix removed: how a cookie value is looked up by `name=`.
pub open spec fn find_trimmed_prefixed(pieces: Seq<Seq<char>>, prefix: Seq<char>) -> Option<Seq<char>>
    decreases pieces.len(),
{
    if pieces.len() == 0 {
        None
    } else if starts_with(trim(pieces[0]), prefix) {
        Some(trim(pieces[0]).skip(prefix.len() as int))
    } else {
        find_trimmed_prefixed(pieces.drop_first(), prefix)
    }
}

/// The index of the next `c` at or after `from`, or the length.
pub fn next_sep_exec(v: &[char], c: char, from: usize) -> (j: usize)
    requires
        from <= v@.len(),
    ensures
        j == next_sep(v@, c, from as int),
{
    proof {
        lemma_next_sep_bounds(v@, c, from as int);
    }
    let mut j = from;
    while j < v.len() && v[j] != c
        invariant
            from <= j <= v@.len(),
            next_sep(v@, c, from as int) == next_sep(v@, c, j as int),
        decreases v@.len() - j,
    {
        j = j + 1;
    }
    j
}

/// Where, in `v`, the value of the first `sep`-separated piece whose trimmed
/// text starts with `prefix` lies.
pub fn find_trimmed_prefixed_exec(v: &[char], sep: char, prefix: &[char]) -> (r: Option<(usize, usize)>)
    ensures
        match r {
            Some((a, b)) => a <= b <= v@.len() && find_trimmed_prefixed(split_char(v@, sep), prefix@)
                == Some(v@.subrange(a as int, b as int)),
            None => find_trimmed_prefixed(split_char(v@, sep), prefix@) is None,
        },
{
    let mut i: usize = 0;
    proof {
        assert(v@.skip(0) =~= v@);
    }
    loop
        invariant
            i <= v@.len(),
            find_trimmed_prefixed(split_char(v@, sep), prefix@) == find_trimmed_prefixed(
                split_char(v@.skip(i as int), sep),
                prefix@,
            ),
        decreases v@.len() - i,
    {
        let j = next_sep_exec(v, sep, i);
        proof {
            lemma_split_from(v@, sep, i as int);
            lemma_next_sep_bounds(v@, sep, i as int);
        }
        let piece = slice_range(v, i, j);
        let (a, b) = trim_bounds(piece.as_slice());
        let tp = slice_range(piece.as_slice(), a, b);
        let ghost pieces = split_char(v@.skip(i as int), sep);
        proof {
            assert(pieces[0] == piece@);
            assert(tp@ == trim(pieces[0]));
        }
        if starts_with_exec(tp.as_slice(), prefix) {
            proof {
                assert(tp@.len() == b - a);
                assert(prefix@.len() <= tp@.len());
                assert(j <= v@.len());
            }
            let start = i + a + prefix.len();
            let end = i + b;
            proof {
                assert(trim(pieces[0]).skip(prefix@.len() as int) =~= v@.subrange(
                    start as int,
                    end as int,
                ));
            }
            return Some((start, end));
        }
        if j >= v.len() {
            proof {
                assert(pieces.drop_first() =~= Seq::<Seq<char>>::empty());
                assert(find_trimmed_prefixed(pieces.drop_first(), prefix@) is None);
                assert(find_trimmed_prefixed(pieces, prefix@) == find_trimmed_prefixed(pieces.drop_first(), prefix@));
            }
            return None;
        }
        proof {
            assert(pieces.drop_first() =~= split_char(v@.skip(j + 1), sep));
            assert(find_trimmed_prefixed(pieces, prefix@) == find_trimmed_prefixed(pieces.drop_first(), prefix@));
        }
        i = j + 1;
    }
}

} // verus!

verus! {

/// `next_sep` stops at the first separator.
pub proof fn lemma_next_sep_at(s: Seq<char>, c: char, k: int, m: int)
    requires
        0 <= k <= m < s.len(),
        s[m] == c,
        forall|i: int| k <= i < m ==> s[i] != c,
    ensures
        next_sep(s, c, k) == m,
    decreases m - k,
{
    if k < m {
        lemma_next_sep_at(s, c, k + 1, m);
    }
}

/// A text without the separator is one piece.
pub proof fn lemma_single_piece(s: Seq<char>, c: char)
    requires
        !s.contains(c),
    ensures
        split_char(s, c) == seq![s],
{
    lemma_split_from(s, c, 0);
    lemma_next_sep_bounds(s, c, 0);
    let j = next_sep(s, c, 0);
    if j < s.len() {
        assert(s[j] == c);
    }
    assert(s.skip(0) =~= s);
    assert(s.subrange(0, j) =~= s);
}

/// The pieces of a text whose first separator is at `m`: the text before
/// it, then the pieces after it.
pub proof fn lemma_first_piece(s: Seq<char>, c: char, m: int)
    requires
        0 <= m < s.len(),
        s[m] == c,
        forall|i: int| 0 <= i < m ==> s[i] != c,
    ensures
        split_char(s, c) == seq![s.take(m)] + split_char(s.skip(m + 1), c),
{
    lemma_split_from(s, c, 0);
    lemma_next_sep_at(s, c, 0, m);
    assert(s.skip(0) =~= s);
    assert(s.subrange(0, m) =~= s.take(m));
}

/// The non-empty pieces of `s` between occurrences of `sep`, in order.
pub open spec fn nonempty_pieces(s: Seq<char>, sep: char) -> Seq<Seq<char>> {
    split_char(s, sep).filter(|p: Seq<char>| p.len() > 0)
}

/// `s.split(sep).filter(|p| !p.is_empty())`, collected.
pub fn nonempty_pieces_exec(s: &str, sep: char) -> (names: Vec<String>)
    ensures
        names@.map_values(|n: String| n@) == nonempty_pieces(s@, sep),
{
    let v = chars_of(s);
    let ghost sv = v@;
    let ghost keep = |p: Seq<char>| p.len() > 0;
    let mut names: Vec<String> = Vec::new();
    let mut i: usize = 0;
    proof {
        assert(sv.skip(0) =~= sv);
        assert(names@.map_values(|n: String| n@) + split_char(sv.skip(0), sep).filter(keep)
            =~= nonempty_pieces(sv, sep));
    }
    loop
        invariant_except_break
            names@.map_values(|n: String| n@) + split_char(sv.skip(i as int), sep).filter(keep)
                == nonempty_pieces(sv, sep),
        invariant
            i <= sv.len(),
            v@ == sv,
            sv == s@,
            keep == (|p: Seq<char>| p.len() > 0),
        ensures
            names@.map_values(|n: String| n@) == nonempty_pieces(sv, sep),
        decreases sv.len() - i,
    {
        let j = next_sep_exec(v.as_slice(), sep, i);
        proof {
            lemma_split_from(sv, sep, i as int);
            lemma_next_sep_bounds(sv, sep, i as int);
        }
        let piece = slice_range(v.as_slice(), i, j);
        let ghost rest_pieces = if j < sv.len() {
            split_char(sv.skip(j + 1), sep)
        } else {
            Seq::<Seq<char>>::empty()
        };
        let ghost before = names@.map_values(|n: String| n@);
        proof {
            let all = split_char(sv.skip(i as int), sep);
            assert(all == seq![piece@] + rest_pieces);
            Seq::filter_distributes_over_add(seq![piece@], rest_pieces, keep);
            reveal(Seq::filter);
            assert(seq![piece@].drop_last() =~= Seq::<Seq<char>>::empty());
            assert(seq![piece@].last() == piece@);
            assert(Seq::<Seq<char>>::empty().filter(keep) =~= Seq::<Seq<char>>::empty());
            if piece@.len() > 0 {
                assert(seq![piece@].filter(keep) =~= seq![piece@]);
            } else {
                assert(seq![piece@].filter(keep) =~= Seq::<Seq<char>>::empty());
            }
        }
        if i < j {
            names.push(string_of(piece.as_slice()));
            proof {
                assert(names@.map_values(|n: String| n@) =~= before.push(piece@));
                assert(before.push(piece@) + rest_pieces.filter(keep) =~= before + (seq![piece@]
                    + rest_pieces.filter(keep)));
            }
        } else {
            proof {
                assert(before + rest_pieces.filter(keep) =~= before + (Seq::<Seq<char>>::empty()
                    + rest_pieces.filter(keep)));
            }
        }
        if j >= v.len() {
            proof {
                reveal(Seq::filter);
                assert(rest_pieces.filter(keep) =~= Seq::<Seq<char>>::empty());
                assert(names@.map_values(|n: String| n@) + Seq::<Seq<char>>::empty()
                    =~= names@.map_values(|n: String| n@));
            }
            break;
        }
        i = j + 1;
    }
    names
}

/// The pieces of `s` between occurrences of `sep`, each trimmed, keeping
/// those not empty once trimmed, in order.
pub open spec fn trimmed_pieces(s: Seq<char>, sep: char) -> Seq<Seq<char>> {
    split_char(s, sep).map_values(|p: Seq<char>| trim(p)).filter(|p: Seq<char>| p.len() > 0)
}

/// `s.split(sep).map(str::trim).filter(|p| !p.is_empty())`, collected.
pub fn trimmed_pieces_exec(s: &str, sep: char) -> (names: Vec<String>)
    ensures
        names@.map_values(|n: String| n@) == trimmed_pieces(s@, sep),
{
    let v = chars_of(s);
    let ghost sv = v@;
    let ghost keep = |p: Seq<char>| p.len() > 0;
    let ghost tr = |p: Seq<char>| trim(p);
    let mut names: Vec<String> = Vec::new();
    let mut i: usize = 0;
    proof {
        assert(sv.skip(0) =~= sv);
        assert(names@.map_values(|n: String| n@) + split_char(sv.skip(0), sep).map_values(tr).filter(
            keep,
        ) =~= trimmed_pieces(sv, sep));
    }
    loop
        invariant_except_break
            names@.map_values(|n: String| n@) + split_char(sv.skip(i as int), sep).map_values(
                tr,
            ).filter(keep) == trimmed_pieces(sv, sep),
        invariant
            i <= sv.len(),
            v@ == sv,
            sv == s@,
            keep == (|p: Seq<char>| p.len() > 0),
            tr == (|p: Seq<char>| trim(p)),
        ensures
            names@.map_values(|n: String| n@) == trimmed_pieces(sv, sep),
        decreases sv.len() - i,
    {
        let j = next_sep_exec(v.as_slice(), sep, i);
        proof {
            lemma_split_from(sv, sep, i as int);
            lemma_next_sep_bounds(sv, sep, i as int);
        }
        let piece = slice_range(v.as_slice(), i, j);
        let (a, b) = trim_bounds(piece.as_slice());
        let t = slice_range(piece.as_slice(), a, b);
        let ghost rest_pieces = if j < sv.len() {
            split_char(sv.skip(j + 1), sep)
        } else {
            Seq::<Seq<char>>::empty()
        };
        let ghost before = names@.map_values(|n: String| n@);
        proof {
            let all = split_char(sv.skip(i as int), sep);
            assert(all == seq![piece@] + rest_pieces);
            assert(all.map_values(tr) =~= seq![t@] + rest_pieces.map_values(tr));
            Seq::filter_distributes_over_add(seq![t@], rest_pieces.map_values(tr), keep);
            reveal(Seq::filter);
            assert(seq![t@].drop_last() =~= Seq::<Seq<char>>::empty());
            assert(seq![t@].last() == t@);
            assert(Seq::<Seq<char>>::empty().filter(keep) =~= Seq::<Seq<char>>::empty());
            if t@.len() > 0 {
                assert(seq![t@].filter(keep) =~= seq![t@]);
            } else {
                assert(seq![t@].filter(keep) =~= Seq::<Seq<char>>::empty());
            }
        }
        if t.len() > 0 {
            names.push(string_of(t.as_slice()));
            proof {
                assert(names@.map_values(|n: String| n@) =~= before.push(t@));
                assert(before.push(t@) + rest_pieces.map_values(tr).filter(keep) =~= before + (seq![t@]
                    + rest_pieces.map_values(tr).filter(keep)));
            }
        } else {
            proof {
                assert(before + rest_pieces.map_values(tr).filter(keep) =~= before + (Seq::<
                    Seq<char>,
                >::empty() + rest_pieces.map_values(tr).filter(keep)));
            }
        }
        if j >= v.len() {
            proof {
                reveal(Seq::filter);
                assert(rest_pieces.map_values(tr) =~= Seq::<Seq<char>>::empty());
                assert(rest_pieces.map_values(tr).filter(keep) =~= Seq::<Seq<char>>::empty());
                assert(names@.map_values(|n: String| n@) + Seq::<Seq<char>>::empty()
                    =~= names@.map_values(|n: String| n@));
            }
            break;
        }
        i = j + 1;
    }
    names
}

} // verus!

verus! {

/// The part of an address before its first `@` (all of it when it has
/// none): the name shown for an account without a nickname.
pub open spec fn email_name_spec(email: Seq<char>) -> Seq<char> {
    email.take(next_sep(email, '@', 0))
}

/// `email.split('@').next()`: the name shown for an account without a
/// nickname.
pub fn email_name(email: &str) -> (n: String)
    ensures
        n@ == email_name_spec(email@),
{
    let v = chars_of(email);
    let j = next_sep_exec(v.as_slice(), '@', 0);
    proof {
        lemma_next_sep_bounds(v@, '@', 0);
    }
    let head = slice_range(v.as_slice(), 0, j);
    proof {
        assert(head@ =~= v@.take(j as int));
    }
    string_of(head.as_slice())
}

} // verus!
