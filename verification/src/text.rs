//! Splitting and joining of character sequences, with the round-trip
//! lemmas the pack file codec rests on.

use vstd::prelude::*;
use vstd::string::*;

verus! {

/// Index of the first occurrence of `sep` in `s`; `s.len()` when absent.
pub open spec fn first_sep(s: Seq<char>, sep: char) -> nat
    decreases s.len(),
{
    if s.len() == 0 {
        0
    } else if s[0] == sep {
        0
    } else {
        1 + first_sep(s.drop_first(), sep)
    }
}

/// No character of `s` is `c`.
pub open spec fn sep_free(s: Seq<char>, c: char) -> bool {
    forall|i: int| 0 <= i < s.len() ==> s[i] != c
}

pub proof fn lemma_first_sep(s: Seq<char>, sep: char)
    ensures
        first_sep(s, sep) <= s.len(),
        forall|j: int| 0 <= j < first_sep(s, sep) ==> s[j] != sep,
        first_sep(s, sep) < s.len() ==> s[first_sep(s, sep) as int] == sep,
    decreases s.len(),
{
    if s.len() == 0 {
    } else if s[0] == sep {
    } else {
        lemma_first_sep(s.drop_first(), sep);
        assert forall|j: int| 0 <= j < first_sep(s, sep) implies s[j] != sep by {
            if j > 0 {
                assert(s.drop_first()[j - 1] == s[j]);
            }
        }
        if first_sep(s, sep) < s.len() {
            assert(s.drop_first()[first_sep(s.drop_first(), sep) as int] == s[first_sep(
                s,
                sep,
            ) as int]);
        }
    }
}

/// The first occurrence is wherever a separator sits behind none other.
pub proof fn lemma_first_sep_at(s: Seq<char>, sep: char, i: int)
    requires
        0 <= i <= s.len(),
        forall|j: int| 0 <= j < i ==> s[j] != sep,
        i < s.len() ==> s[i] == sep,
    ensures
        first_sep(s, sep) == i,
{
    lemma_first_sep(s, sep);
    let fs = first_sep(s, sep) as int;
    if fs < i {
        assert(s[fs] == sep);
    } else if fs > i {
        assert(i < s.len());
        assert(s[i] != sep);
    }
}

/// `s` cut at every occurrence of `sep`. Splitting never yields an
/// empty list; a trailing separator yields a trailing empty chunk.
pub open spec fn split_seps(s: Seq<char>, sep: char) -> Seq<Seq<char>>
    decreases s.len(),
{
    let i = first_sep(s, sep) as int;
    if i >= s.len() {
        seq![s]
    } else {
        seq![s.take(i)] + split_seps(s.skip(i + 1), sep)
    }
}

pub proof fn lemma_split_absent(s: Seq<char>, sep: char)
    requires
        sep_free(s, sep),
    ensures
        split_seps(s, sep) == seq![s],
{
    lemma_first_sep(s, sep);
}

/// Splitting takes one separator-free chunk off the front.
pub proof fn lemma_split_prepend(part: Seq<char>, sep: char, rest: Seq<char>)
    requires
        sep_free(part, sep),
    ensures
        split_seps(part + seq![sep] + rest, sep) == seq![part] + split_seps(rest, sep),
{
    let s = part + seq![sep] + rest;
    assert forall|j: int| 0 <= j < part.len() implies s[j] != sep by {
        assert(s[j] == part[j]);
    }
    assert(s[part.len() as int] == sep);
    lemma_first_sep_at(s, sep, part.len() as int);
    assert(s.take(part.len() as int) =~= part);
    assert(s.skip(part.len() as int + 1) =~= rest);
}

/// Chunks joined with a separator after each one, as lines of a file.
pub open spec fn join_terminated(parts: Seq<Seq<char>>, sep: char) -> Seq<char>
    decreases parts.len(),
{
    if parts.len() == 0 {
        Seq::empty()
    } else {
        join_terminated(parts.drop_last(), sep) + parts.last() + seq![sep]
    }
}

pub proof fn lemma_join_terminated_front(parts: Seq<Seq<char>>, sep: char)
    requires
        parts.len() > 0,
    ensures
        join_terminated(parts, sep) == parts.first() + seq![sep] + join_terminated(
            parts.drop_first(),
            sep,
        ),
    decreases parts.len(),
{
    if parts.len() == 1 {
        assert(parts.drop_last() =~= Seq::<Seq<char>>::empty());
        assert(parts.drop_first() =~= Seq::<Seq<char>>::empty());
        assert(parts.last() == parts.first());
        assert(join_terminated(parts, sep) =~= parts.first() + seq![sep] + join_terminated(
            parts.drop_first(),
            sep,
        ));
    } else {
        let dl = parts.drop_last();
        lemma_join_terminated_front(dl, sep);
        let df = parts.drop_first();
        assert(df.len() > 0);
        assert(df.drop_last() =~= dl.drop_first());
        assert(df.last() == parts.last());
        assert(parts.first() == dl.first());
        assert(join_terminated(parts, sep) =~= parts.first() + seq![sep] + join_terminated(
            df,
            sep,
        ));
    }
}

/// Splitting inverts terminated joining, up to the trailing empty chunk.
pub proof fn lemma_split_join_terminated(parts: Seq<Seq<char>>, sep: char)
    requires
        forall|i: int| 0 <= i < parts.len() ==> sep_free(#[trigger] parts[i], sep),
    ensures
        split_seps(join_terminated(parts, sep), sep) == parts + seq![Seq::<char>::empty()],
    decreases parts.len(),
{
    if parts.len() == 0 {
        assert(join_terminated(parts, sep) == Seq::<char>::empty());
        lemma_split_absent(Seq::<char>::empty(), sep);
        assert(seq![Seq::<char>::empty()] =~= parts + seq![Seq::<char>::empty()]);
    } else {
        lemma_join_terminated_front(parts, sep);
        assert(sep_free(parts.first(), sep));
        lemma_split_prepend(parts.first(), sep, join_terminated(parts.drop_first(), sep));
        assert forall|i: int| 0 <= i < parts.drop_first().len() implies sep_free(
            #[trigger] parts.drop_first()[i],
            sep,
        ) by {
            assert(parts.drop_first()[i] == parts[i + 1]);
        }
        lemma_split_join_terminated(parts.drop_first(), sep);
        assert(seq![parts.first()] + (parts.drop_first() + seq![Seq::<char>::empty()]) =~= parts
            + seq![Seq::<char>::empty()]);
    }
}

/// Chunks joined with a separator between each pair.
pub open spec fn join_sep(parts: Seq<Seq<char>>, sep: char) -> Seq<char>
    decreases parts.len(),
{
    if parts.len() == 0 {
        Seq::empty()
    } else if parts.len() == 1 {
        parts[0]
    } else {
        join_sep(parts.drop_last(), sep) + seq![sep] + parts.last()
    }
}

pub proof fn lemma_join_sep_front(parts: Seq<Seq<char>>, sep: char)
    requires
        parts.len() >= 2,
    ensures
        join_sep(parts, sep) == parts.first() + seq![sep] + join_sep(parts.drop_first(), sep),
    decreases parts.len(),
{
    if parts.len() == 2 {
        let a = parts[0];
        let b = parts[1];
        assert(parts.drop_last() =~= seq![a]);
        assert(parts.drop_first() =~= seq![b]);
        assert(join_sep(seq![a], sep) == a);
        assert(join_sep(seq![b], sep) == b);
        assert(join_sep(parts, sep) == join_sep(seq![a], sep) + seq![sep] + b);
        assert(join_sep(parts, sep) =~= parts.first() + seq![sep] + join_sep(
            parts.drop_first(),
            sep,
        ));
    } else {
        let dl = parts.drop_last();
        lemma_join_sep_front(dl, sep);
        let df = parts.drop_first();
        assert(df.drop_last() =~= dl.drop_first());
        assert(df.last() == parts.last());
        assert(parts.first() == dl.first());
        assert(df.len() >= 2);
        assert(join_sep(parts, sep) =~= parts.first() + seq![sep] + join_sep(df, sep));
    }
}

/// Splitting inverts separator joining for a nonempty chunk list.
pub proof fn lemma_split_join_sep(parts: Seq<Seq<char>>, sep: char)
    requires
        parts.len() >= 1,
        forall|i: int| 0 <= i < parts.len() ==> sep_free(#[trigger] parts[i], sep),
    ensures
        split_seps(join_sep(parts, sep), sep) == parts,
    decreases parts.len(),
{
    if parts.len() == 1 {
        lemma_split_absent(parts[0], sep);
        assert(seq![parts[0]] =~= parts);
    } else {
        lemma_join_sep_front(parts, sep);
        lemma_split_prepend(parts.first(), sep, join_sep(parts.drop_first(), sep));
        assert forall|i: int| 0 <= i < parts.drop_first().len() implies sep_free(
            #[trigger] parts.drop_first()[i],
            sep,
        ) by {
            assert(parts.drop_first()[i] == parts[i + 1]);
        }
        lemma_split_join_sep(parts.drop_first(), sep);
        assert(seq![parts.first()] + parts.drop_first() =~= parts);
    }
}

/// A join of `c`-free chunks on a separator other than `c` is `c`-free.
pub proof fn lemma_join_sep_free(parts: Seq<Seq<char>>, sep: char, c: char)
    requires
        sep != c,
        forall|i: int| 0 <= i < parts.len() ==> sep_free(#[trigger] parts[i], c),
    ensures
        sep_free(join_sep(parts, sep), c),
    decreases parts.len(),
{
    if parts.len() <= 1 {
    } else {
        assert forall|i: int| 0 <= i < parts.drop_last().len() implies sep_free(
            #[trigger] parts.drop_last()[i],
            c,
        ) by {
            assert(parts.drop_last()[i] == parts[i]);
        }
        lemma_join_sep_free(parts.drop_last(), sep, c);
        assert(sep_free(parts.last(), c));
    }
}

/// First occurrence of `sep` in `s` at or after `from`; `n` when absent.
fn scan_sep(s: &str, from: usize, n: usize, sep: char) -> (r: usize)
    requires
        n == s@.len(),
        from <= n,
    ensures
        from <= r <= n,
        forall|j: int| from <= j < r ==> s@[j] != sep,
        r < n ==> s@[r as int] == sep,
{
    let mut i: usize = from;
    while i < n
        invariant
            from <= i <= n,
            n == s@.len(),
            forall|j: int| from <= j < i ==> s@[j] != sep,
        decreases n - i,
    {
        if s.get_char(i) == sep {
            return i;
        }
        i = i + 1;
    }
    n
}

/// Cut `s` at every occurrence of `sep`.
pub fn split_string(s: &str, sep: char) -> (r: Vec<String>)
    ensures
        r.deep_view() == split_seps(s@, sep),
{
    let n = s.unicode_len();
    let mut out: Vec<String> = Vec::new();
    let mut pos: usize = 0;
    let mut done = false;
    proof {
        assert(s@.skip(0) =~= s@);
    }
    while !done
        invariant
            n == s@.len(),
            pos <= n,
            !done ==> split_seps(s@, sep) == out.deep_view() + split_seps(s@.skip(pos as int), sep),
            done ==> split_seps(s@, sep) == out.deep_view(),
        decreases n - pos + (if done { 0int } else { 1int }),
    {
        let i = scan_sep(s, pos, n, sep);
        let chunk = s.substring_char(pos, i).to_owned();
        let ghost out0 = out.deep_view();
        let ghost rem = s@.skip(pos as int);
        let ghost chv = s@.subrange(pos as int, i as int);
        if i < n {
            out.push(chunk);
            proof {
                assert(sep_free(chv, sep));
                assert(rem =~= chv + seq![sep] + s@.skip(i as int + 1));
                lemma_split_prepend(chv, sep, s@.skip(i as int + 1));
                assert(out.deep_view() =~= out0.push(chv));
                assert(out0.push(chv) + split_seps(s@.skip(i as int + 1), sep) =~= out0
                    + split_seps(rem, sep));
            }
            pos = i + 1;
        } else {
            out.push(chunk);
            done = true;
            proof {
                assert(rem =~= chv);
                lemma_split_absent(chv, sep);
                assert(out.deep_view() =~= out0.push(chv));
                assert(out0 + split_seps(rem, sep) =~= out0.push(chv));
            }
        }
    }
    out
}

} // verus!
