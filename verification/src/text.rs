//! Small tools for text: cutting a byte string at a separator, and writing a
//! number in decimal.

use vstd::prelude::*;

verus! {

/// Does `s` begin with `pat`?
pub open spec fn starts_with(s: Seq<u8>, pat: Seq<u8>) -> bool {
    pat.len() <= s.len() && s.subrange(0, pat.len() as int) == pat
}

/// `pieces` with `head` put in front of its first piece.
pub open spec fn join_first(head: Seq<u8>, pieces: Seq<Seq<u8>>) -> Seq<Seq<u8>> {
    seq![head + pieces[0]] + pieces.subrange(1, pieces.len() as int)
}

/// The pieces that `s` falls into when it is cut at every occurrence of
/// `pat`, found from left to right and never overlapping. The pieces do not
/// hold the separators; between two adjacent separators, and before one at
/// the very start or after one at the very end, stands an empty piece. There
/// is always at least one piece. An empty `pat` occurs nowhere, so that all
/// of `s` is the one piece.
pub open spec fn split_spec(s: Seq<u8>, pat: Seq<u8>) -> Seq<Seq<u8>>
    decreases s.len(),
{
    if s.len() == 0 {
        seq![Seq::empty()]
    } else if pat.len() > 0 && starts_with(s, pat) {
        seq![Seq::empty()] + split_spec(s.subrange(pat.len() as int, s.len() as int), pat)
    } else {
        join_first(seq![s[0]], split_spec(s.subrange(1, s.len() as int), pat))
    }
}

/// The views of a list of byte strings, in order.
pub open spec fn piece_views(pieces: Seq<Vec<u8>>) -> Seq<Seq<u8>> {
    Seq::new(pieces.len(), |i: int| pieces[i]@)
}

/// Cutting always yields at least one piece.
pub proof fn lemma_split_is_nonempty(s: Seq<u8>, pat: Seq<u8>)
    ensures
        split_spec(s, pat).len() >= 1,
    decreases s.len(),
{
    if s.len() == 0 {
    } else if pat.len() > 0 && starts_with(s, pat) {
        lemma_split_is_nonempty(s.subrange(pat.len() as int, s.len() as int), pat);
    } else {
        lemma_split_is_nonempty(s.subrange(1, s.len() as int), pat);
    }
}

/// The pieces put together again, with `pat` between each two of them.
pub open spec fn join_spec(pieces: Seq<Seq<u8>>, pat: Seq<u8>) -> Seq<u8>
    decreases pieces.len(),
{
    if pieces.len() == 0 {
        Seq::empty()
    } else if pieces.len() == 1 {
        pieces[0]
    } else {
        pieces[0] + pat + join_spec(pieces.subrange(1, pieces.len() as int), pat)
    }
}

/// Cutting loses nothing: the pieces, put together again with the separator
/// between them, are what was cut.
pub proof fn lemma_split_joins_back(s: Seq<u8>, pat: Seq<u8>)
    ensures
        join_spec(split_spec(s, pat), pat) == s,
    decreases s.len(),
{
    if s.len() == 0 {
        assert(join_spec(split_spec(s, pat), pat) =~= s);
    } else if pat.len() > 0 && starts_with(s, pat) {
        let rest = s.subrange(pat.len() as int, s.len() as int);
        let pieces = split_spec(rest, pat);
        lemma_split_joins_back(rest, pat);
        lemma_split_is_nonempty(rest, pat);
        let all = seq![Seq::<u8>::empty()] + pieces;
        assert(all.subrange(1, all.len() as int) =~= pieces);
        assert(Seq::<u8>::empty() + pat + rest =~= s);
    } else {
        let rest = s.subrange(1, s.len() as int);
        let pieces = split_spec(rest, pat);
        lemma_split_joins_back(rest, pat);
        lemma_split_is_nonempty(rest, pat);
        let all = join_first(seq![s[0]], pieces);
        if pieces.len() == 1 {
            assert(all[0] =~= seq![s[0]] + rest);
        } else {
            let tail = pieces.subrange(1, pieces.len() as int);
            assert(all.subrange(1, all.len() as int) =~= tail);
            assert(all[0] + pat + join_spec(tail, pat) =~= seq![s[0]] + (pieces[0] + pat + join_spec(
                tail,
                pat,
            )));
        }
        assert(seq![s[0]] + rest =~= s);
    }
}

/// Does `pat` stand in `s` at index `at`?
fn matches_at(s: &[u8], at: usize, pat: &[u8]) -> (b: bool)
    requires
        at <= s@.len(),
    ensures
        b == starts_with(s@.subrange(at as int, s@.len() as int), pat@),
{
    let ghost tail = s@.subrange(at as int, s@.len() as int);
    if pat.len() > s.len() - at {
        return false;
    }
    let mut k: usize = 0;
    while k < pat.len()
        invariant
            k <= pat@.len(),
            at + pat@.len() <= s@.len() <= usize::MAX,
            tail == s@.subrange(at as int, s@.len() as int),
            forall|j: int| 0 <= j < k ==> s@[at + j] == pat@[j],
        decreases pat@.len() - k,
    {
        if s[at + k] != pat[k] {
            assert(tail.subrange(0, pat@.len() as int)[k as int] == s@[at + k]);
            return false;
        }
        k += 1;
    }
    assert(tail.subrange(0, pat@.len() as int) =~= pat@);
    true
}

/// Cuts `s` at every occurrence of `pat`.
pub fn split(s: &[u8], pat: &[u8]) -> (pieces: Vec<Vec<u8>>)
    ensures
        piece_views(pieces@) == split_spec(s@, pat@),
{
    let mut pieces: Vec<Vec<u8>> = Vec::new();
    let mut cur: Vec<u8> = Vec::new();
    let mut i: usize = 0;
    proof {
        lemma_split_is_nonempty(s@, pat@);
        assert(s@.subrange(0, s@.len() as int) =~= s@);
        assert(piece_views(pieces@) + join_first(cur@, split_spec(s@, pat@)) =~= split_spec(
            s@,
            pat@,
        ));
    }
    while i < s.len()
        invariant
            i <= s@.len(),
            split_spec(s@, pat@) == piece_views(pieces@) + join_first(
                cur@,
                split_spec(s@.subrange(i as int, s@.len() as int), pat@),
            ),
        decreases s@.len() - i,
    {
        let ghost tail = s@.subrange(i as int, s@.len() as int);
        let ghost done = piece_views(pieces@);
        if pat.len() > 0 && matches_at(s, i, pat) {
            let ghost rest = tail.subrange(pat@.len() as int, tail.len() as int);
            proof {
                assert(rest =~= s@.subrange(i + pat@.len(), s@.len() as int));
                lemma_split_is_nonempty(rest, pat@);
                assert(join_first(cur@, seq![Seq::<u8>::empty()] + split_spec(rest, pat@))
                    =~= seq![cur@] + split_spec(rest, pat@));
            }
            pieces.push(cur);
            cur = Vec::new();
            i += pat.len();
            proof {
                assert(piece_views(pieces@) =~= done.push(pieces@.last()@));
                assert(join_first(cur@, split_spec(rest, pat@)) =~= split_spec(rest, pat@));
            }
        } else {
            let ghost rest = tail.subrange(1, tail.len() as int);
            let ghost before = cur@;
            proof {
                assert(rest =~= s@.subrange(i + 1, s@.len() as int));
                lemma_split_is_nonempty(rest, pat@);
                assert(tail[0] == s@[i as int]);
                let x = split_spec(rest, pat@);
                let inner = join_first(seq![tail[0]], x);
                assert(before + inner[0] =~= before.push(tail[0]) + x[0]);
                assert(inner.subrange(1, inner.len() as int) =~= x.subrange(1, x.len() as int));
                assert(join_first(before, inner) =~= join_first(before.push(tail[0]), x));
            }
            cur.push(s[i]);
            i += 1;
        }
    }
    proof {
        let done = piece_views(pieces@);
        assert(s@.subrange(i as int, s@.len() as int) =~= Seq::<u8>::empty());
        assert(join_first(cur@, seq![Seq::<u8>::empty()]) =~= seq![cur@]);
    }
    let ghost done = piece_views(pieces@);
    pieces.push(cur);
    assert(piece_views(pieces@) =~= done + seq![cur@]);
    pieces
}

/// The index of the first `b` in `s`, where there is one.
pub open spec fn first_index(s: Seq<u8>, b: u8) -> int {
    choose|i: int| 0 <= i < s.len() && s[i] == b && forall|j: int| 0 <= j < i ==> s[j] != b
}

/// What stands before the first `sep` in `s` and what stands after it, or
/// nothing where `s` holds no `sep`.
pub open spec fn split_once_spec(s: Seq<u8>, sep: u8) -> Option<(Seq<u8>, Seq<u8>)> {
    if s.contains(sep) {
        Some(
            (
                s.subrange(0, first_index(s, sep)),
                s.subrange(first_index(s, sep) + 1, s.len() as int),
            ),
        )
    } else {
        None
    }
}

/// Cuts `s` at its first `sep`.
pub fn split_once(s: &[u8], sep: u8) -> (r: Option<(Vec<u8>, Vec<u8>)>)
    ensures
        match r {
            Some((before, after)) => split_once_spec(s@, sep) == Some((before@, after@)),
            None => split_once_spec(s@, sep) is None,
        },
        r matches Some((before, after)) ==> !before@.contains(sep) && s@ == before@ + seq![sep]
            + after@,
{
    let mut i: usize = 0;
    while i < s.len() && s[i] != sep
        invariant
            i <= s@.len(),
            forall|j: int| 0 <= j < i ==> s@[j] != sep,
        decreases s@.len() - i,
    {
        i += 1;
    }
    if i == s.len() {
        assert(!s@.contains(sep));
        return None;
    }
    proof {
        assert(s@.contains(sep));
        let f = first_index(s@, sep);
        assert(0 <= f < s@.len() && s@[f] == sep && forall|j: int| 0 <= j < f ==> s@[j] != sep);
        assert(f == i);
    }
    let mut before: Vec<u8> = Vec::new();
    let mut k: usize = 0;
    while k < i
        invariant
            k <= i < s@.len(),
            before@ == s@.subrange(0, k as int),
        decreases i - k,
    {
        before.push(s[k]);
        k += 1;
        assert(before@ =~= s@.subrange(0, k as int));
    }
    let mut after: Vec<u8> = Vec::new();
    let mut k: usize = i + 1;
    while k < s.len()
        invariant
            i < k <= s@.len(),
            after@ == s@.subrange(i + 1, k as int),
        decreases s@.len() - k,
    {
        after.push(s[k]);
        k += 1;
        assert(after@ =~= s@.subrange(i + 1, k as int));
    }
    proof {
        assert(s@ =~= before@ + seq![sep] + after@);
        if before@.contains(sep) {
            let j = choose|j: int| 0 <= j < before@.len() && before@[j] == sep;
            assert(s@[j] == sep);
        }
    }
    Some((before, after))
}

/// The character that stands for a digit.
pub open spec fn digit_char(d: int) -> char
    recommends
        0 <= d < 10,
{
    if d == 0 {
        '0'
    } else if d == 1 {
        '1'
    } else if d == 2 {
        '2'
    } else if d == 3 {
        '3'
    } else if d == 4 {
        '4'
    } else if d == 5 {
        '5'
    } else if d == 6 {
        '6'
    } else if d == 7 {
        '7'
    } else if d == 8 {
        '8'
    } else {
        '9'
    }
}

/// A number written in decimal, without leading zeros.
pub open spec fn decimal_spec(n: nat) -> Seq<char>
    decreases n,
{
    if n < 10 {
        seq![digit_char(n as int)]
    } else {
        decimal_spec(n / 10).push(digit_char((n % 10) as int))
    }
}

fn digit_str(d: u64) -> (s: &'static str)
    requires
        d < 10,
    ensures
        s@ == seq![digit_char(d as int)],
{
    proof {
        reveal_strlit("0");
        reveal_strlit("1");
        reveal_strlit("2");
        reveal_strlit("3");
        reveal_strlit("4");
        reveal_strlit("5");
        reveal_strlit("6");
        reveal_strlit("7");
        reveal_strlit("8");
        reveal_strlit("9");
    }
    let s = if d == 0 {
        "0"
    } else if d == 1 {
        "1"
    } else if d == 2 {
        "2"
    } else if d == 3 {
        "3"
    } else if d == 4 {
        "4"
    } else if d == 5 {
        "5"
    } else if d == 6 {
        "6"
    } else if d == 7 {
        "7"
    } else if d == 8 {
        "8"
    } else {
        "9"
    };
    assert(s@ =~= seq![digit_char(d as int)]);
    s
}

/// Appends `n`, written in decimal, to `out`.
pub fn push_decimal(out: &mut String, n: u64)
    ensures
        final(out)@ == old(out)@ + decimal_spec(n as nat),
    decreases n,
{
    if n >= 10 {
        push_decimal(out, n / 10);
    }
    let ghost before = out@;
    out.append(digit_str(n % 10));
    proof {
        if n >= 10 {
            assert(out@ =~= old(out)@ + decimal_spec((n / 10) as nat).push(
                digit_char((n % 10) as int),
            ));
        }
    }
}

/// `n` written in decimal.
pub fn decimal(n: u64) -> (s: String)
    ensures
        s@ == decimal_spec(n as nat),
{
    let mut s = String::new();
    push_decimal(&mut s, n);
    assert(s@ =~= decimal_spec(n as nat));
    s
}

} // verus!
