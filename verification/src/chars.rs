//! Texts as sequences of characters: taking them apart and putting them
//! together, searching and splitting.

use vstd::prelude::*;

verus! {

/// Index of the first `c` in `s`, or the length of `s` where `s` holds no `c`.
pub open spec fn first_index<A>(s: Seq<A>, c: A) -> int
    decreases s.len(),
{
    if s.len() == 0 || s[0] == c {
        0
    } else {
        1 + first_index(s.drop_first(), c)
    }
}

/// The pieces of `s` that lie between the occurrences of `sep`. A sequence
/// with `n` separators has `n + 1` pieces, some of which may be empty.
pub open spec fn split(s: Seq<char>, sep: char) -> Seq<Seq<char>>
    decreases s.len(),
{
    let i = first_index(s, sep);
    if 0 <= i < s.len() {
        seq![s.take(i)] + split(s.skip(i + 1), sep)
    } else {
        seq![s]
    }
}

/// `first_index` lies within `s` or at its end, nothing before it is `c`,
/// and where it lies within `s` it points at a `c`.
pub proof fn lemma_first_index<A>(s: Seq<A>, c: A)
    ensures
        0 <= first_index(s, c) <= s.len(),
        forall|j: int| 0 <= j < first_index(s, c) ==> s[j] != c,
        first_index(s, c) < s.len() ==> s[first_index(s, c)] == c,
    decreases s.len(),
{
    if s.len() == 0 || s[0] == c {
    } else {
        let rest = s.drop_first();
        lemma_first_index(rest, c);
        assert forall|j: int| 0 <= j < first_index(s, c) implies s[j] != c by {
            if j > 0 {
                assert(s[j] == rest[j - 1]);
            }
        }
    }
}

/// An index with no `c` before it that is the end of `s` or points at a `c`
/// is the first index of `c`.
pub proof fn lemma_first_index_is<A>(s: Seq<A>, c: A, k: int)
    requires
        0 <= k <= s.len(),
        forall|j: int| 0 <= j < k ==> s[j] != c,
        k < s.len() ==> s[k] == c,
    ensures
        first_index(s, c) == k,
{
    lemma_first_index(s, c);
    let i = first_index(s, c);
    if i < k {
        assert(s[i] == c);
    } else if k < i {
        assert(s[k] == c);
    }
}

/// A sequence without separator is a single piece.
pub proof fn lemma_split_single(piece: Seq<char>, sep: char)
    requires
        !piece.contains(sep),
    ensures
        split(piece, sep) == seq![piece],
{
    assert forall|j: int| 0 <= j < piece.len() implies piece[j] != sep by {
        assert(piece.contains(piece[j]));
    }
    lemma_first_index_is(piece, sep, piece.len() as int);
}

/// What stands before the first separator is the first piece; the other
/// pieces are those of what follows that separator.
pub proof fn lemma_split_first(piece: Seq<char>, rest: Seq<char>, sep: char)
    requires
        !piece.contains(sep),
    ensures
        split(piece.push(sep) + rest, sep) == seq![piece] + split(rest, sep),
{
    let whole = piece.push(sep) + rest;
    let n = piece.len() as int;
    assert forall|j: int| 0 <= j < n implies whole[j] != sep by {
        assert(piece.contains(piece[j]));
    }
    assert(whole[n] == sep);
    lemma_first_index_is(whole, sep, n);
    assert(whole.take(n) == piece);
    assert(whole.skip(n + 1) == rest);
}

/// The characters of `text`, in order.
pub fn to_chars(text: &str) -> (chars: Vec<char>)
    ensures
        chars@ == text@,
{
    let mut chars: Vec<char> = Vec::new();
    for c in it: text.chars()
        invariant
            it.seq() == text@,
            chars@ == text@.take(it.index()),
    {
        chars.push(c);
    }
    chars
}

/// A string made of `chars`, in order.
pub fn string_of(chars: &[char]) -> (s: String)
    ensures
        s@ == chars@,
{
    let mut s = String::new();
    let mut i: usize = 0;
    while i < chars.len()
        invariant
            i <= chars.len(),
            s@ == chars@.take(i as int),
        decreases chars.len() - i,
    {
        s.push(chars[i]);
        i += 1;
    }
    s
}

/// Finds the first `c` in `s`.
pub fn find(s: &[char], c: char) -> (at: usize)
    ensures
        at == first_index(s@, c),
{
    let mut at: usize = 0;
    while at < s.len() && s[at] != c
        invariant
            at <= s.len(),
            forall|j: int| 0 <= j < at ==> s@[j] != c,
        decreases s.len() - at,
    {
        at += 1;
    }
    proof {
        lemma_first_index_is(s@, c, at as int);
    }
    at
}

} // verus!
