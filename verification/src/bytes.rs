//! Small operations on byte strings that the protocol code is built from.

use vstd::prelude::*;
use vstd::slice::slice_subrange;

verus! {

/// The space that separates the words of a command line.
pub const SPACE: u8 = 0x20;

/// Byte strings as mathematical values, one for each of `items`.
pub open spec fn texts(items: Seq<Vec<u8>>) -> Seq<Seq<u8>> {
    Seq::new(items.len(), |i: int| items[i]@)
}

/// What `split_once` returns for `s`: the part before the first `sep` and the
/// part after it, or `None` where `s` holds no `sep`.
pub open spec fn split_at_first(s: Seq<u8>, sep: u8) -> Option<(Seq<u8>, Seq<u8>)> {
    match s.index_of_first(sep) {
        Some(i) => Some((s.subrange(0, i), s.subrange(i + 1, s.len() as int))),
        None => None,
    }
}

/// `index_of_first` is the one index that holds `needle` with no `needle` before it.
pub proof fn lemma_first_index(s: Seq<u8>, needle: u8, i: int)
    requires
        0 <= i < s.len(),
        s[i] == needle,
        forall|j: int| 0 <= j < i ==> s[j] != needle,
    ensures
        s.index_of_first(needle) == Some(i),
{
    s.index_of_first_ensures(needle);
    assert(s.contains(needle));
}

/// A byte string without `needle` has no first index of it.
pub proof fn lemma_no_index(s: Seq<u8>, needle: u8)
    requires
        forall|j: int| 0 <= j < s.len() ==> s[j] != needle,
    ensures
        s.index_of_first(needle) is None,
{
    s.index_of_first_ensures(needle);
}

/// Appends `src` to `out`.
pub fn append(out: &mut Vec<u8>, src: &[u8])
    ensures
        final(out)@ == old(out)@ + src@,
{
    let mut i: usize = 0;
    while i < src.len()
        invariant
            i <= src.len(),
            out@ == old(out)@ + src@.subrange(0, i as int),
        decreases src.len() - i,
    {
        out.push(src[i]);
        i += 1;
    }
    assert(src@.subrange(0, src@.len() as int) == src@);
}

/// The index of the first `needle` in `s`.
pub fn find(s: &[u8], needle: u8) -> (found: Option<usize>)
    ensures
        match found {
            Some(i) => s@.index_of_first(needle) == Some(i as int),
            None => s@.index_of_first(needle) is None,
        },
{
    let mut i: usize = 0;
    while i < s.len()
        invariant
            i <= s.len(),
            forall|j: int| 0 <= j < i ==> s@[j] != needle,
        decreases s.len() - i,
    {
        if s[i] == needle {
            proof {
                lemma_first_index(s@, needle, i as int);
            }
            return Some(i);
        }
        i += 1;
    }
    proof {
        lemma_no_index(s@, needle);
    }
    None
}

/// Splits `s` at its first `sep`, which belongs to neither part.
pub fn split_once(s: &[u8], sep: u8) -> (parts: Option<(&[u8], &[u8])>)
    ensures
        match parts {
            Some((head, tail)) => split_at_first(s@, sep) == Some((head@, tail@)),
            None => split_at_first(s@, sep) is None,
        },
{
    match find(s, sep) {
        Some(i) => {
            proof {
                s@.index_of_first_ensures(sep);
            }
            assert(i < s.len());
            Some((slice_subrange(s, 0, i), slice_subrange(s, i + 1, s.len())))
        },
        None => None,
    }
}

/// Whether `s` begins with `prefix`.
pub fn starts_with(s: &[u8], prefix: &[u8]) -> (yes: bool)
    ensures
        yes == prefix@.is_prefix_of(s@),
{
    if prefix.len() > s.len() {
        return false;
    }
    let mut i: usize = 0;
    while i < prefix.len()
        invariant
            i <= prefix.len() <= s.len(),
            forall|j: int| 0 <= j < i ==> s@[j] == prefix@[j],
        decreases prefix.len() - i,
    {
        if s[i] != prefix[i] {
            assert(s@.subrange(0, prefix@.len() as int)[i as int] != prefix@[i as int]);
            return false;
        }
        i += 1;
    }
    assert(prefix@ =~= s@.subrange(0, prefix@.len() as int));
    true
}

} // verus!
