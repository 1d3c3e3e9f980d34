//! Splitting a derivation path into package name and version.
//!
//! A derivation's file name follows the shape
//! `<32-character-hash>-<name>-<version>.drv`. The display name is what is
//! left after the hash prefix (32 characters and the dash after it) and the
//! `.drv` suffix are stripped; package name and version are the parts
//! before and after its last dash. A derivation too short for that shape
//! falls back to the raw string instead of being cut out of bounds.

use vstd::prelude::*;

verus! {

/// The derivation with the 33-character hash prefix and the 4-character
/// suffix stripped, or the whole string when it is too short for that.
pub open spec fn stripped_name(d: Seq<char>) -> Seq<char> {
    if d.len() >= 37 {
        d.subrange(33, d.len() - 4)
    } else {
        d
    }
}

/// The index of the last occurrence of `c`, if any.
pub open spec fn last_index_of(n: Seq<char>, c: char) -> Option<int>
    decreases n.len(),
{
    if n.len() == 0 {
        Option::None
    } else if n.last() == c {
        Option::Some(n.len() - 1)
    } else {
        last_index_of(n.drop_last(), c)
    }
}

/// With `c` at `p` and nowhere later, the last occurrence is `p`.
proof fn lemma_last_index_hit(n: Seq<char>, c: char, p: int)
    requires
        0 <= p < n.len(),
        n[p] == c,
        forall|j: int| p < j < n.len() ==> n[j] != c,
    ensures
        last_index_of(n, c) == Option::Some(p),
    decreases n.len(),
{
    if p < n.len() - 1 {
        lemma_last_index_hit(n.drop_last(), c, p);
    }
}

/// With `c` nowhere in `n`, there is no last occurrence.
proof fn lemma_last_index_miss(n: Seq<char>, c: char)
    requires
        forall|j: int| 0 <= j < n.len() ==> n[j] != c,
    ensures
        last_index_of(n, c) == Option::<int>::None,
    decreases n.len(),
{
    if n.len() > 0 {
        lemma_last_index_miss(n.drop_last(), c);
    }
}

/// The name split at its last dash: what stands before it and what stands
/// after it. A name without a dash is all package name, with an empty
/// version.
pub open spec fn name_split(n: Seq<char>) -> (Seq<char>, Seq<char>) {
    match last_index_of(n, '-') {
        Option::Some(i) => (n.take(i), n.skip(i + 1)),
        Option::None => (n, Seq::<char>::empty()),
    }
}

/// The package-name part of a derivation path.
pub open spec fn pname_of(d: Seq<char>) -> Seq<char> {
    name_split(stripped_name(d)).0
}

/// The version part of a derivation path.
pub open spec fn version_of(d: Seq<char>) -> Seq<char> {
    name_split(stripped_name(d)).1
}

/// Splits a derivation path into package name and version.
pub fn split_derivation_name(derivation: &str) -> (r: (String, String))
    ensures
        r.0@ == pname_of(derivation@),
        r.1@ == version_of(derivation@),
{
    let len = derivation.unicode_len();
    let name: &str = if len >= 37 {
        derivation.substring_char(33, len - 4)
    } else {
        derivation
    };
    proof {
        assert(name@ == stripped_name(derivation@));
    }
    let nlen = name.unicode_len();

    let mut i: usize = nlen;
    while i > 0
        invariant
            i <= nlen,
            nlen == name@.len(),
            name@ == stripped_name(derivation@),
            forall|j: int| i <= j < nlen ==> name@[j] != '-',
        decreases i,
    {
        let c = name.get_char(i - 1);
        if c == '-' {
            proof {
                lemma_last_index_hit(name@, '-', i - 1);
            }
            let pname = name.substring_char(0, i - 1);
            let version = name.substring_char(i, nlen);
            proof {
                assert(pname@ =~= name@.take(i - 1));
                assert(version@ =~= name@.skip(i as int));
            }
            return (pname.to_owned(), version.to_owned());
        }
        i -= 1;
    }
    proof {
        lemma_last_index_miss(name@, '-');
    }
    let pname = name.to_owned();
    (pname, String::new())
}

} // verus!
