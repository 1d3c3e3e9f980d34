//! Data model for tracked builds.
//!
//! A `Build` is one job being watched: its derivation path, the id of its
//! root process, and a flat list of process records out of which the tree
//! view is derived. A snapshot of the active builds is kept sorted by
//! derivation so that the display order is stable across refreshes.

use vstd::prelude::*;

verus! {

/// One OS process taking part in a build.
#[derive(Debug, Clone)]
pub struct BuildProcess {
    /// The command line, one string per argument.
    pub argv: Vec<String>,
    /// The id of the parent process; it may name a process that is not in
    /// the list (the root's own parent, for one).
    pub parent_pid: usize,
    /// The id of this process, unique within one build's process list.
    pub pid: usize,
}

/// One tracked build.
#[derive(Debug, Clone)]
pub struct Build {
    /// The derivation path, the stable key a build is sorted and
    /// re-identified by.
    pub derivation: String,
    /// The id of the process at the root of the build's process tree.
    pub main_pid: usize,
    /// The id of the Nix process driving the build; the identity the
    /// selection follows across refreshes.
    pub nix_pid: usize,
    /// Every process of the build, in the order the data source gave them.
    pub processes: Vec<BuildProcess>,
    /// When the build started, as whole seconds of Unix time.
    pub start_time: i64,
}

/// One whole fetch result: all currently active builds.
pub type Output = Vec<Build>;

/// `v` clamped into the range of `i64`.
pub open spec fn clamp_to_i64(v: int) -> int {
    if v < i64::MIN as int {
        i64::MIN as int
    } else if v > i64::MAX as int {
        i64::MAX as int
    } else {
        v
    }
}

impl Build {
    /// Seconds elapsed between the build's start and `now_secs`, clamped
    /// into the range of `i64` instead of overflowing.
    pub fn elapsed(&self, now_secs: i64) -> (r: i64)
        ensures
            r as int == clamp_to_i64(now_secs - self.start_time),
    {
        let d: i128 = now_secs as i128 - self.start_time as i128;
        if d < i64::MIN as i128 {
            i64::MIN
        } else if d > i64::MAX as i128 {
            i64::MAX
        } else {
            d as i64
        }
    }
}

/// Lexicographic order on character sequences: `a` comes no later than `b`.
/// On UTF-8 text this agrees with the byte-wise order of the encoded
/// strings, since UTF-8 encoding preserves code-point order.
pub open spec fn lex_le(a: Seq<char>, b: Seq<char>) -> bool
    decreases a.len(),
{
    if a.len() == 0 {
        true
    } else if b.len() == 0 {
        false
    } else if a[0] == b[0] {
        lex_le(a.drop_first(), b.drop_first())
    } else {
        (a[0] as int) < (b[0] as int)
    }
}

/// Any two sequences are ordered one way or the other.
proof fn lemma_lex_le_total(a: Seq<char>, b: Seq<char>)
    ensures
        lex_le(a, b) || lex_le(b, a),
    decreases a.len(),
{
    if a.len() == 0 || b.len() == 0 {
    } else if a[0] == b[0] {
        lemma_lex_le_total(a.drop_first(), b.drop_first());
    }
}

/// The order is transitive.
proof fn lemma_lex_le_trans(a: Seq<char>, b: Seq<char>, c: Seq<char>)
    requires
        lex_le(a, b),
        lex_le(b, c),
    ensures
        lex_le(a, c),
    decreases a.len(),
{
    if a.len() == 0 {
    } else {
        if b.len() == 0 {
        } else if c.len() == 0 {
        } else {
            if a[0] == b[0] && b[0] == c[0] {
                lemma_lex_le_trans(a.drop_first(), b.drop_first(), c.drop_first());
            }
        }
    }
}

/// If `a` and `b` agree on their first `i` characters, their order is
/// decided by what follows.
proof fn lemma_lex_le_skip(a: Seq<char>, b: Seq<char>, i: int)
    requires
        0 <= i <= a.len(),
        i <= b.len(),
        forall|j: int| 0 <= j < i ==> a[j] == b[j],
    ensures
        lex_le(a, b) == lex_le(a.skip(i), b.skip(i)),
    decreases i,
{
    if i > 0 {
        assert(a.len() > 0 && b.len() > 0);
        assert(a[0] == b[0]);
        lemma_lex_le_skip(a.drop_first(), b.drop_first(), i - 1);
        assert(a.drop_first().skip(i - 1) =~= a.skip(i));
        assert(b.drop_first().skip(i - 1) =~= b.skip(i));
    } else {
        assert(a.skip(0) =~= a);
        assert(b.skip(0) =~= b);
    }
}

/// Decides `lex_le(a@, b@)`.
pub fn str_le(a: &str, b: &str) -> (r: bool)
    ensures
        r == lex_le(a@, b@),
{
    let la = a.unicode_len();
    let lb = b.unicode_len();
    let mut i: usize = 0;
    loop
        invariant
            i <= la,
            i <= lb,
            la == a@.len(),
            lb == b@.len(),
            forall|j: int| 0 <= j < i ==> a@[j] == b@[j],
        decreases la - i,
    {
        if i == la || i == lb {
            proof {
                lemma_lex_le_skip(a@, b@, i as int);
            }
            return i == la;
        }
        let ca = a.get_char(i);
        let cb = b.get_char(i);
        if ca as u32 != cb as u32 {
            proof {
                lemma_lex_le_skip(a@, b@, i as int);
                assert(a@.skip(i as int)[0] == ca);
                assert(b@.skip(i as int)[0] == cb);
            }
            return (ca as u32) < (cb as u32);
        }
        proof {
            assert(a@[i as int] == ca && b@[i as int] == cb);
        }
        i += 1;
    }
}

/// The builds stand in ascending order of derivation.
pub open spec fn sorted_by_derivation(s: Seq<Build>) -> bool {
    forall|i: int, j: int|
        0 <= i < j < s.len() ==> lex_le(#[trigger] s[i].derivation@, #[trigger] s[j].derivation@)
}

/// Sorts the builds by derivation, ascending; the same builds come out
/// that went in.
pub fn sort_builds(builds: &mut Vec<Build>)
    ensures
        sorted_by_derivation(final(builds)@),
        final(builds)@.to_multiset() == old(builds)@.to_multiset(),
{
    broadcast use vstd::multiset::group_multiset_axioms;

    if builds.len() <= 1 {
        return;
    }
    let mut i: usize = 1;
    while i < builds.len()
        invariant
            1 <= i <= builds@.len(),
            builds@.len() == old(builds)@.len(),
            builds@.to_multiset() == old(builds)@.to_multiset(),
            sorted_by_derivation(builds@.take(i as int)),
        decreases builds@.len() - i,
    {
        let ghost pre = builds@;
        let item = builds.remove(i);
        proof {
            assert(builds@.take(i as int) =~= pre.take(i as int));
        }
        let mut p: usize = 0;
        while p < i && str_le(builds[p].derivation.as_str(), item.derivation.as_str())
            invariant
                p <= i,
                i <= builds@.len(),
                i < pre.len(),
                builds@ == pre.remove(i as int),
                item == pre[i as int],
                forall|k: int|
                    0 <= k < p ==> lex_le(#[trigger] builds@[k].derivation@, item.derivation@),
            decreases i - p,
        {
            p += 1;
        }
        proof {
            // Everything from `p` on in the sorted prefix comes after `item`.
            assert forall|k: int| p <= k < i implies lex_le(
                item.derivation@,
                #[trigger] builds@[k].derivation@,
            ) by {
                assert(p < i);
                assert(!lex_le(builds@[p as int].derivation@, item.derivation@));
                lemma_lex_le_total(builds@[p as int].derivation@, item.derivation@);
                if k > p {
                    assert(builds@[p as int] == pre[p as int]);
                    assert(builds@[k] == pre[k]);
                    assert(lex_le(pre[p as int].derivation@, pre[k].derivation@));
                    lemma_lex_le_trans(
                        item.derivation@,
                        builds@[p as int].derivation@,
                        builds@[k].derivation@,
                    );
                }
            }
        }
        let ghost rem = builds@;
        builds.insert(p, item);
        proof {
            assert(sorted_by_derivation(builds@.take(i as int + 1))) by {
                assert forall|u: int, v: int| 0 <= u < v <= i implies lex_le(
                    #[trigger] builds@.take(i as int + 1)[u].derivation@,
                    #[trigger] builds@.take(i as int + 1)[v].derivation@,
                ) by {
                    let nw = builds@;
                    assert(nw == rem.insert(p as int, item));
                    assert(forall|k: int| 0 <= k < p ==> nw[k] == rem[k]);
                    assert(nw[p as int] == item);
                    assert(forall|k: int| p < k <= i ==> nw[k] == rem[k - 1]);
                    assert(forall|k: int| 0 <= k < i ==> rem[k] == pre[k]);
                    if v < p {
                        assert(lex_le(pre[u].derivation@, pre[v].derivation@));
                    } else if v == p {
                        assert(lex_le(rem[u].derivation@, item.derivation@));
                    } else {
                        if u < p {
                            assert(lex_le(pre[u].derivation@, pre[v - 1].derivation@));
                        } else if u == p {
                            assert(lex_le(item.derivation@, rem[v - 1].derivation@));
                        } else {
                            assert(lex_le(pre[u - 1].derivation@, pre[v - 1].derivation@));
                        }
                    }
                }
            }
            assert(builds@.to_multiset() == old(builds)@.to_multiset()) by {
                vstd::seq_lib::to_multiset_remove(pre, i as int);
                assert(rem.to_multiset() =~= pre.to_multiset().remove(item));
                vstd::seq_lib::to_multiset_insert(rem, p as int, item);
                assert(builds@.to_multiset() =~= rem.to_multiset().insert(item));
                assert(pre.contains(item)) by {
                    assert(pre[i as int] == item);
                }
                vstd::seq_lib::to_multiset_contains(pre, item);
                assert(pre.to_multiset().count(item) > 0);
                assert(builds@.to_multiset() =~= pre.to_multiset());
            }
        }
        i += 1;
    }
    proof {
        assert(builds@.take(builds@.len() as int) =~= builds@);
    }
}

/// The index of the first build whose `nix_pid` is `pid`, if any.
pub open spec fn find_by_nix_pid(s: Seq<Build>, pid: usize) -> Option<int>
    decreases s.len(),
{
    if s.len() == 0 {
        Option::None
    } else if s[0].nix_pid == pid {
        Option::Some(0int)
    } else {
        match find_by_nix_pid(s.drop_first(), pid) {
            Option::None => Option::None,
            Option::Some(i) => Option::Some(i + 1),
        }
    }
}

/// When the first `i` builds miss `pid` and build `i` has it, the find
/// comes out at `i`.
proof fn lemma_find_hit(s: Seq<Build>, pid: usize, i: int)
    requires
        0 <= i < s.len(),
        s[i].nix_pid == pid,
        forall|j: int| 0 <= j < i ==> s[j].nix_pid != pid,
    ensures
        find_by_nix_pid(s, pid) == Option::Some(i),
    decreases i,
{
    if i == 0 {
    } else {
        lemma_find_hit(s.drop_first(), pid, i - 1);
    }
}

/// When no build has `pid`, the find comes out empty.
proof fn lemma_find_miss(s: Seq<Build>, pid: usize)
    requires
        forall|j: int| 0 <= j < s.len() ==> s[j].nix_pid != pid,
    ensures
        find_by_nix_pid(s, pid) == Option::<int>::None,
    decreases s.len(),
{
    if s.len() > 0 {
        lemma_find_miss(s.drop_first(), pid);
    }
}

/// A found index is in range and names a build with the pid looked for,
/// and a miss means no build has it.
pub proof fn lemma_find_characterizes(s: Seq<Build>, pid: usize)
    ensures
        match find_by_nix_pid(s, pid) {
            Option::Some(i) => 0 <= i < s.len() && s[i].nix_pid == pid,
            Option::None => forall|j: int| 0 <= j < s.len() ==> s[j].nix_pid != pid,
        },
    decreases s.len(),
{
    if s.len() > 0 && s[0].nix_pid != pid {
        lemma_find_characterizes(s.drop_first(), pid);
        match find_by_nix_pid(s.drop_first(), pid) {
            Option::Some(i) => {
                assert(s.drop_first()[i] == s[i + 1]);
            },
            Option::None => {
                assert forall|j: int| 0 <= j < s.len() implies s[j].nix_pid != pid by {
                    if j > 0 {
                        assert(s.drop_first()[j - 1] == s[j]);
                    }
                }
            },
        }
    }
}

/// The position of the first build whose `nix_pid` is `pid`.
pub fn position_of_nix_pid(builds: &Vec<Build>, pid: usize) -> (r: Option<usize>)
    ensures
        match r {
            Option::Some(i) => i < builds@.len() && builds@[i as int].nix_pid == pid
                && find_by_nix_pid(builds@, pid) == Option::Some(i as int),
            Option::None => find_by_nix_pid(builds@, pid) == Option::<int>::None,
        },
{
    let mut i: usize = 0;
    while i < builds.len()
        invariant
            i <= builds@.len(),
            forall|j: int| 0 <= j < i ==> builds@[j].nix_pid != pid,
        decreases builds@.len() - i,
    {
        if builds[i].nix_pid == pid {
            proof {
                lemma_find_hit(builds@, pid, i as int);
            }
            return Option::Some(i);
        }
        i += 1;
    }
    proof {
        lemma_find_miss(builds@, pid);
    }
    Option::None
}

} // verus!
