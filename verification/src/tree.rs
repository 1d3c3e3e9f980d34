//! Rendering a build's processes as an ASCII tree.
//!
//! Out of the flat process list of a build, the renderer produces the lines
//! of a box-drawing tree rooted at a given process id: one line for the
//! root's command line, then each child's subtree, the child's first line
//! carrying a branch glyph and its later lines a continuation glyph. A root
//! id that matches no process yields no lines at all.
//!
//! Descent is bounded by one level per process record. On acyclic input the
//! bound is never reached and the tree comes out in full; a cycle in the
//! parent references cuts off instead of recursing forever.

use vstd::prelude::*;

use crate::ps::Build;
use crate::ps::BuildProcess;
use crate::text::join_spaces;
use crate::text::join_with_spaces;

verus! {

/// A process's label: its command line, the arguments joined by spaces.
pub open spec fn label_of(p: BuildProcess) -> Seq<char> {
    join_spaces(p.argv.deep_view())
}

/// The index of the first process whose id is `pid`, if any.
pub open spec fn find_proc(procs: Seq<BuildProcess>, pid: usize) -> Option<int>
    decreases procs.len(),
{
    if procs.len() == 0 {
        Option::None
    } else if procs[0].pid == pid {
        Option::Some(0int)
    } else {
        match find_proc(procs.drop_first(), pid) {
            Option::None => Option::None,
            Option::Some(i) => Option::Some(i + 1),
        }
    }
}

/// When the first `i` processes miss `pid` and process `i` carries it, the
/// find comes out at `i`.
proof fn lemma_find_proc_hit(procs: Seq<BuildProcess>, pid: usize, i: int)
    requires
        0 <= i < procs.len(),
        procs[i].pid == pid,
        forall|j: int| 0 <= j < i ==> procs[j].pid != pid,
    ensures
        find_proc(procs, pid) == Option::Some(i),
    decreases i,
{
    if i > 0 {
        lemma_find_proc_hit(procs.drop_first(), pid, i - 1);
    }
}

/// When no process carries `pid`, the find comes out empty.
proof fn lemma_find_proc_miss(procs: Seq<BuildProcess>, pid: usize)
    requires
        forall|j: int| 0 <= j < procs.len() ==> procs[j].pid != pid,
    ensures
        find_proc(procs, pid) == Option::<int>::None,
    decreases procs.len(),
{
    if procs.len() > 0 {
        lemma_find_proc_miss(procs.drop_first(), pid);
    }
}

/// The position of the first process whose id is `pid`.
fn position_of_pid(procs: &Vec<BuildProcess>, pid: usize) -> (r: Option<usize>)
    ensures
        match r {
            Option::Some(i) => i < procs@.len() && procs@[i as int].pid == pid && find_proc(
                procs@,
                pid,
            ) == Option::Some(i as int),
            Option::None => find_proc(procs@, pid) == Option::<int>::None,
        },
{
    let mut i: usize = 0;
    while i < procs.len()
        invariant
            i <= procs@.len(),
            forall|j: int| 0 <= j < i ==> procs@[j].pid != pid,
        decreases procs@.len() - i,
    {
        if procs[i].pid == pid {
            proof {
                lemma_find_proc_hit(procs@, pid, i as int);
            }
            return Option::Some(i);
        }
        i += 1;
    }
    proof {
        lemma_find_proc_miss(procs@, pid);
    }
    Option::None
}

/// The children of `pid`: every process whose parent is `pid`, in the order
/// the list gives them.
pub open spec fn children_of(procs: Seq<BuildProcess>, pid: usize) -> Seq<BuildProcess>
    decreases procs.len(),
{
    if procs.len() == 0 {
        Seq::<BuildProcess>::empty()
    } else {
        let rest = children_of(procs.drop_last(), pid);
        if procs.last().parent_pid == pid {
            rest.push(procs.last())
        } else {
            rest
        }
    }
}

/// The glyph put before a child's first line: a tee for a child with
/// siblings below it, an elbow for the last one.
pub open spec fn branch_glyph(last: bool) -> Seq<char> {
    if last {
        seq!['└', '─', '─', '─', ' ']
    } else {
        seq!['├', '─', '─', '─', ' ']
    }
}

/// The glyph put before a child's later lines: a bar while siblings follow,
/// blank space under the last child.
pub open spec fn continuation_glyph(last: bool) -> Seq<char> {
    if last {
        seq![' ', ' ', ' ', ' ', ' ']
    } else {
        seq!['│', ' ', ' ', ' ', ' ']
    }
}

/// A child's subtree lines with their prefixes: the first line carries the
/// branch glyph, every later line the continuation glyph.
pub open spec fn prefixed(lines: Seq<Seq<char>>, last: bool) -> Seq<Seq<char>> {
    Seq::new(
        lines.len(),
        |i: int|
            (if i == 0 {
                branch_glyph(last)
            } else {
                continuation_glyph(last)
            }) + lines[i],
    )
}

/// The tree lines rooted at `pid`: the root's label, then each child's
/// prefixed subtree. No line comes out when `pid` matches no process or the
/// descent bound `fuel` is spent.
pub open spec fn tree_lines(procs: Seq<BuildProcess>, pid: usize, fuel: nat) -> Seq<Seq<char>>
    decreases fuel, 0int, 0int,
{
    if fuel == 0 {
        Seq::<Seq<char>>::empty()
    } else {
        match find_proc(procs, pid) {
            Option::None => Seq::<Seq<char>>::empty(),
            Option::Some(t) => {
                let kids = children_of(procs, pid);
                seq![label_of(procs[t])] + children_lines(
                    procs,
                    kids,
                    (fuel - 1) as nat,
                    kids.len() as int,
                )
            },
        }
    }
}

/// The prefixed subtree lines of the first `k` children, in order.
pub open spec fn children_lines(
    procs: Seq<BuildProcess>,
    kids: Seq<BuildProcess>,
    fuel: nat,
    k: int,
) -> Seq<Seq<char>>
    decreases fuel, 1int, k,
{
    if k <= 0 {
        Seq::<Seq<char>>::empty()
    } else {
        children_lines(procs, kids, fuel, k - 1) + prefixed(
            tree_lines(procs, kids[k - 1].pid, fuel),
            k == kids.len(),
        )
    }
}

/// What `render_tree` produces for the processes `procs` and the root `pid`.
pub open spec fn spec_render_tree(procs: Seq<BuildProcess>, pid: usize) -> Seq<Seq<char>> {
    tree_lines(procs, pid, procs.len())
}

fn branch_str(last: bool) -> (r: &'static str)
    ensures
        r@ == branch_glyph(last),
{
    if last {
        proof {
            reveal_strlit("└─── ");
            assert("└─── "@ =~= seq!['└', '─', '─', '─', ' ']);
        }
        "└─── "
    } else {
        proof {
            reveal_strlit("├─── ");
            assert("├─── "@ =~= seq!['├', '─', '─', '─', ' ']);
        }
        "├─── "
    }
}

fn continuation_str(last: bool) -> (r: &'static str)
    ensures
        r@ == continuation_glyph(last),
{
    if last {
        proof {
            reveal_strlit("     ");
            assert("     "@ =~= seq![' ', ' ', ' ', ' ', ' ']);
        }
        "     "
    } else {
        proof {
            reveal_strlit("│    ");
            assert("│    "@ =~= seq!['│', ' ', ' ', ' ', ' ']);
        }
        "│    "
    }
}

/// The indices of the children of `pid`, in list order.
fn child_indices(procs: &Vec<BuildProcess>, pid: usize) -> (r: Vec<usize>)
    ensures
        r@.len() == children_of(procs@, pid).len(),
        forall|m: int|
            0 <= m < r@.len() ==> r@[m] < procs@.len() && procs@[#[trigger] r@[m] as int]
                == children_of(procs@, pid)[m],
{
    let mut out: Vec<usize> = Vec::new();
    let mut i: usize = 0;
    while i < procs.len()
        invariant
            i <= procs@.len(),
            out@.len() == children_of(procs@.take(i as int), pid).len(),
            forall|m: int|
                0 <= m < out@.len() ==> out@[m] < i && procs@[#[trigger] out@[m] as int]
                    == children_of(procs@.take(i as int), pid)[m],
        decreases procs@.len() - i,
    {
        proof {
            assert(procs@.take(i as int + 1).drop_last() =~= procs@.take(i as int));
            assert(procs@.take(i as int + 1).last() == procs@[i as int]);
        }
        if procs[i].parent_pid == pid {
            out.push(i);
        }
        i += 1;
    }
    proof {
        assert(procs@.take(procs@.len() as int) =~= procs@);
    }
    out
}

/// Renders the subtree rooted at `pid`, spending one unit of `fuel` per
/// level of descent.
fn render_subtree(procs: &Vec<BuildProcess>, pid: usize, fuel: usize) -> (r: Vec<String>)
    ensures
        r.deep_view() == tree_lines(procs@, pid, fuel as nat),
    decreases fuel,
{
    let mut out: Vec<String> = Vec::new();
    if fuel == 0 {
        proof {
            assert(out.deep_view() =~~= tree_lines(procs@, pid, fuel as nat));
        }
        return out;
    }
    let top = match position_of_pid(procs, pid) {
        Option::None => {
            proof {
                assert(out.deep_view() =~~= tree_lines(procs@, pid, fuel as nat));
            }
            return out;
        },
        Option::Some(t) => t,
    };
    out.push(join_with_spaces(&procs[top].argv));
    let ghost root_label = label_of(procs@[top as int]);
    proof {
        assert(out.deep_view() =~~= seq![root_label]);
    }

    let kids = child_indices(procs, pid);
    let ghost kseq = children_of(procs@, pid);
    let mut k: usize = 0;
    while k < kids.len()
        invariant
            k <= kids@.len(),
            kids@.len() == kseq.len(),
            kseq == children_of(procs@, pid),
            forall|m: int|
                0 <= m < kids@.len() ==> kids@[m] < procs@.len() && procs@[#[trigger] kids@[m] as int]
                    == kseq[m],
            fuel >= 1,
            out.deep_view() == seq![root_label] + children_lines(
                procs@,
                kseq,
                (fuel - 1) as nat,
                k as int,
            ),
        decreases kids@.len() - k,
    {
        let child_pid = procs[kids[k]].pid;
        let sub = render_subtree(procs, child_pid, fuel - 1);
        let is_last = k == kids.len() - 1;
        proof {
            assert(child_pid == kseq[k as int].pid);
            assert(is_last == (k as int + 1 == kseq.len()));
        }
        let ghost base = out.deep_view();
        let ghost subv = sub.deep_view();
        let mut m: usize = 0;
        while m < sub.len()
            invariant
                m <= sub@.len(),
                sub.deep_view() == subv,
                out.deep_view() == base + prefixed(subv, is_last).take(m as int),
            decreases sub@.len() - m,
        {
            let g: &str = if m == 0 {
                branch_str(is_last)
            } else {
                continuation_str(is_last)
            };
            let mut line = g.to_owned();
            line.append(sub[m].as_str());
            let ghost prevdv = out.deep_view();
            out.push(line);
            proof {
                assert(sub@[m as int].deep_view() == subv[m as int]);
                assert(line@ == prefixed(subv, is_last)[m as int]);
                assert(out.deep_view().len() == prevdv.len() + 1);
                assert(forall|j: int| 0 <= j < prevdv.len() ==> out.deep_view()[j] == prevdv[j]);
                assert(out.deep_view()[prevdv.len() as int] == line@);
                assert(out.deep_view() =~~= prevdv.push(line@));
                assert(prevdv.push(line@) =~~= base + prefixed(subv, is_last).take(m as int + 1));
            }
            m += 1;
        }
        proof {
            assert(prefixed(subv, is_last).take(subv.len() as int) =~= prefixed(subv, is_last));
            assert(out.deep_view() =~~= seq![root_label] + children_lines(
                procs@,
                kseq,
                (fuel - 1) as nat,
                k as int + 1,
            ));
        }
        k += 1;
    }
    proof {
        assert(out.deep_view() =~~= tree_lines(procs@, pid, fuel as nat));
    }
    out
}

/// Renders the process tree of `build` rooted at the process whose id is
/// `pid`, one line per process. A root id that matches no process gives an
/// empty result, not an error.
pub fn render_tree(build: &Build, pid: usize) -> (r: Vec<String>)
    ensures
        r.deep_view() == spec_render_tree(build.processes@, pid),
        (forall|i: int|
            0 <= i < build.processes@.len() ==> (#[trigger] build.processes@[i]).pid != pid)
            ==> r@.len() == 0,
{
    let r = render_subtree(&build.processes, pid, build.processes.len());
    proof {
        if forall|i: int|
            0 <= i < build.processes@.len() ==> (#[trigger] build.processes@[i]).pid != pid {
            if build.processes@.len() > 0 {
                lemma_find_proc_miss(build.processes@, pid);
            }
            assert(r.deep_view().len() == r@.len());
        }
    }
    r
}

} // verus!
