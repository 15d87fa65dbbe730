//! Pane-grid layout manager: a binary tree of split nodes over pane
//! leaves, supporting split, close (with sibling promotion), resize,
//! drag-and-drop, adjacency-based focus movement, and the per-pane bell
//! flag.

use vstd::prelude::*;
use crate::bindings::KeyCode;

verus! {

/// One leaf of the layout tree. A pinned pane rejects close requests; the
/// bell flag marks a recently rung bell.
#[derive(Clone, Copy, Debug, PartialEq, Eq, Structural)]
pub struct Pane {
    pub id: u64,
    pub is_pinned: bool,
    pub bell: bool,
}

impl Pane {
    pub fn new(id: u64) -> (r: Pane)
        ensures
            r == (Pane { id, is_pinned: false, bell: false }),
    {
        Pane { id, is_pinned: false, bell: false }
    }
}

/// The direction a split divides its region.
#[derive(Clone, Copy, Debug, PartialEq, Eq, Structural)]
pub enum Axis {
    /// One region above the other.
    Horizontal,
    /// One region beside the other.
    Vertical,
}

/// The layout tree: leaves are panes; an internal node splits its region
/// between two subtrees at `ratio` thousandths.
#[derive(Debug)]
pub enum PaneNode {
    Leaf(Pane),
    Split {
        axis: Axis,
        /// The first subtree's share, in thousandths, strictly between 0
        /// and 1000.
        ratio: u32,
        split_id: u64,
        first: Box<PaneNode>,
        second: Box<PaneNode>,
    },
}

/// The panes of the tree, leftmost leaf first.
pub open spec fn leaves(n: PaneNode) -> Seq<Pane>
    decreases n,
{
    match n {
        PaneNode::Leaf(p) => seq![p],
        PaneNode::Split { first, second, .. } => leaves(*first) + leaves(*second),
    }
}

pub open spec fn has_pane(n: PaneNode, id: u64) -> bool {
    exists|i: int| 0 <= i < leaves(n).len() && (#[trigger] leaves(n)[i]).id == id
}

/// Well-formedness: every ratio lies strictly inside (0, 1000), and no
/// pane identifier repeats.
pub open spec fn node_wf(n: PaneNode) -> bool
    decreases n,
{
    match n {
        PaneNode::Leaf(p) => true,
        PaneNode::Split { ratio, first, second, .. } => {
            &&& 0 < ratio < 1000
            &&& node_wf(*first)
            &&& node_wf(*second)
            &&& forall|i: int, j: int|
                0 <= i < leaves(*first).len() && 0 <= j < leaves(*second).len() ==> (
                #[trigger] leaves(*first)[i]).id != (#[trigger] leaves(*second)[j]).id
        },
    }
}

/// All pane identifiers in the tree lie below `bound`.
pub open spec fn pane_ids_below(n: PaneNode, bound: u64) -> bool {
    forall|i: int| 0 <= i < leaves(n).len() ==> (#[trigger] leaves(n)[i]).id < bound
}

/// Distinct leaves of a well-formed tree carry distinct identifiers.
proof fn lemma_wf_distinct_ids(n: PaneNode, i: int, j: int)
    requires
        node_wf(n),
        0 <= i < leaves(n).len(),
        0 <= j < leaves(n).len(),
        i != j,
    ensures
        leaves(n)[i].id != leaves(n)[j].id,
    decreases n,
{
    match n {
        PaneNode::Leaf(p) => {
            assert(leaves(n).len() == 1);
        },
        PaneNode::Split { first, second, .. } => {
            let fl = leaves(*first).len() as int;
            if i < fl && j < fl {
                lemma_wf_distinct_ids(*first, i, j);
                assert(leaves(n)[i] == leaves(*first)[i]);
                assert(leaves(n)[j] == leaves(*first)[j]);
            } else if i >= fl && j >= fl {
                lemma_wf_distinct_ids(*second, i - fl, j - fl);
                assert(leaves(n)[i] == leaves(*second)[i - fl]);
                assert(leaves(n)[j] == leaves(*second)[j - fl]);
            } else if i < fl {
                assert(leaves(n)[i] == leaves(*first)[i]);
                assert(leaves(n)[j] == leaves(*second)[j - fl]);
            } else {
                assert(leaves(n)[i] == leaves(*second)[i - fl]);
                assert(leaves(n)[j] == leaves(*first)[j]);
            }
        },
    }
}

/// A tree whose leaves are the concatenation of two subtrees' leaves holds
/// a pane exactly when one of the subtrees does.
proof fn lemma_has_pane_parts(f: PaneNode, s: PaneNode, n: PaneNode, id: u64)
    requires
        leaves(n) == leaves(f) + leaves(s),
    ensures
        has_pane(n, id) <==> (has_pane(f, id) || has_pane(s, id)),
{
    let lf = leaves(f);
    let ls = leaves(s);
    if has_pane(f, id) {
        let i = choose|i: int| 0 <= i < lf.len() && (#[trigger] lf[i]).id == id;
        assert(leaves(n)[i].id == id);
    }
    if has_pane(s, id) {
        let i = choose|i: int| 0 <= i < ls.len() && (#[trigger] ls[i]).id == id;
        assert(leaves(n)[lf.len() + i].id == id);
    }
    if has_pane(n, id) {
        let i = choose|i: int| 0 <= i < leaves(n).len() && (#[trigger] leaves(n)[i]).id == id;
        if i < lf.len() {
            assert(lf[i].id == id);
        } else {
            assert(ls[i - lf.len()].id == id);
        }
    }
}

proof fn lemma_seq_self_contains(s: Seq<Pane>, k: int)
    requires
        0 <= k < s.len(),
    ensures
        s.contains(s[k]),
{
    assert(s[k] == s[k]);
}

/// Membership in a part gives membership in the concatenation.
proof fn lemma_part_contains(f: Seq<Pane>, s: Seq<Pane>, w: Seq<Pane>, x: Pane)
    requires
        w == f + s,
        f.contains(x) || s.contains(x),
    ensures
        w.contains(x),
{
    if f.contains(x) {
        let j = choose|j: int| 0 <= j < f.len() && f[j] == x;
        assert(w[j] == x);
    } else {
        let j = choose|j: int| 0 <= j < s.len() && s[j] == x;
        assert(w[f.len() + j] == x);
    }
}

/// Splits the leaf holding pane `target` into a split node whose first
/// child keeps the old pane and whose second child is the new pane, at an
/// even ratio. Returns whether the target was found; an unknown target
/// leaves the tree unchanged.
pub fn tree_split(node: PaneNode, target: u64, axis: Axis, new_pane: Pane, split_id: u64) -> (r: (
    PaneNode,
    bool,
))
    requires
        node_wf(node),
        !has_pane(node, new_pane.id),
    ensures
        r.1 == has_pane(node, target),
        !r.1 ==> r.0 == node,
        r.1 ==> exists|i: int|
            0 <= i < leaves(node).len() && (#[trigger] leaves(node)[i]).id == target && leaves(r.0)
                =~= leaves(node).insert(i + 1, new_pane),
        forall|k: int|
            0 <= k < leaves(r.0).len() ==> (#[trigger] leaves(r.0)[k]) == new_pane || leaves(
                node,
            ).contains(leaves(r.0)[k]),
        node_wf(r.0),
    decreases node,
{
    match node {
        PaneNode::Leaf(p) => {
            if p.id == target {
                let r = PaneNode::Split {
                    axis,
                    ratio: 500,
                    split_id,
                    first: Box::new(PaneNode::Leaf(p)),
                    second: Box::new(PaneNode::Leaf(new_pane)),
                };
                proof {
                    assert(leaves(node)[0] == p);
                    assert(leaves(PaneNode::Leaf(p)) =~= seq![p]);
                    assert(leaves(PaneNode::Leaf(new_pane)) =~= seq![new_pane]);
                    assert(leaves(r) =~= seq![p] + seq![new_pane]);
                    assert(leaves(r) =~= leaves(node).insert(1, new_pane));
                    assert(p.id != new_pane.id) by {
                        if p.id == new_pane.id {
                            assert(has_pane(node, new_pane.id));
                        }
                    }
                    assert(node_wf(PaneNode::Leaf(p)));
                    assert(node_wf(PaneNode::Leaf(new_pane)));
                    assert(leaves(node).contains(p)) by {
                        assert(leaves(node)[0] == p);
                    }
                }
                (r, true)
            } else {
                proof {
                    assert(leaves(node)[0] == p);
                    assert(leaves(node).contains(p)) by {
                        assert(leaves(node)[0] == p);
                    }
                }
                (PaneNode::Leaf(p), false)
            }
        },
        PaneNode::Split { axis: a, ratio, split_id: sid, first, second } => {
            let ghost old_node = node;
            proof {
                lemma_has_pane_parts(*first, *second, old_node, new_pane.id);
            }
            let (f, found_first) = tree_split(*first, target, axis, new_pane, split_id);
            if found_first {
                let r = PaneNode::Split { axis: a, ratio, split_id: sid, first: Box::new(f), second };
                proof {
                    let fs = *old_node->Split_first;
                    let ss = *old_node->Split_second;
                    let i = choose|i: int|
                        0 <= i < leaves(fs).len() && (#[trigger] leaves(fs)[i]).id == target
                            && leaves(f) =~= leaves(fs).insert(i + 1, new_pane);
                    assert(leaves(old_node)[i].id == target);
                    assert(leaves(r) =~= leaves(old_node).insert(i + 1, new_pane));
                    assert forall|k: int| 0 <= k < leaves(r).len() implies (#[trigger] leaves(r)[k])
                        == new_pane || leaves(old_node).contains(leaves(r)[k]) by {
                        if k < leaves(f).len() {
                            assert(leaves(r)[k] == leaves(f)[k]);
                            if leaves(f)[k] != new_pane {
                                lemma_part_contains(
                                    leaves(fs),
                                    leaves(ss),
                                    leaves(old_node),
                                    leaves(f)[k],
                                );
                            }
                        } else {
                            assert(leaves(r)[k] == leaves(ss)[k - leaves(f).len()]);
                            lemma_seq_self_contains(leaves(ss), k - leaves(f).len());
                            lemma_part_contains(
                                leaves(fs),
                                leaves(ss),
                                leaves(old_node),
                                leaves(ss)[k - leaves(f).len()],
                            );
                        }
                    }
                    assert forall|x: int, y: int|
                        0 <= x < leaves(f).len() && 0 <= y < leaves(ss).len() implies (
                    #[trigger] leaves(f)[x]).id != (#[trigger] leaves(ss)[y]).id by {
                        if leaves(f)[x] == new_pane {
                            if leaves(ss)[y].id == new_pane.id {
                                assert(has_pane(ss, new_pane.id));
                            }
                        } else {
                            assert(leaves(fs).contains(leaves(f)[x]));
                            let j = choose|j: int|
                                0 <= j < leaves(fs).len() && (#[trigger] leaves(fs)[j]) == leaves(
                                    f,
                                )[x];
                        }
                    }
                    assert(node_wf(r));
                }
                (r, true)
            } else {
                proof {
                    lemma_has_pane_parts(*first, *second, old_node, target);
                }
                let (s, found_second) = tree_split(*second, target, axis, new_pane, split_id);
                let r = PaneNode::Split { axis: a, ratio, split_id: sid, first: Box::new(f), second: Box::new(s) };
                proof {
                    let fs = *old_node->Split_first;
                    let ss = *old_node->Split_second;
                    assert(leaves(f) == leaves(fs));
                    if found_second {
                        let fl = leaves(fs).len() as int;
                        let i = choose|i: int|
                            0 <= i < leaves(ss).len() && (#[trigger] leaves(ss)[i]).id == target
                                && leaves(s) =~= leaves(ss).insert(i + 1, new_pane);
                        assert(leaves(old_node)[fl + i].id == target);
                        assert(leaves(r) =~= leaves(old_node).insert(fl + i + 1, new_pane));
                    } else {
                        assert(leaves(s) == leaves(ss));
                        assert(leaves(r) =~= leaves(old_node));
                        assert(!has_pane(old_node, target));
                    }
                    assert forall|k: int| 0 <= k < leaves(r).len() implies (#[trigger] leaves(r)[k])
                        == new_pane || leaves(old_node).contains(leaves(r)[k]) by {
                        if k < leaves(f).len() {
                            assert(leaves(r)[k] == leaves(fs)[k]);
                            lemma_seq_self_contains(leaves(fs), k);
                            lemma_part_contains(
                                leaves(fs),
                                leaves(ss),
                                leaves(old_node),
                                leaves(fs)[k],
                            );
                        } else {
                            assert(leaves(r)[k] == leaves(s)[k - leaves(f).len()]);
                            if leaves(s)[k - leaves(f).len()] != new_pane {
                                lemma_part_contains(
                                    leaves(fs),
                                    leaves(ss),
                                    leaves(old_node),
                                    leaves(s)[k - leaves(f).len()],
                                );
                            }
                        }
                    }
                    assert forall|x: int, y: int|
                        0 <= x < leaves(f).len() && 0 <= y < leaves(s).len() implies (
                    #[trigger] leaves(f)[x]).id != (#[trigger] leaves(s)[y]).id by {
                        if leaves(s)[y] == new_pane {
                            if leaves(fs)[x].id == new_pane.id {
                                assert(has_pane(fs, new_pane.id));
                            }
                        } else {
                            assert(leaves(ss).contains(leaves(s)[y]));
                            let j = choose|j: int|
                                0 <= j < leaves(ss).len() && (#[trigger] leaves(ss)[j]) == leaves(
                                    s,
                                )[y];
                        }
                    }
                    assert(node_wf(r));
                }
                (r, found_second)
            }
        },
    }
}

/// The leftmost pane of the tree.
pub open spec fn first_pane(n: PaneNode) -> Pane
    decreases n,
{
    match n {
        PaneNode::Leaf(p) => p,
        PaneNode::Split { first, .. } => first_pane(*first),
    }
}

proof fn lemma_first_pane(n: PaneNode)
    ensures
        leaves(n).len() > 0,
        leaves(n)[0] == first_pane(n),
    decreases n,
{
    match n {
        PaneNode::Leaf(p) => {},
        PaneNode::Split { first, .. } => {
            lemma_first_pane(*first);
        },
    }
}

fn first_pane_id(n: &PaneNode) -> (r: u64)
    ensures
        r == first_pane(*n).id,
    decreases *n,
{
    match n {
        PaneNode::Leaf(p) => p.id,
        PaneNode::Split { first, .. } => first_pane_id(first),
    }
}

/// Removes the leaf holding pane `target` and promotes its sibling
/// subtree. Returns the closed pane and the identifier of the promoted
/// sibling's leftmost pane. A lone leaf is never removed: on a leaf root
/// the call returns the tree unchanged and nothing closed, and the caller
/// forwards a window-close request instead; an unknown target is a no-op.
#[verifier::rlimit(60)]
pub fn tree_close(node: PaneNode, target: u64) -> (r: (PaneNode, Option<(Pane, u64)>))
    requires
        node_wf(node),
    ensures
        node matches PaneNode::Leaf(_) ==> r.0 == node && r.1 is None,
        r.1 is None ==> r.0 == node && (node matches PaneNode::Split { .. } ==> !has_pane(
            node,
            target,
        )),
        r.1 matches Some((closed, sib)) ==> closed.id == target && exists|i: int|
            0 <= i < leaves(node).len() && #[trigger] leaves(node)[i] == closed && leaves(node)[i].id
                == target && leaves(r.0) =~= leaves(node).remove(i),
        r.1 matches Some((closed, sib)) ==> has_pane(r.0, sib),
        forall|k: int|
            0 <= k < leaves(r.0).len() ==> leaves(node).contains(#[trigger] leaves(r.0)[k]),
        node_wf(r.0),
    decreases node,
{
    match node {
        PaneNode::Leaf(p) => {
            proof {
                lemma_seq_self_contains(leaves(node), 0);
            }
            (PaneNode::Leaf(p), None)
        },
        PaneNode::Split { axis: a, ratio, split_id: sid, first, second } => {
            let ghost old_node = node;
            let first_target: Option<Pane> = match &*first {
                PaneNode::Leaf(p) => if p.id == target {
                    Some(*p)
                } else {
                    None
                },
                _ => None,
            };
            if let Some(p) = first_target {
                let sib = first_pane_id(&*second);
                proof {
                    let fs = *old_node->Split_first;
                    let ss = *old_node->Split_second;
                    lemma_first_pane(ss);
                    assert(fs == PaneNode::Leaf(p));
                    assert(leaves(fs) =~= seq![p]);
                    assert(leaves(old_node)[0] == p);
                    assert(leaves(ss) =~= leaves(old_node).remove(0));
                    assert(has_pane(ss, sib)) by {
                        assert(leaves(ss)[0].id == sib);
                    }
                    assert forall|k: int| 0 <= k < leaves(ss).len() implies leaves(
                        old_node,
                    ).contains(#[trigger] leaves(ss)[k]) by {
                        lemma_seq_self_contains(leaves(ss), k);
                        lemma_part_contains(leaves(fs), leaves(ss), leaves(old_node), leaves(ss)[k]);
                    }
                }
                return (*second, Some((p, sib)));
            }
            let second_target: Option<Pane> = match &*second {
                PaneNode::Leaf(p) => if p.id == target {
                    Some(*p)
                } else {
                    None
                },
                _ => None,
            };
            if let Some(p) = second_target {
                let sib = first_pane_id(&*first);
                proof {
                    let fs = *old_node->Split_first;
                    let ss = *old_node->Split_second;
                    lemma_first_pane(fs);
                    assert(ss == PaneNode::Leaf(p));
                    assert(leaves(ss) =~= seq![p]);
                    let fl = leaves(fs).len() as int;
                    assert(leaves(old_node)[fl] == p);
                    assert(leaves(fs) =~= leaves(old_node).remove(fl));
                    assert(has_pane(fs, sib)) by {
                        assert(leaves(fs)[0].id == sib);
                    }
                    assert forall|k: int| 0 <= k < leaves(fs).len() implies leaves(
                        old_node,
                    ).contains(#[trigger] leaves(fs)[k]) by {
                        lemma_seq_self_contains(leaves(fs), k);
                        lemma_part_contains(leaves(fs), leaves(ss), leaves(old_node), leaves(fs)[k]);
                    }
                }
                return (*first, Some((p, sib)));
            }
            let (f, res_first) = tree_close(*first, target);
            if res_first.is_some() {
                let r = PaneNode::Split { axis: a, ratio, split_id: sid, first: Box::new(f), second };
                proof {
                    let fs = *old_node->Split_first;
                    let ss = *old_node->Split_second;
                    let (closed, sib) = res_first->0;
                    let i = choose|i: int|
                        0 <= i < leaves(fs).len() && #[trigger] leaves(fs)[i] == closed && leaves(
                            fs,
                        )[i].id == target && leaves(f) =~= leaves(fs).remove(i);
                    assert(leaves(old_node)[i] == closed);
                    assert(leaves(r) =~= leaves(old_node).remove(i));
                    assert(has_pane(r, sib)) by {
                        let j = choose|j: int|
                            0 <= j < leaves(f).len() && (#[trigger] leaves(f)[j]).id == sib;
                        assert(leaves(r)[j].id == sib);
                    }
                    assert forall|k: int| 0 <= k < leaves(r).len() implies leaves(
                        old_node,
                    ).contains(#[trigger] leaves(r)[k]) by {
                        if k < leaves(f).len() {
                            assert(leaves(fs).contains(leaves(f)[k]));
                            lemma_part_contains(leaves(fs), leaves(ss), leaves(old_node), leaves(f)[k]);
                        } else {
                            assert(leaves(r)[k] == leaves(ss)[k - leaves(f).len()]);
                            lemma_seq_self_contains(leaves(ss), k - leaves(f).len());
                            lemma_part_contains(
                                leaves(fs),
                                leaves(ss),
                                leaves(old_node),
                                leaves(ss)[k - leaves(f).len()],
                            );
                        }
                    }
                    assert forall|x: int, y: int|
                        0 <= x < leaves(f).len() && 0 <= y < leaves(ss).len() implies (
                    #[trigger] leaves(f)[x]).id != (#[trigger] leaves(ss)[y]).id by {
                        assert(leaves(fs).contains(leaves(f)[x]));
                        let j = choose|j: int|
                            0 <= j < leaves(fs).len() && (#[trigger] leaves(fs)[j]) == leaves(f)[x];
                    }
                    assert(node_wf(r));
                }
                return (r, res_first);
            }
            let (s, res_second) = tree_close(*second, target);
            let r = PaneNode::Split { axis: a, ratio, split_id: sid, first: Box::new(f), second: Box::new(s) };
            proof {
                let fs = *old_node->Split_first;
                let ss = *old_node->Split_second;
                assert(leaves(f) == leaves(fs));
                let fl = leaves(fs).len() as int;
                if res_second is Some {
                    let (closed, sib) = res_second->0;
                    let i = choose|i: int|
                        0 <= i < leaves(ss).len() && #[trigger] leaves(ss)[i] == closed && leaves(
                            ss,
                        )[i].id == target && leaves(s) =~= leaves(ss).remove(i);
                    assert(leaves(old_node)[fl + i] == closed);
                    assert(leaves(r) =~= leaves(old_node).remove(fl + i));
                    assert(has_pane(r, sib)) by {
                        let j = choose|j: int|
                            0 <= j < leaves(s).len() && (#[trigger] leaves(s)[j]).id == sib;
                        assert(leaves(r)[fl + j].id == sib);
                    }
                } else {
                    assert(leaves(s) == leaves(ss));
                    assert(leaves(r) =~= leaves(old_node));
                    assert(r == old_node);
                    lemma_has_pane_parts(fs, ss, old_node, target);
                }
                assert forall|k: int| 0 <= k < leaves(r).len() implies leaves(old_node).contains(
                    #[trigger] leaves(r)[k],
                ) by {
                    if k < leaves(f).len() {
                        lemma_seq_self_contains(leaves(fs), k);
                        lemma_part_contains(leaves(fs), leaves(ss), leaves(old_node), leaves(fs)[k]);
                    } else {
                        assert(leaves(r)[k] == leaves(s)[k - leaves(f).len()]);
                        assert(leaves(ss).contains(leaves(s)[k - leaves(f).len()]));
                        lemma_part_contains(
                            leaves(fs),
                            leaves(ss),
                            leaves(old_node),
                            leaves(s)[k - leaves(f).len()],
                        );
                    }
                }
                assert forall|x: int, y: int|
                    0 <= x < leaves(f).len() && 0 <= y < leaves(s).len() implies (
                #[trigger] leaves(f)[x]).id != (#[trigger] leaves(s)[y]).id by {
                    assert(leaves(ss).contains(leaves(s)[y]));
                    let j = choose|j: int|
                        0 <= j < leaves(ss).len() && (#[trigger] leaves(ss)[j]) == leaves(s)[y];
                }
                assert(node_wf(r));
            }
            (r, res_second)
        },
    }
}

/// `m` is `n` with the ratio of every split named `split` set to `ratio`
/// and nothing else changed.
pub open spec fn resized(n: PaneNode, m: PaneNode, split: u64, ratio: u32) -> bool
    decreases n,
{
    match (n, m) {
        (PaneNode::Leaf(p), PaneNode::Leaf(q)) => p == q,
        (
            PaneNode::Split { axis: a1, ratio: r1, split_id: s1, first: f1, second: sec1 },
            PaneNode::Split { axis: a2, ratio: r2, split_id: s2, first: f2, second: sec2 },
        ) => {
            &&& a1 == a2
            &&& s1 == s2
            &&& (s1 == split ==> r2 == ratio)
            &&& (s1 != split ==> r2 == r1)
            &&& resized(*f1, *f2, split, ratio)
            &&& resized(*sec1, *sec2, split, ratio)
        },
        _ => false,
    }
}

/// Sets the ratio of the split named `split`, leaving panes and structure
/// untouched.
pub fn tree_resize(node: PaneNode, split: u64, ratio: u32) -> (r: PaneNode)
    requires
        node_wf(node),
        0 < ratio < 1000,
    ensures
        resized(node, r, split, ratio),
        leaves(r) == leaves(node),
        node_wf(r),
    decreases node,
{
    match node {
        PaneNode::Leaf(p) => PaneNode::Leaf(p),
        PaneNode::Split { axis: a, ratio: old_ratio, split_id: sid, first, second } => {
            let ghost old_node = node;
            let new_ratio = if sid == split {
                ratio
            } else {
                old_ratio
            };
            let f = tree_resize(*first, split, ratio);
            let s = tree_resize(*second, split, ratio);
            let r = PaneNode::Split {
                axis: a,
                ratio: new_ratio,
                split_id: sid,
                first: Box::new(f),
                second: Box::new(s),
            };
            proof {
                assert(leaves(r) =~= leaves(old_node));
                assert(node_wf(r));
                assert(resized(old_node, r, split, ratio));
            }
            r
        },
    }
}

/// Sets or clears the bell flag of pane `target`. Identifiers, pinning and
/// leaf order stay as they were; an unknown target changes nothing.
pub fn tree_set_bell(node: PaneNode, target: u64, value: bool) -> (r: (PaneNode, bool))
    requires
        node_wf(node),
    ensures
        r.1 == has_pane(node, target),
        !r.1 ==> r.0 == node,
        leaves(r.0).len() == leaves(node).len(),
        forall|k: int|
            0 <= k < leaves(node).len() ==> (#[trigger] leaves(r.0)[k]).id == leaves(node)[k].id
                && leaves(r.0)[k].is_pinned == leaves(node)[k].is_pinned,
        forall|k: int|
            0 <= k < leaves(node).len() ==> (#[trigger] leaves(r.0)[k]).bell == (if leaves(
                node,
            )[k].id == target {
                value
            } else {
                leaves(node)[k].bell
            }),
        node_wf(r.0),
    decreases node,
{
    match node {
        PaneNode::Leaf(p) => {
            if p.id == target {
                let q = Pane { id: p.id, is_pinned: p.is_pinned, bell: value };
                proof {
                    assert(leaves(node)[0] == p);
                    assert(leaves(PaneNode::Leaf(q))[0] == q);
                }
                (PaneNode::Leaf(q), true)
            } else {
                proof {
                    assert(leaves(node)[0] == p);
                }
                (PaneNode::Leaf(p), false)
            }
        },
        PaneNode::Split { axis: a, ratio, split_id: sid, first, second } => {
            let ghost old_node = node;
            proof {
                lemma_has_pane_parts(*first, *second, old_node, target);
            }
            let (f, found_first) = tree_set_bell(*first, target, value);
            let (s, found_second) = tree_set_bell(*second, target, value);
            let r = PaneNode::Split {
                axis: a,
                ratio,
                split_id: sid,
                first: Box::new(f),
                second: Box::new(s),
            };
            proof {
                let fs = *old_node->Split_first;
                let ss = *old_node->Split_second;
                assert(leaves(r) == leaves(f) + leaves(s));
                assert(leaves(r).len() == leaves(old_node).len());
                if !found_first && !found_second {
                    assert(r == old_node);
                }
                assert forall|k: int| 0 <= k < leaves(old_node).len() implies (#[trigger] leaves(
                    r,
                )[k]).id == leaves(old_node)[k].id && leaves(r)[k].is_pinned == leaves(
                    old_node,
                )[k].is_pinned by {
                    if k < leaves(f).len() {
                        assert(leaves(r)[k] == leaves(f)[k]);
                        assert(leaves(old_node)[k] == leaves(fs)[k]);
                    } else {
                        assert(leaves(r)[k] == leaves(s)[k - leaves(f).len()]);
                        assert(leaves(old_node)[k] == leaves(ss)[k - leaves(fs).len()]);
                    }
                }
                assert forall|k: int| 0 <= k < leaves(old_node).len() implies (#[trigger] leaves(
                    r,
                )[k]).bell == (if leaves(old_node)[k].id == target {
                    value
                } else {
                    leaves(old_node)[k].bell
                }) by {
                    if k < leaves(f).len() {
                        assert(leaves(r)[k] == leaves(f)[k]);
                        assert(leaves(old_node)[k] == leaves(fs)[k]);
                    } else {
                        assert(leaves(r)[k] == leaves(s)[k - leaves(f).len()]);
                        assert(leaves(old_node)[k] == leaves(ss)[k - leaves(fs).len()]);
                    }
                }
                assert forall|x: int, y: int|
                    0 <= x < leaves(f).len() && 0 <= y < leaves(s).len() implies (
                #[trigger] leaves(f)[x]).id != (#[trigger] leaves(s)[y]).id by {
                    assert(leaves(f)[x].id == leaves(fs)[x].id);
                    assert(leaves(s)[y].id == leaves(ss)[y].id);
                }
                assert(node_wf(r));
            }
            (r, found_first || found_second)
        },
    }
}

/// The pane with the given identifier, if the tree holds it.
pub fn find_pane(node: &PaneNode, id: u64) -> (r: Option<Pane>)
    ensures
        r matches Some(p) ==> p.id == id && leaves(*node).contains(p),
        r is None ==> !has_pane(*node, id),
    decreases *node,
{
    match node {
        PaneNode::Leaf(p) => {
            if p.id == id {
                proof {
                    lemma_seq_self_contains(leaves(*node), 0);
                }
                Some(*p)
            } else {
                proof {
                    assert(leaves(*node)[0] == *p);
                }
                None
            }
        },
        PaneNode::Split { first, second, .. } => {
            proof {
                lemma_has_pane_parts(**first, **second, *node, id);
            }
            let r1 = find_pane(first, id);
            if let Some(p) = r1 {
                proof {
                    let j = choose|j: int|
                        0 <= j < leaves(**first).len() && (#[trigger] leaves(**first)[j]) == p;
                    lemma_part_contains(leaves(**first), leaves(**second), leaves(*node), p);
                }
                return Some(p);
            }
            let r2 = find_pane(second, id);
            if let Some(p) = r2 {
                proof {
                    lemma_part_contains(leaves(**first), leaves(**second), leaves(*node), p);
                }
                return Some(p);
            }
            None
        },
    }
}

/// A pane's rectangle within the window, in pixels.
#[derive(Clone, Copy, Debug, PartialEq, Eq, Structural)]
pub struct Region {
    pub x: u32,
    pub y: u32,
    pub width: u32,
    pub height: u32,
}

/// A region whose far corner still fits in pixel coordinates.
pub open spec fn region_wf(reg: Region) -> bool {
    reg.x + reg.width <= u32::MAX && reg.y + reg.height <= u32::MAX
}

/// How a split divides its region: the first subtree takes `ratio`
/// thousandths of the split axis, the second the rest.
pub open spec fn spec_split_region(axis: Axis, ratio: u32, reg: Region) -> (Region, Region) {
    match axis {
        Axis::Vertical => {
            let wa = (reg.width * ratio / 1000) as u32;
            (
                Region { x: reg.x, y: reg.y, width: wa, height: reg.height },
                Region {
                    x: (reg.x + wa) as u32,
                    y: reg.y,
                    width: (reg.width - wa) as u32,
                    height: reg.height,
                },
            )
        },
        Axis::Horizontal => {
            let ha = (reg.height * ratio / 1000) as u32;
            (
                Region { x: reg.x, y: reg.y, width: reg.width, height: ha },
                Region {
                    x: reg.x,
                    y: (reg.y + ha) as u32,
                    width: reg.width,
                    height: (reg.height - ha) as u32,
                },
            )
        },
    }
}

/// The rectangle of every pane, in leaf order, when the tree fills `reg`.
pub open spec fn spec_regions(n: PaneNode, reg: Region) -> Seq<(u64, Region)>
    decreases n,
{
    match n {
        PaneNode::Leaf(p) => seq![(p.id, reg)],
        PaneNode::Split { axis, ratio, first, second, .. } => {
            let (ra, rb) = spec_split_region(axis, ratio, reg);
            spec_regions(*first, ra) + spec_regions(*second, rb)
        },
    }
}

proof fn lemma_split_region_wf(axis: Axis, ratio: u32, reg: Region)
    requires
        region_wf(reg),
        0 < ratio < 1000,
    ensures
        reg.width * ratio / 1000 <= reg.width,
        reg.height * ratio / 1000 <= reg.height,
        ({
            let (ra, rb) = spec_split_region(axis, ratio, reg);
            region_wf(ra) && region_wf(rb)
        }),
{
    assert(reg.width * ratio / 1000 <= reg.width) by (nonlinear_arith)
        requires
            0 < ratio < 1000,
    ;
    assert(reg.height * ratio / 1000 <= reg.height) by (nonlinear_arith)
        requires
            0 < ratio < 1000,
    ;
}

/// Computes every pane's rectangle when the tree fills `reg`.
pub fn pane_regions(node: &PaneNode, reg: Region) -> (r: Vec<(u64, Region)>)
    requires
        node_wf(*node),
        region_wf(reg),
    ensures
        r@ == spec_regions(*node, reg),
    decreases *node,
{
    match node {
        PaneNode::Leaf(p) => {
            let mut v: Vec<(u64, Region)> = Vec::new();
            v.push((p.id, reg));
            proof {
                assert(v@ =~= spec_regions(*node, reg));
            }
            v
        },
        PaneNode::Split { axis, ratio, first, second, .. } => {
            proof {
                lemma_split_region_wf(*axis, *ratio, reg);
            }
            let (ra, rb): (Region, Region) = match axis {
                Axis::Vertical => {
                    let wa = ((reg.width as u64 * *ratio as u64) / 1000) as u32;
                    (
                        Region { x: reg.x, y: reg.y, width: wa, height: reg.height },
                        Region {
                            x: reg.x + wa,
                            y: reg.y,
                            width: reg.width - wa,
                            height: reg.height,
                        },
                    )
                },
                Axis::Horizontal => {
                    let ha = ((reg.height as u64 * *ratio as u64) / 1000) as u32;
                    (
                        Region { x: reg.x, y: reg.y, width: reg.width, height: ha },
                        Region {
                            x: reg.x,
                            y: reg.y + ha,
                            width: reg.width,
                            height: reg.height - ha,
                        },
                    )
                },
            };
            let mut v = pane_regions(first, ra);
            let mut w = pane_regions(second, rb);
            let ghost v0 = v@;
            let n = w.len();
            let mut i: usize = 0;
            while i < n
                invariant
                    i <= n,
                    n == spec_regions(**second, rb).len(),
                    w@.len() == n - i,
                    forall|j: int|
                        0 <= j < n - i ==> w@[j] == spec_regions(**second, rb)[j + i],
                    v@ =~= v0 + spec_regions(**second, rb).take(i as int),
                decreases n - i,
            {
                let item = w.remove(0);
                proof {
                    assert(spec_regions(**second, rb).take(i as int).push(
                        spec_regions(**second, rb)[i as int],
                    ) =~= spec_regions(**second, rb).take(i as int + 1));
                }
                v.push(item);
                i += 1;
            }
            proof {
                assert(spec_regions(**second, rb).take(n as int) =~= spec_regions(**second, rb));
                assert(v@ =~= spec_regions(*node, reg));
            }
            v
        },
    }
}

/// The first listed pane whose rectangle contains the point, if any.
pub open spec fn spec_region_at(rs: Seq<(u64, Region)>, px: int, py: int) -> Option<u64>
    decreases rs.len(),
{
    if rs.len() == 0 {
        None
    } else if rs[0].1.x <= px < rs[0].1.x + rs[0].1.width && rs[0].1.y <= py < rs[0].1.y
        + rs[0].1.height {
        Some(rs[0].0)
    } else {
        spec_region_at(rs.drop_first(), px, py)
    }
}

/// The first listed rectangle of the given pane, if any.
pub open spec fn spec_region_of(rs: Seq<(u64, Region)>, pane: u64) -> Option<Region>
    decreases rs.len(),
{
    if rs.len() == 0 {
        None
    } else if rs[0].0 == pane {
        Some(rs[0].1)
    } else {
        spec_region_of(rs.drop_first(), pane)
    }
}

fn region_at(rs: &Vec<(u64, Region)>, px: i64, py: i64) -> (r: Option<u64>)
    ensures
        r == spec_region_at(rs@, px as int, py as int),
{
    let n = rs.len();
    proof {
        assert(rs@.skip(0) =~= rs@);
    }
    let mut i: usize = 0;
    while i < n
        invariant
            i <= n,
            n == rs@.len(),
            spec_region_at(rs@, px as int, py as int) == spec_region_at(
                rs@.skip(i as int),
                px as int,
                py as int,
            ),
        decreases n - i,
    {
        let (id, reg) = rs[i];
        proof {
            assert(rs@.skip(i as int)[0] == rs@[i as int]);
            assert(rs@.skip(i as int).drop_first() =~= rs@.skip(i as int + 1));
        }
        if reg.x as i64 <= px && px < reg.x as i64 + reg.width as i64 && reg.y as i64 <= py && py
            < reg.y as i64 + reg.height as i64 {
            return Some(id);
        }
        i += 1;
    }
    proof {
        assert(rs@.skip(n as int) =~= Seq::<(u64, Region)>::empty());
    }
    None
}

fn region_of(rs: &Vec<(u64, Region)>, pane: u64) -> (r: Option<Region>)
    ensures
        r == spec_region_of(rs@, pane),
{
    let n = rs.len();
    proof {
        assert(rs@.skip(0) =~= rs@);
    }
    let mut i: usize = 0;
    while i < n
        invariant
            i <= n,
            n == rs@.len(),
            spec_region_of(rs@, pane) == spec_region_of(rs@.skip(i as int), pane),
        decreases n - i,
    {
        let (id, reg) = rs[i];
        proof {
            assert(rs@.skip(i as int)[0] == rs@[i as int]);
            assert(rs@.skip(i as int).drop_first() =~= rs@.skip(i as int + 1));
        }
        if id == pane {
            return Some(reg);
        }
        i += 1;
    }
    proof {
        assert(rs@.skip(n as int) =~= Seq::<(u64, Region)>::empty());
    }
    None
}

/// Exchanges the panes `pane_a` and `pane_b` (which must be the tree's
/// panes with identifiers `id_a` and `id_b`): each leaf that held one now
/// holds the other.
pub fn tree_swap(node: PaneNode, id_a: u64, pane_a: Pane, id_b: u64, pane_b: Pane) -> (r: PaneNode)
    requires
        node_wf(node),
        pane_a.id == id_a,
        pane_b.id == id_b,
        id_a != id_b,
    ensures
        leaves(r).len() == leaves(node).len(),
        forall|k: int|
            0 <= k < leaves(node).len() ==> (#[trigger] leaves(r)[k]) == (if leaves(node)[k].id
                == id_a {
                pane_b
            } else if leaves(node)[k].id == id_b {
                pane_a
            } else {
                leaves(node)[k]
            }),
        node_wf(r),
    decreases node,
{
    match node {
        PaneNode::Leaf(p) => {
            proof {
                assert(leaves(node)[0] == p);
            }
            if p.id == id_a {
                let r = PaneNode::Leaf(pane_b);
                proof {
                    assert(leaves(r)[0] == pane_b);
                }
                r
            } else if p.id == id_b {
                let r = PaneNode::Leaf(pane_a);
                proof {
                    assert(leaves(r)[0] == pane_a);
                }
                r
            } else {
                PaneNode::Leaf(p)
            }
        },
        PaneNode::Split { axis: a, ratio, split_id: sid, first, second } => {
            let ghost old_node = node;
            let f = tree_swap(*first, id_a, pane_a, id_b, pane_b);
            let s = tree_swap(*second, id_a, pane_a, id_b, pane_b);
            let r = PaneNode::Split {
                axis: a,
                ratio,
                split_id: sid,
                first: Box::new(f),
                second: Box::new(s),
            };
            proof {
                let fs = *old_node->Split_first;
                let ss = *old_node->Split_second;
                assert(leaves(r) == leaves(f) + leaves(s));
                assert forall|k: int| 0 <= k < leaves(old_node).len() implies (#[trigger] leaves(
                    r,
                )[k]) == (if leaves(old_node)[k].id == id_a {
                    pane_b
                } else if leaves(old_node)[k].id == id_b {
                    pane_a
                } else {
                    leaves(old_node)[k]
                }) by {
                    if k < leaves(f).len() {
                        assert(leaves(r)[k] == leaves(f)[k]);
                        assert(leaves(old_node)[k] == leaves(fs)[k]);
                    } else {
                        assert(leaves(r)[k] == leaves(s)[k - leaves(f).len()]);
                        assert(leaves(old_node)[k] == leaves(ss)[k - leaves(fs).len()]);
                    }
                }
                assert forall|x: int, y: int|
                    0 <= x < leaves(f).len() && 0 <= y < leaves(s).len() implies (
                #[trigger] leaves(f)[x]).id != (#[trigger] leaves(s)[y]).id by {
                    assert(leaves(fs)[x].id != leaves(ss)[y].id);
                }
                assert(node_wf(r));
            }
            r
        },
    }
}

/// A pane the tree contains is what `spec_pane_of` resolves its
/// identifier to.
proof fn lemma_pane_of(n: PaneNode, p: Pane)
    requires
        node_wf(n),
        leaves(n).contains(p),
    ensures
        has_pane(n, p.id),
        spec_pane_of(n, p.id) == p,
{
    let j = choose|j: int| 0 <= j < leaves(n).len() && leaves(n)[j] == p;
    assert(has_pane(n, p.id)) by {
        assert(leaves(n)[j].id == p.id);
    }
    lemma_unique_pane(n, p, j);
    let i = choose|i: int| 0 <= i < leaves(n).len() && (#[trigger] leaves(n)[i]).id == p.id;
    assert(leaves(n)[i] == p);
}

/// Every leaf of a well-formed tree with a given identifier is the same
/// pane.
proof fn lemma_unique_pane(n: PaneNode, p: Pane, i: int)
    requires
        node_wf(n),
        0 <= i < leaves(n).len(),
        leaves(n)[i] == p,
    ensures
        forall|j: int|
            0 <= j < leaves(n).len() && (#[trigger] leaves(n)[j]).id == p.id ==> leaves(n)[j] == p,
{
    assert forall|j: int|
        0 <= j < leaves(n).len() && (#[trigger] leaves(n)[j]).id == p.id implies leaves(n)[j]
        == p by {
        if j != i {
            lemma_wf_distinct_ids(n, i, j);
        }
    }
}

/// The side of the existing pane a dragged pane lands on.
#[derive(Clone, Copy, Debug, PartialEq, Eq, Structural)]
pub enum Side {
    Top,
    Bottom,
    Left,
    Right,
}

/// Where a dragged pane was dropped: onto the middle of another pane
/// (exchanging the two), or onto one of its edges (moving in beside it).
#[derive(Clone, Copy, Debug, PartialEq, Eq, Structural)]
pub enum DropTarget {
    Center(u64),
    Edge(u64, Side),
}

/// A drag interaction's outcome; anything but a drop on a valid target is
/// a no-op.
#[derive(Clone, Copy, Debug, PartialEq, Eq, Structural)]
pub enum DragEvent {
    Dropped { pane: u64, target: DropTarget },
    Canceled,
}

/// A geometric direction for focus movement.
#[derive(Clone, Copy, Debug, PartialEq, Eq, Structural)]
pub enum Direction {
    Up,
    Down,
    Left,
    Right,
}

/// What the multiplexer asks its host to do after a transition.
#[derive(Clone, Copy, Debug, PartialEq, Eq, Structural)]
pub enum Effect {
    /// Give this session's input region keyboard focus.
    FocusWidget(u64),
    /// Create a terminal session (spawn its backend) under this
    /// identifier.
    CreateSession(u64),
    /// Tear a session down, releasing its backend.
    DestroySession(u64),
    /// The last pane was closed: close the whole window.
    CloseWindow,
    /// Invoke the configured external bell notification command.
    RunNotifier,
}

/// The tree holds a pinned pane with this identifier.
pub open spec fn pane_pinned(n: PaneNode, id: u64) -> bool {
    exists|i: int|
        0 <= i < leaves(n).len() && (#[trigger] leaves(n)[i]).id == id && leaves(n)[i].is_pinned
}

/// The tree holds a pane with this identifier whose bell flag is set.
pub open spec fn pane_bell_set(n: PaneNode, id: u64) -> bool {
    exists|i: int|
        0 <= i < leaves(n).len() && (#[trigger] leaves(n)[i]).id == id && leaves(n)[i].bell
}

/// The reference region used for adjacency lookups.
pub open spec fn adjacent_ref_region() -> Region {
    Region { x: 0, y: 0, width: 4096, height: 4096 }
}

/// The reference region used to pick a split axis.
pub open spec fn split_ref_region() -> Region {
    Region { x: 0, y: 0, width: 800, height: 600 }
}

/// The probe point one pixel beyond the region's edge in the given
/// direction.
pub open spec fn probe_point(dir: Direction, reg: Region) -> (int, int) {
    match dir {
        Direction::Left => (reg.x - 1, reg.y + 1),
        Direction::Right => (reg.x + reg.width + 1, reg.y + 1),
        Direction::Up => (reg.x + 1, reg.y - 1),
        Direction::Down => (reg.x + 1, reg.y + reg.height + 1),
    }
}

/// The nearest pane in the given direction: the first pane whose region
/// (over the reference layout) contains the probe point just beyond the
/// focused pane's edge.
pub open spec fn spec_adjacent(n: PaneNode, pane: u64, dir: Direction) -> Option<u64> {
    let rs = spec_regions(n, adjacent_ref_region());
    match spec_region_of(rs, pane) {
        None => None,
        Some(reg) => {
            let (px, py) = probe_point(dir, reg);
            spec_region_at(rs, px, py)
        },
    }
}

proof fn lemma_regions_ids(n: PaneNode, reg: Region)
    ensures
        spec_regions(n, reg).len() == leaves(n).len(),
        forall|k: int|
            0 <= k < leaves(n).len() ==> (#[trigger] spec_regions(n, reg)[k]).0 == leaves(n)[k].id,
    decreases n,
{
    match n {
        PaneNode::Leaf(p) => {
            assert(spec_regions(n, reg)[0] == (p.id, reg));
            assert(leaves(n)[0] == p);
        },
        PaneNode::Split { axis, ratio, first, second, .. } => {
            let (ra, rb) = spec_split_region(axis, ratio, reg);
            lemma_regions_ids(*first, ra);
            lemma_regions_ids(*second, rb);
            assert forall|k: int| 0 <= k < leaves(n).len() implies (#[trigger] spec_regions(
                n,
                reg,
            )[k]).0 == leaves(n)[k].id by {
                let fl = spec_regions(*first, ra).len() as int;
                if k < fl {
                    assert(spec_regions(n, reg)[k] == spec_regions(*first, ra)[k]);
                    assert(leaves(n)[k] == leaves(*first)[k]);
                } else {
                    assert(spec_regions(n, reg)[k] == spec_regions(*second, rb)[k - fl]);
                    assert(leaves(n)[k] == leaves(*second)[k - fl]);
                }
            }
        },
    }
}

proof fn lemma_region_at_member(rs: Seq<(u64, Region)>, px: int, py: int)
    ensures
        spec_region_at(rs, px, py) matches Some(id) ==> exists|k: int|
            0 <= k < rs.len() && (#[trigger] rs[k]).0 == id,
    decreases rs.len(),
{
    if rs.len() > 0 {
        lemma_region_at_member(rs.drop_first(), px, py);
        if spec_region_at(rs, px, py) is Some && !(rs[0].1.x <= px < rs[0].1.x + rs[0].1.width
            && rs[0].1.y <= py < rs[0].1.y + rs[0].1.height) {
            let id = spec_region_at(rs, px, py)->0;
            if exists|k: int| 0 <= k < rs.drop_first().len() && (#[trigger] rs.drop_first()[k]).0
                == id {
                let k = choose|k: int|
                    0 <= k < rs.drop_first().len() && (#[trigger] rs.drop_first()[k]).0 == id;
                assert(rs[k + 1].0 == id);
            }
        }
    }
}

/// The multiplexer: the layout tree, the focus, the identifier counters,
/// and the bell slot.
#[derive(Debug)]
pub struct Multiplexer {
    pub root: PaneNode,
    /// The focused pane, if any.
    pub focus: Option<u64>,
    /// Identifiers handed to panes (and their sessions) so far; the next
    /// pane takes this value.
    pub panes_created: u64,
    /// Identifiers handed to splits so far; the next split takes this
    /// value.
    pub splits_created: u64,
    /// The pane whose bell is waiting for its timeout, if any.
    pub bell: Option<u64>,
    /// The configured bell duration in milliseconds; absent or zero
    /// disables the bell.
    pub bell_len: Option<u64>,
}

impl Multiplexer {
    /// Every pane identifier is unique and below the counter, and focus
    /// and bell point at panes the tree holds.
    pub open spec fn wf(self) -> bool {
        &&& node_wf(self.root)
        &&& pane_ids_below(self.root, self.panes_created)
        &&& (self.focus matches Some(id) ==> has_pane(self.root, id))
        &&& (self.bell matches Some(id) ==> has_pane(self.root, id))
    }

    /// Whether the bell is configured at all.
    pub open spec fn bell_enabled(self) -> bool {
        match self.bell_len {
            Some(d) => d != 0,
            None => false,
        }
    }

    /// A fresh multiplexer: one focused pane with identifier 0.
    pub fn new(bell_len: Option<u64>) -> (r: Multiplexer)
        ensures
            r.wf(),
            leaves(r.root) =~= seq![Pane { id: 0, is_pinned: false, bell: false }],
            r.focus == Some(0u64),
            r.panes_created == 1,
            r.splits_created == 0,
            r.bell is None,
            r.bell_len == bell_len,
    {
        let root = PaneNode::Leaf(Pane::new(0));
        proof {
            assert(leaves(root)[0] == (Pane { id: 0, is_pinned: false, bell: false }));
        }
        Multiplexer {
            root,
            focus: Some(0),
            panes_created: 1,
            splits_created: 0,
            bell: None,
            bell_len,
        }
    }

    /// The nearest pane in the given geometric direction from `pane`, by
    /// the reference-layout probe rule.
    pub fn adjacent(&self, pane: u64, direction: Direction) -> (r: Option<u64>)
        requires
            self.wf(),
        ensures
            r == spec_adjacent(self.root, pane, direction),
            r matches Some(a) ==> has_pane(self.root, a),
    {
        let rs = pane_regions(&self.root, Region { x: 0, y: 0, width: 4096, height: 4096 });
        proof {
            lemma_regions_ids(self.root, adjacent_ref_region());
        }
        match region_of(&rs, pane) {
            None => None,
            Some(reg) => {
                let (px, py): (i64, i64) = match direction {
                    Direction::Left => (reg.x as i64 - 1, reg.y as i64 + 1),
                    Direction::Right => (reg.x as i64 + reg.width as i64 + 1, reg.y as i64 + 1),
                    Direction::Up => (reg.x as i64 + 1, reg.y as i64 - 1),
                    Direction::Down => (reg.x as i64 + 1, reg.y as i64 + reg.height as i64 + 1),
                };
                let r = region_at(&rs, px, py);
                proof {
                    lemma_region_at_member(rs@, px as int, py as int);
                    if r is Some {
                        let k = choose|k: int|
                            0 <= k < rs@.len() && (#[trigger] rs@[k]).0 == r->0;
                        assert(leaves(self.root)[k].id == r->0);
                    }
                }
                r
            },
        }
    }
}

/// The state change and effects of closing pane `target`: on a lone root
/// pane, a window-close request and no mutation; otherwise, when the pane
/// exists, its leaf is removed, its sibling promoted and focused, its
/// session destroyed, and a pending bell for it forgotten; an unknown
/// pane changes nothing.
pub open spec fn close_transition(
    o: Multiplexer,
    n: Multiplexer,
    effects: Seq<Effect>,
    target: u64,
) -> bool {
    if leaves(o.root).len() <= 1 {
        if has_pane(o.root, target) {
            n == o && effects =~= seq![Effect::CloseWindow]
        } else {
            n == o && effects =~= Seq::<Effect>::empty()
        }
    } else if has_pane(o.root, target) {
        &&& exists|i: int|
            0 <= i < leaves(o.root).len() && (#[trigger] leaves(o.root)[i]).id == target && leaves(
                n.root,
            ) =~= leaves(o.root).remove(i)
        &&& n.focus matches Some(s) && has_pane(n.root, s) && effects =~= seq![
            Effect::DestroySession(target),
            Effect::FocusWidget(s),
        ]
        &&& n.panes_created == o.panes_created
        &&& n.splits_created == o.splits_created
        &&& n.bell_len == o.bell_len
        &&& (o.bell == Some(target) ==> n.bell is None)
        &&& (o.bell != Some(target) ==> n.bell == o.bell)
    } else {
        n == o && effects =~= Seq::<Effect>::empty()
    }
}

/// The state change and effects of a bell signal for pane `target`: with
/// the bell disabled, an unknown pane, or a bell already ringing there,
/// nothing happens (in particular no second notifier run); otherwise the
/// pane's bell flag is set, the pane is remembered for the timeout, and
/// the external notifier is invoked once.
pub open spec fn bell_transition(
    o: Multiplexer,
    n: Multiplexer,
    effects: Seq<Effect>,
    target: u64,
) -> bool {
    if !o.bell_enabled() || !has_pane(o.root, target) {
        n == o && effects =~= Seq::<Effect>::empty()
    } else if pane_bell_set(o.root, target) {
        n == o && effects =~= Seq::<Effect>::empty()
    } else {
        &&& leaves(n.root).len() == leaves(o.root).len()
        &&& forall|k: int|
            0 <= k < leaves(o.root).len() ==> (#[trigger] leaves(n.root)[k]).id == leaves(
                o.root,
            )[k].id && leaves(n.root)[k].is_pinned == leaves(o.root)[k].is_pinned
        &&& forall|k: int|
            0 <= k < leaves(o.root).len() ==> (#[trigger] leaves(n.root)[k]).bell == (if leaves(
                o.root,
            )[k].id == target {
                true
            } else {
                leaves(o.root)[k].bell
            })
        &&& n.focus == o.focus
        &&& n.bell == Some(target)
        &&& n.panes_created == o.panes_created
        &&& n.splits_created == o.splits_created
        &&& n.bell_len == o.bell_len
        &&& effects =~= seq![Effect::RunNotifier]
    }
}

/// A split node's leaf sequence is the concatenation of two non-empty
/// parts, so it has at least two panes.
proof fn lemma_split_len(n: PaneNode)
    requires
        n matches PaneNode::Split { .. },
    ensures
        leaves(n).len() >= 2,
{
    match n {
        PaneNode::Leaf(_) => {},
        PaneNode::Split { first, second, .. } => {
            lemma_first_pane(*first);
            lemma_first_pane(*second);
        },
    }
}

impl Multiplexer {
    /// Closes pane `target`: removes its leaf, promotes and focuses the
    /// sibling, and destroys the session. A lone root pane is not removed;
    /// the request becomes a window-close instead. An unknown pane is a
    /// safe no-op.
    fn close_pane(&mut self, target: u64) -> (effects: Vec<Effect>)
        requires
            old(self).wf(),
        ensures
            final(self).wf(),
            close_transition(*old(self), *final(self), effects@, target),
    {
        let root_leaf: Option<u64> = match &self.root {
            PaneNode::Leaf(p) => Some(p.id),
            _ => None,
        };
        if let Some(id) = root_leaf {
            proof {
                assert(leaves(self.root).len() == 1);
                assert(leaves(self.root)[0].id == id);
            }
            let mut effects: Vec<Effect> = Vec::new();
            if id == target {
                effects.push(Effect::CloseWindow);
                proof {
                    assert(effects@ =~= seq![Effect::CloseWindow]);
                }
            } else {
                proof {
                    assert(!has_pane(self.root, target));
                    assert(effects@ =~= Seq::<Effect>::empty());
                }
            }
            return effects;
        }
        proof {
            lemma_split_len(self.root);
        }
        let mut tmp = PaneNode::Leaf(Pane::new(0));
        core::mem::swap(&mut self.root, &mut tmp);
        let (new_root, res) = tree_close(tmp, target);
        self.root = new_root;
        match res {
            Some((closed, sib)) => {
                self.focus = Some(sib);
                let clear_bell: bool = match self.bell {
                    Some(b) => b == closed.id,
                    None => false,
                };
                if clear_bell {
                    self.bell = None;
                }
                let mut effects: Vec<Effect> = Vec::new();
                effects.push(Effect::DestroySession(closed.id));
                effects.push(Effect::FocusWidget(sib));
                proof {
                    let o = *old(self);
                    let i = choose|i: int|
                        0 <= i < leaves(o.root).len() && #[trigger] leaves(o.root)[i] == closed
                            && leaves(o.root)[i].id == target && leaves(self.root) =~= leaves(
                            o.root,
                        ).remove(i);
                    assert(has_pane(o.root, target)) by {
                        assert(leaves(o.root)[i].id == target);
                    }
                    assert forall|k: int| 0 <= k < leaves(self.root).len() implies (
                    #[trigger] leaves(self.root)[k]).id < self.panes_created by {
                        let x = leaves(self.root)[k];
                        assert(leaves(o.root).contains(x));
                        let j = choose|j: int|
                            0 <= j < leaves(o.root).len() && leaves(o.root)[j] == x;
                        assert(leaves(o.root)[j].id < o.panes_created);
                    }
                    if !clear_bell && o.bell is Some {
                        let b = o.bell->0;
                        let j = choose|j: int|
                            0 <= j < leaves(o.root).len() && (#[trigger] leaves(o.root)[j]).id
                                == b;
                        assert(j != i);
                        if j < i {
                            assert(leaves(self.root)[j].id == b);
                        } else {
                            assert(leaves(self.root)[j - 1].id == b);
                        }
                        assert(has_pane(self.root, b));
                    }
                    assert(effects@ =~= seq![
                        Effect::DestroySession(target),
                        Effect::FocusWidget(sib),
                    ]);
                }
                effects
            },
            None => {
                proof {
                    assert(*self == *old(self));
                }
                let effects: Vec<Effect> = Vec::new();
                proof {
                    assert(effects@ =~= Seq::<Effect>::empty());
                }
                effects
            },
        }
    }

    /// Marks pane `target` as ringing and schedules the notifier, unless
    /// the bell is disabled, the pane is unknown, or its bell is already
    /// set.
    fn bell_on(&mut self, target: u64) -> (effects: Vec<Effect>)
        requires
            old(self).wf(),
        ensures
            final(self).wf(),
            bell_transition(*old(self), *final(self), effects@, target),
    {
        let enabled: bool = match self.bell_len {
            Some(d) => d != 0,
            None => false,
        };
        if !enabled {
            return Vec::new();
        }
        match find_pane(&self.root, target) {
            None => Vec::new(),
            Some(p) => {
                proof {
                    let j = choose|j: int|
                        0 <= j < leaves(self.root).len() && #[trigger] leaves(self.root)[j] == p;
                    lemma_unique_pane(self.root, p, j);
                    assert(has_pane(self.root, target)) by {
                        assert(leaves(self.root)[j].id == target);
                    }
                }
                if p.bell {
                    proof {
                        let j = choose|j: int|
                            0 <= j < leaves(self.root).len() && #[trigger] leaves(self.root)[j]
                                == p;
                        assert(pane_bell_set(self.root, target)) by {
                            assert(leaves(self.root)[j].id == target && leaves(self.root)[j].bell);
                        }
                    }
                    Vec::new()
                } else {
                    proof {
                        assert(!pane_bell_set(self.root, target)) by {
                            if pane_bell_set(self.root, target) {
                                let k = choose|k: int|
                                    0 <= k < leaves(self.root).len() && (#[trigger] leaves(
                                        self.root,
                                    )[k]).id == target && leaves(self.root)[k].bell;
                                assert(leaves(self.root)[k] == p);
                            }
                        }
                    }
                    let mut tmp = PaneNode::Leaf(Pane::new(0));
                    core::mem::swap(&mut self.root, &mut tmp);
                    let (new_root, _found) = tree_set_bell(tmp, target, true);
                    self.root = new_root;
                    self.bell = Some(target);
                    let mut effects: Vec<Effect> = Vec::new();
                    effects.push(Effect::RunNotifier);
                    proof {
                        let o = *old(self);
                        assert forall|k: int| 0 <= k < leaves(self.root).len() implies (
                        #[trigger] leaves(self.root)[k]).id < self.panes_created by {
                            assert(leaves(self.root)[k].id == leaves(o.root)[k].id);
                        }
                        if o.focus is Some {
                            let f = o.focus->0;
                            let j = choose|j: int|
                                0 <= j < leaves(o.root).len() && (#[trigger] leaves(o.root)[j]).id
                                    == f;
                            assert(leaves(self.root)[j].id == f);
                        }
                        let jt = choose|j: int|
                            0 <= j < leaves(o.root).len() && (#[trigger] leaves(o.root)[j]).id
                                == target;
                        assert(leaves(self.root)[jt].id == target);
                        assert(has_pane(self.root, target));
                        assert(effects@ =~= seq![Effect::RunNotifier]);
                    }
                    effects
                }
            },
        }
    }
}

/// Ratios are clamped strictly inside (0, 1000) thousandths.
pub open spec fn spec_clamp_ratio(ratio: u32) -> u32 {
    if ratio < 1 {
        1
    } else if ratio > 999 {
        999
    } else {
        ratio
    }
}

/// The state change and effects of splitting the focused pane: a new pane
/// under the next identifier appears right after the focused one, takes
/// the focus, and gets a session and widget focus. With no focus (or
/// exhausted identifier counters) nothing happens.
pub open spec fn split_transition(o: Multiplexer, n: Multiplexer, effects: Seq<Effect>) -> bool {
    match o.focus {
        None => n == o && effects =~= Seq::<Effect>::empty(),
        Some(p) => if o.panes_created == u64::MAX || o.splits_created == u64::MAX {
            n == o && effects =~= Seq::<Effect>::empty()
        } else {
            &&& exists|i: int|
                0 <= i < leaves(o.root).len() && (#[trigger] leaves(o.root)[i]).id == p && leaves(
                    n.root,
                ) =~= leaves(o.root).insert(
                    i + 1,
                    Pane { id: o.panes_created, is_pinned: false, bell: false },
                )
            &&& n.focus == Some(o.panes_created)
            &&& n.panes_created == o.panes_created + 1
            &&& n.splits_created == o.splits_created + 1
            &&& n.bell == o.bell
            &&& n.bell_len == o.bell_len
            &&& effects =~= seq![
                Effect::CreateSession(o.panes_created),
                Effect::FocusWidget(o.panes_created),
            ]
        },
    }
}

/// The state change and effects of moving focus in a direction: when an
/// adjacent pane exists, it takes the focus and widget focus; otherwise
/// nothing happens.
pub open spec fn focus_adjacent_transition(
    o: Multiplexer,
    n: Multiplexer,
    effects: Seq<Effect>,
    dir: Direction,
) -> bool {
    match o.focus {
        None => n == o && effects =~= Seq::<Effect>::empty(),
        Some(p) => match spec_adjacent(o.root, p, dir) {
            None => n == o && effects =~= Seq::<Effect>::empty(),
            Some(a) => n == (Multiplexer { focus: Some(a), ..o }) && effects =~= seq![
                Effect::FocusWidget(a),
            ],
        },
    }
}

/// The state change and effects of clicking a pane: it takes the focus
/// and widget focus; an unknown pane changes nothing.
pub open spec fn clicked_transition(
    o: Multiplexer,
    n: Multiplexer,
    effects: Seq<Effect>,
    pane: u64,
) -> bool {
    if has_pane(o.root, pane) {
        n == (Multiplexer { focus: Some(pane), ..o }) && effects =~= seq![Effect::FocusWidget(pane)]
    } else {
        n == o && effects =~= Seq::<Effect>::empty()
    }
}

/// The state change of a resize: the named split's ratio becomes the
/// clamped value; panes, focus and bell stay as they were.
pub open spec fn resized_transition(
    o: Multiplexer,
    n: Multiplexer,
    effects: Seq<Effect>,
    split: u64,
    ratio: u32,
) -> bool {
    &&& resized(o.root, n.root, split, spec_clamp_ratio(ratio))
    &&& leaves(n.root) == leaves(o.root)
    &&& n.focus == o.focus
    &&& n.panes_created == o.panes_created
    &&& n.splits_created == o.splits_created
    &&& n.bell == o.bell
    &&& n.bell_len == o.bell_len
    &&& effects =~= Seq::<Effect>::empty()
}

/// The pane of a well-formed tree carrying the given identifier.
pub open spec fn spec_pane_of(n: PaneNode, id: u64) -> Pane {
    leaves(n)[choose|i: int| 0 <= i < leaves(n).len() && (#[trigger] leaves(n)[i]).id == id]
}

/// The state change of a drag. The set of panes is always preserved and no
/// session is created or destroyed. A drop on the center of another pane
/// exchanges the two leaves in place; a drop on an edge moves the dragged
/// leaf to sit beside the target on that side. A drag onto itself, onto an
/// unknown target, or without a valid target changes nothing.
pub open spec fn drag_transition(
    o: Multiplexer,
    n: Multiplexer,
    effects: Seq<Effect>,
    ev: DragEvent,
) -> bool {
    match ev {
        DragEvent::Canceled => n == o && effects =~= Seq::<Effect>::empty(),
        DragEvent::Dropped { pane, target } => {
            &&& leaves(n.root).len() == leaves(o.root).len()
            &&& forall|id: u64| has_pane(n.root, id) <==> has_pane(o.root, id)
            &&& n.focus == o.focus
            &&& n.panes_created == o.panes_created
            &&& n.bell == o.bell
            &&& n.bell_len == o.bell_len
            &&& effects =~= Seq::<Effect>::empty()
            &&& (match target {
                DropTarget::Center(t) => (pane != t && has_pane(o.root, pane) && has_pane(
                    o.root,
                    t,
                )) ==> {
                    &&& n.splits_created == o.splits_created
                    &&& forall|k: int|
                        0 <= k < leaves(o.root).len() ==> (#[trigger] leaves(n.root)[k]) == (
                        if leaves(o.root)[k].id == pane {
                            spec_pane_of(o.root, t)
                        } else if leaves(o.root)[k].id == t {
                            spec_pane_of(o.root, pane)
                        } else {
                            leaves(o.root)[k]
                        })
                },
                DropTarget::Edge(t, side) => (pane != t && has_pane(o.root, pane) && has_pane(
                    o.root,
                    t,
                ) && o.splits_created != u64::MAX) ==> {
                    &&& n.splits_created == o.splits_created + 1
                    &&& (match side {
                        Side::Right | Side::Bottom => exists|j: int|
                            0 <= j && j + 1 < leaves(n.root).len() && (#[trigger] leaves(
                                n.root,
                            )[j]).id == t && leaves(n.root)[j + 1].id == pane,
                        Side::Left | Side::Top => exists|j: int|
                            0 <= j && j + 1 < leaves(n.root).len() && (#[trigger] leaves(
                                n.root,
                            )[j]).id == pane && leaves(n.root)[j + 1].id == t,
                    })
                },
            })
        },
    }
}

/// The state change of a close request on the focused pane: nothing on a
/// pinned (or missing) focus, a close transition otherwise.
pub open spec fn close_focused_transition(o: Multiplexer, n: Multiplexer, effects: Seq<Effect>) -> bool {
    match o.focus {
        None => n == o && effects =~= Seq::<Effect>::empty(),
        Some(p) => if pane_pinned(o.root, p) {
            n == o && effects =~= Seq::<Effect>::empty()
        } else {
            close_transition(o, n, effects, p)
        },
    }
}

/// The state change of the bell timeout: the ringing pane's flag clears
/// and the bell slot empties; without a pending bell nothing happens.
pub open spec fn bell_timeout_transition(o: Multiplexer, n: Multiplexer, effects: Seq<Effect>) -> bool {
    match o.bell {
        None => n == o && effects =~= Seq::<Effect>::empty(),
        Some(b) => {
            &&& leaves(n.root).len() == leaves(o.root).len()
            &&& forall|k: int|
                0 <= k < leaves(o.root).len() ==> (#[trigger] leaves(n.root)[k]).id == leaves(
                    o.root,
                )[k].id && leaves(n.root)[k].is_pinned == leaves(o.root)[k].is_pinned
            &&& forall|k: int|
                0 <= k < leaves(o.root).len() ==> (#[trigger] leaves(n.root)[k]).bell == (if leaves(
                    o.root,
                )[k].id == b {
                    false
                } else {
                    leaves(o.root)[k].bell
                })
            &&& n.focus == o.focus
            &&& n.bell is None
            &&& n.panes_created == o.panes_created
            &&& n.splits_created == o.splits_created
            &&& n.bell_len == o.bell_len
            &&& effects =~= Seq::<Effect>::empty()
        },
    }
}

/// The state change of a session-reported action: a shutdown closes the
/// owning pane (sessions and panes share identifiers); a bell rings it;
/// everything else changes nothing.
pub open spec fn session_transition(
    o: Multiplexer,
    n: Multiplexer,
    effects: Seq<Effect>,
    id: u64,
    action: crate::actions::Action,
) -> bool {
    match action {
        crate::actions::Action::Shutdown => close_transition(o, n, effects, id),
        crate::actions::Action::Bell => bell_transition(o, n, effects, id),
        _ => n == o && effects =~= Seq::<Effect>::empty(),
    }
}

/// A message driving the multiplexer.
#[derive(Debug, Clone, PartialEq)]
pub enum Msg {
    /// Split the focused pane; the axis keeps the new panes roughly
    /// square.
    SplitFocused,
    /// Move focus to the nearest pane in a direction.
    FocusAdjacent(Direction),
    /// A pane was clicked.
    Clicked(u64),
    /// A pane drag ended.
    Dragged(DragEvent),
    /// A split's divider was dragged to a new ratio (thousandths).
    Resized { split: u64, ratio: u32 },
    /// Close this pane.
    Close(u64),
    /// Close the focused pane, unless it is pinned.
    CloseFocused,
    /// A session reported a bell for this pane.
    BellOn(u64),
    /// The bell timer fired.
    BellTimeout,
    /// A session reported an action after processing backend input.
    SessionEvent(u64, crate::actions::Action),
}

impl Multiplexer {
    /// Applies a drop of pane `pane` onto `target`: a drop on the center
    /// exchanges the two panes; a drop on an edge moves the dragged pane
    /// in beside the target on that side. Dropping a pane on itself, or
    /// on an unknown target, changes nothing.
    #[verifier::rlimit(60)]
    fn drop_pane(&mut self, pane: u64, target: DropTarget) -> (effects: Vec<Effect>)
        requires
            old(self).wf(),
        ensures
            final(self).wf(),
            leaves(final(self).root).len() == leaves(old(self).root).len(),
            forall|id: u64| has_pane(final(self).root, id) <==> has_pane(old(self).root, id),
            final(self).focus == old(self).focus,
            final(self).panes_created == old(self).panes_created,
            final(self).bell == old(self).bell,
            final(self).bell_len == old(self).bell_len,
            effects@ =~= Seq::<Effect>::empty(),
            match target {
                DropTarget::Center(t) => (pane != t && has_pane(old(self).root, pane) && has_pane(
                    old(self).root,
                    t,
                )) ==> {
                    &&& final(self).splits_created == old(self).splits_created
                    &&& forall|k: int|
                        0 <= k < leaves(old(self).root).len() ==> (#[trigger] leaves(
                            final(self).root,
                        )[k]) == (if leaves(old(self).root)[k].id == pane {
                            spec_pane_of(old(self).root, t)
                        } else if leaves(old(self).root)[k].id == t {
                            spec_pane_of(old(self).root, pane)
                        } else {
                            leaves(old(self).root)[k]
                        })
                },
                DropTarget::Edge(t, side) => (pane != t && has_pane(old(self).root, pane)
                    && has_pane(old(self).root, t) && old(self).splits_created != u64::MAX) ==> {
                    &&& final(self).splits_created == old(self).splits_created + 1
                    &&& (match side {
                        Side::Right | Side::Bottom => exists|j: int|
                            0 <= j && j + 1 < leaves(final(self).root).len() && (#[trigger] leaves(
                                final(self).root,
                            )[j]).id == t && leaves(final(self).root)[j + 1].id == pane,
                        Side::Left | Side::Top => exists|j: int|
                            0 <= j && j + 1 < leaves(final(self).root).len() && (#[trigger] leaves(
                                final(self).root,
                            )[j]).id == pane && leaves(final(self).root)[j + 1].id == t,
                    })
                },
            },
    {
        let tid: u64 = match target {
            DropTarget::Center(t) => t,
            DropTarget::Edge(t, _) => t,
        };
        if pane == tid {
            return Vec::new();
        }
        let pa = find_pane(&self.root, pane);
        let pb = find_pane(&self.root, tid);
        let (a, b): (Pane, Pane) = match (pa, pb) {
            (Some(a), Some(b)) => (a, b),
            _ => {
                return Vec::new();
            },
        };
        proof {
            let ja = choose|j: int|
                0 <= j < leaves(self.root).len() && #[trigger] leaves(self.root)[j] == a;
            let jb = choose|j: int|
                0 <= j < leaves(self.root).len() && #[trigger] leaves(self.root)[j] == b;
            assert(has_pane(self.root, pane)) by {
                assert(leaves(self.root)[ja].id == pane);
            }
            assert(has_pane(self.root, tid)) by {
                assert(leaves(self.root)[jb].id == tid);
            }
        }
        match target {
            DropTarget::Center(_) => {
                let mut tmp = PaneNode::Leaf(Pane::new(0));
                core::mem::swap(&mut self.root, &mut tmp);
                let new_root = tree_swap(tmp, pane, a, tid, b);
                self.root = new_root;
                proof {
                    self.lemma_after_swap(*old(self), pane, a, tid, b);
                    lemma_pane_of(old(self).root, a);
                    lemma_pane_of(old(self).root, b);
                    assert(spec_pane_of(old(self).root, pane) == a);
                    assert(spec_pane_of(old(self).root, tid) == b);
                }
                Vec::new()
            },
            DropTarget::Edge(_, side) => {
                if self.splits_created == u64::MAX {
                    return Vec::new();
                }
                let root_is_leaf: bool = match &self.root {
                    PaneNode::Leaf(_) => true,
                    _ => false,
                };
                if root_is_leaf {
                    // Two distinct panes exist, so the root cannot be a
                    // lone leaf; nothing to do if it somehow is.
                    proof {
                        let ja = choose|j: int|
                            0 <= j < leaves(self.root).len() && #[trigger] leaves(self.root)[j]
                                == a;
                        let jb = choose|j: int|
                            0 <= j < leaves(self.root).len() && #[trigger] leaves(self.root)[j]
                                == b;
                        assert(leaves(self.root).len() == 1);
                        assert(false);
                    }
                    return Vec::new();
                }
                let mut tmp = PaneNode::Leaf(Pane::new(0));
                core::mem::swap(&mut self.root, &mut tmp);
                let (closed_root, res) = tree_close(tmp, pane);
                let ghost mid = closed_root;
                proof {
                    let o = *old(self);
                    assert(res is Some);
                    let closed = (res->0).0;
                    let i0 = choose|i: int|
                        0 <= i < leaves(o.root).len() && #[trigger] leaves(o.root)[i] == closed
                            && leaves(o.root)[i].id == pane && leaves(mid) =~= leaves(
                            o.root,
                        ).remove(i);
                    let ja = choose|j: int|
                        0 <= j < leaves(o.root).len() && #[trigger] leaves(o.root)[j] == a;
                    lemma_unique_pane(o.root, a, ja);
                    assert(leaves(o.root)[i0] == a);
                    assert(!has_pane(mid, a.id)) by {
                        if has_pane(mid, a.id) {
                            let k = choose|k: int|
                                0 <= k < leaves(mid).len() && (#[trigger] leaves(mid)[k]).id
                                    == a.id;
                            let k_old: int = if k < i0 {
                                k
                            } else {
                                k + 1
                            };
                            assert(leaves(o.root)[k_old] == leaves(mid)[k]);
                            lemma_wf_distinct_ids(o.root, i0, k_old);
                        }
                    }
                    let jb = choose|j: int|
                        0 <= j < leaves(o.root).len() && #[trigger] leaves(o.root)[j] == b;
                    assert(jb != i0);
                    let jb_mid: int = if jb < i0 {
                        jb
                    } else {
                        jb - 1
                    };
                    assert(leaves(mid)[jb_mid] == b);
                    assert(has_pane(mid, tid)) by {
                        assert(leaves(mid)[jb_mid].id == tid);
                    }
                }
                let (split_root, found) = tree_split(
                    closed_root,
                    tid,
                    match side {
                        Side::Top | Side::Bottom => Axis::Horizontal,
                        Side::Left | Side::Right => Axis::Vertical,
                    },
                    a,
                    self.splits_created,
                );
                self.root = split_root;
                self.splits_created = self.splits_created + 1;
                proof {
                    self.lemma_after_edge_move(*old(self), mid, pane, a, tid, b);
                }
                let swap_sides: bool = match side {
                    Side::Top | Side::Left => true,
                    _ => false,
                };
                if swap_sides {
                    let ghost before_swap = *self;
                    let mut tmp2 = PaneNode::Leaf(Pane::new(0));
                    core::mem::swap(&mut self.root, &mut tmp2);
                    let new_root = tree_swap(tmp2, pane, a, tid, b);
                    self.root = new_root;
                    proof {
                        self.lemma_after_swap(before_swap, pane, a, tid, b);
                        let j = choose|j: int|
                            0 <= j && j + 1 < leaves(before_swap.root).len() && (#[trigger] leaves(
                                before_swap.root,
                            )[j]).id == tid && leaves(before_swap.root)[j + 1].id == pane;
                        assert(leaves(self.root)[j] == a);
                        assert(leaves(self.root)[j + 1] == b);
                        assert(0 <= j && j + 1 < leaves(self.root).len() && leaves(
                            self.root,
                        )[j].id == pane && leaves(self.root)[j + 1].id == tid);
                    }
                }
                Vec::new()
            },
        }
    }

    /// After exchanging panes `a` and `b`, the pane set, counters and
    /// pointers are as the drag transition demands.
    proof fn lemma_after_swap(self, o: Multiplexer, id_a: u64, a: Pane, id_b: u64, b: Pane)
        requires
            o.wf(),
            a.id == id_a,
            b.id == id_b,
            id_a != id_b,
            has_pane(o.root, id_a),
            has_pane(o.root, id_b),
            leaves(o.root).contains(a),
            leaves(o.root).contains(b),
            node_wf(self.root),
            leaves(self.root).len() == leaves(o.root).len(),
            forall|k: int|
                0 <= k < leaves(o.root).len() ==> (#[trigger] leaves(self.root)[k]) == (if leaves(
                    o.root,
                )[k].id == id_a {
                    b
                } else if leaves(o.root)[k].id == id_b {
                    a
                } else {
                    leaves(o.root)[k]
                }),
            self.focus == o.focus,
            self.panes_created == o.panes_created,
            self.splits_created >= o.splits_created,
            self.bell == o.bell,
            self.bell_len == o.bell_len,
        ensures
            self.wf(),
            forall|id: u64| has_pane(self.root, id) <==> has_pane(o.root, id),
    {
        let ja = choose|j: int| 0 <= j < leaves(o.root).len() && #[trigger] leaves(o.root)[j] == a;
        let jb = choose|j: int| 0 <= j < leaves(o.root).len() && #[trigger] leaves(o.root)[j] == b;
        assert forall|id: u64| has_pane(self.root, id) <==> has_pane(o.root, id) by {
            if has_pane(o.root, id) {
                let k = choose|k: int|
                    0 <= k < leaves(o.root).len() && (#[trigger] leaves(o.root)[k]).id == id;
                if id == id_a {
                    assert(leaves(self.root)[jb] == a);
                    assert(leaves(self.root)[jb].id == id);
                } else if id == id_b {
                    assert(leaves(self.root)[ja] == b);
                    assert(leaves(self.root)[ja].id == id);
                } else {
                    assert(leaves(self.root)[k].id == id);
                }
                assert(has_pane(self.root, id));
            }
            if has_pane(self.root, id) {
                let k = choose|k: int|
                    0 <= k < leaves(self.root).len() && (#[trigger] leaves(self.root)[k]).id == id;
                assert(leaves(o.root)[k].id == id || id == id_a || id == id_b);
                if leaves(o.root)[k].id == id {
                    assert(has_pane(o.root, id));
                } else if id == id_a {
                    assert(leaves(o.root)[ja].id == id);
                } else {
                    assert(leaves(o.root)[jb].id == id);
                }
            }
        }
        assert forall|k: int| 0 <= k < leaves(self.root).len() implies (#[trigger] leaves(
            self.root,
        )[k]).id < self.panes_created by {
            assert(leaves(o.root)[k].id < o.panes_created);
        }
        if self.focus is Some {
            assert(has_pane(o.root, self.focus->0));
        }
        if self.bell is Some {
            assert(has_pane(o.root, self.bell->0));
        }
    }

    /// After removing the dragged pane and splitting it back in beside
    /// the target, the pane set is unchanged and the state well formed.
    proof fn lemma_after_edge_move(
        self,
        o: Multiplexer,
        mid: PaneNode,
        pane: u64,
        a: Pane,
        tid: u64,
        b: Pane,
    )
        requires
            o.wf(),
            a.id == pane,
            b.id == tid,
            pane != tid,
            leaves(o.root).contains(a),
            leaves(o.root).contains(b),
            exists|i: int|
                0 <= i < leaves(o.root).len() && #[trigger] leaves(o.root)[i] == a && leaves(
                    o.root,
                )[i].id == pane && leaves(mid) =~= leaves(o.root).remove(i),
            exists|i: int|
                0 <= i < leaves(mid).len() && (#[trigger] leaves(mid)[i]).id == tid && leaves(
                    self.root,
                ) =~= leaves(mid).insert(i + 1, a),
            node_wf(self.root),
            self.focus == o.focus,
            self.panes_created == o.panes_created,
            self.bell == o.bell,
            self.bell_len == o.bell_len,
        ensures
            self.wf(),
            leaves(self.root).len() == leaves(o.root).len(),
            forall|id: u64| has_pane(self.root, id) <==> has_pane(o.root, id),
            has_pane(self.root, pane),
            has_pane(self.root, tid),
            leaves(self.root).contains(a),
            leaves(self.root).contains(b),
            exists|j: int|
                0 <= j && j + 1 < leaves(self.root).len() && (#[trigger] leaves(self.root)[j]).id
                    == tid && leaves(self.root)[j + 1].id == pane,
    {
        let i0 = choose|i: int|
            0 <= i < leaves(o.root).len() && #[trigger] leaves(o.root)[i] == a && leaves(
                o.root,
            )[i].id == pane && leaves(mid) =~= leaves(o.root).remove(i);
        let i1 = choose|i: int|
            0 <= i < leaves(mid).len() && (#[trigger] leaves(mid)[i]).id == tid && leaves(
                self.root,
            ) =~= leaves(mid).insert(i + 1, a);
        assert(leaves(mid).len() == leaves(o.root).len() - 1);
        assert(leaves(self.root).len() == leaves(o.root).len());
        // every leaf of mid is a leaf of the original tree
        assert forall|k: int| 0 <= k < leaves(mid).len() implies leaves(o.root).contains(
            #[trigger] leaves(mid)[k],
        ) by {
            if k < i0 {
                assert(leaves(mid)[k] == leaves(o.root)[k]);
                lemma_seq_self_contains(leaves(o.root), k);
            } else {
                assert(leaves(mid)[k] == leaves(o.root)[k + 1]);
                lemma_seq_self_contains(leaves(o.root), k + 1);
            }
        }
        // every leaf of the new tree is the dragged pane or a leaf of mid
        assert forall|k: int| 0 <= k < leaves(self.root).len() implies (#[trigger] leaves(
            self.root,
        )[k]) == a || leaves(o.root).contains(leaves(self.root)[k]) by {
            if k < i1 + 1 {
                if k < leaves(mid).len() + 1 {
                    assert(leaves(self.root)[k] == leaves(mid)[k]);
                }
            } else if k == i1 + 1 {
                assert(leaves(self.root)[k] == a);
            } else {
                assert(leaves(self.root)[k] == leaves(mid)[k - 1]);
            }
        }
        assert(leaves(self.root)[i1 + 1] == a);
        assert(has_pane(self.root, pane)) by {
            assert(leaves(self.root)[i1 + 1].id == pane);
        }
        assert(leaves(self.root)[i1] == leaves(mid)[i1]);
        assert(0 <= i1 && i1 + 1 < leaves(self.root).len() && leaves(self.root)[i1].id == tid
            && leaves(self.root)[i1 + 1].id == pane);
        assert(leaves(self.root).contains(a)) by {
            lemma_seq_self_contains(leaves(self.root), i1 + 1);
        }
        let jb = choose|j: int| 0 <= j < leaves(o.root).len() && #[trigger] leaves(o.root)[j] == b;
        assert(b.id != pane);
        assert(jb != i0);
        let jb_mid: int = if jb < i0 {
            jb
        } else {
            jb - 1
        };
        assert(leaves(mid)[jb_mid] == b);
        let jb_new: int = if jb_mid <= i1 {
            jb_mid
        } else {
            jb_mid + 1
        };
        assert(leaves(self.root)[jb_new] == b);
        assert(has_pane(self.root, tid)) by {
            assert(leaves(self.root)[jb_new].id == tid);
        }
        assert(leaves(self.root).contains(b)) by {
            lemma_seq_self_contains(leaves(self.root), jb_new);
        }
        assert forall|id: u64| has_pane(self.root, id) <==> has_pane(o.root, id) by {
            if has_pane(o.root, id) {
                let k = choose|k: int|
                    0 <= k < leaves(o.root).len() && (#[trigger] leaves(o.root)[k]).id == id;
                if id == pane {
                    assert(has_pane(self.root, pane));
                } else {
                    assert(k != i0) by {
                        if k == i0 {
                            assert(leaves(o.root)[k].id == pane);
                        }
                    }
                    let k_mid: int = if k < i0 {
                        k
                    } else {
                        k - 1
                    };
                    assert(leaves(mid)[k_mid] == leaves(o.root)[k]);
                    let k_new: int = if k_mid <= i1 {
                        k_mid
                    } else {
                        k_mid + 1
                    };
                    assert(leaves(self.root)[k_new] == leaves(mid)[k_mid]);
                    assert(leaves(self.root)[k_new].id == id);
                    assert(has_pane(self.root, id));
                }
            }
            if has_pane(self.root, id) {
                let k = choose|k: int|
                    0 <= k < leaves(self.root).len() && (#[trigger] leaves(self.root)[k]).id == id;
                if leaves(self.root)[k] == a {
                    let j = choose|j: int|
                        0 <= j < leaves(o.root).len() && #[trigger] leaves(o.root)[j] == a;
                    assert(leaves(o.root)[j].id == id);
                } else {
                    assert(leaves(o.root).contains(leaves(self.root)[k]));
                    let j = choose|j: int|
                        0 <= j < leaves(o.root).len() && #[trigger] leaves(o.root)[j] == leaves(
                            self.root,
                        )[k];
                    assert(leaves(o.root)[j].id == id);
                }
                assert(has_pane(o.root, id));
            }
        }
        assert forall|k: int| 0 <= k < leaves(self.root).len() implies (#[trigger] leaves(
            self.root,
        )[k]).id < self.panes_created by {
            if leaves(self.root)[k] == a {
                let j = choose|j: int|
                    0 <= j < leaves(o.root).len() && #[trigger] leaves(o.root)[j] == a;
                assert(leaves(o.root)[j].id < o.panes_created);
            } else {
                assert(leaves(o.root).contains(leaves(self.root)[k]));
                let j = choose|j: int|
                    0 <= j < leaves(o.root).len() && #[trigger] leaves(o.root)[j] == leaves(
                        self.root,
                    )[k];
                assert(leaves(o.root)[j].id < o.panes_created);
            }
        }
        if self.focus is Some {
            assert(has_pane(o.root, self.focus->0));
        }
        if self.bell is Some {
            assert(has_pane(o.root, self.bell->0));
        }
    }
}

impl Multiplexer {
    /// Drives one message through the state machine and returns the
    /// effects the host must perform, in order. This is the only mutator
    /// of the layout tree, the focus and the bell.
    #[verifier::rlimit(60)]
    pub fn update(&mut self, msg: Msg) -> (effects: Vec<Effect>)
        requires
            old(self).wf(),
        ensures
            final(self).wf(),
            match msg {
                Msg::SplitFocused => split_transition(*old(self), *final(self), effects@),
                Msg::FocusAdjacent(dir) => focus_adjacent_transition(
                    *old(self),
                    *final(self),
                    effects@,
                    dir,
                ),
                Msg::Clicked(pane) => clicked_transition(*old(self), *final(self), effects@, pane),
                Msg::Dragged(ev) => drag_transition(*old(self), *final(self), effects@, ev),
                Msg::Resized { split, ratio } => resized_transition(
                    *old(self),
                    *final(self),
                    effects@,
                    split,
                    ratio,
                ),
                Msg::Close(pane) => close_transition(*old(self), *final(self), effects@, pane),
                Msg::CloseFocused => close_focused_transition(*old(self), *final(self), effects@),
                Msg::BellOn(pane) => bell_transition(*old(self), *final(self), effects@, pane),
                Msg::BellTimeout => bell_timeout_transition(*old(self), *final(self), effects@),
                Msg::SessionEvent(id, action) => session_transition(
                    *old(self),
                    *final(self),
                    effects@,
                    id,
                    action,
                ),
            },
    {
        match msg {
            Msg::SplitFocused => {
                let p: u64 = match self.focus {
                    Some(p) => p,
                    None => {
                        return Vec::new();
                    },
                };
                if self.panes_created == u64::MAX || self.splits_created == u64::MAX {
                    return Vec::new();
                }
                let regions = pane_regions(
                    &self.root,
                    Region { x: 0, y: 0, width: 800, height: 600 },
                );
                let axis: Axis = match region_of(&regions, p) {
                    Some(reg) => if reg.width >= reg.height {
                        Axis::Vertical
                    } else {
                        Axis::Horizontal
                    },
                    None => Axis::Vertical,
                };
                let new_id = self.panes_created;
                let new_pane = Pane::new(new_id);
                proof {
                    assert(!has_pane(self.root, new_id)) by {
                        if has_pane(self.root, new_id) {
                            let k = choose|k: int|
                                0 <= k < leaves(self.root).len() && (#[trigger] leaves(
                                    self.root,
                                )[k]).id == new_id;
                        }
                    }
                }
                let mut tmp = PaneNode::Leaf(Pane::new(0));
                core::mem::swap(&mut self.root, &mut tmp);
                let (new_root, _found) = tree_split(tmp, p, axis, new_pane, self.splits_created);
                self.root = new_root;
                self.focus = Some(new_id);
                self.panes_created = self.panes_created + 1;
                self.splits_created = self.splits_created + 1;
                let mut effects: Vec<Effect> = Vec::new();
                effects.push(Effect::CreateSession(new_id));
                effects.push(Effect::FocusWidget(new_id));
                proof {
                    let o = *old(self);
                    let i = choose|i: int|
                        0 <= i < leaves(o.root).len() && (#[trigger] leaves(o.root)[i]).id == p
                            && leaves(self.root) =~= leaves(o.root).insert(i + 1, new_pane);
                    assert(has_pane(self.root, new_id)) by {
                        assert(leaves(self.root)[i + 1] == new_pane);
                    }
                    assert forall|k: int| 0 <= k < leaves(self.root).len() implies (
                    #[trigger] leaves(self.root)[k]).id < self.panes_created by {
                        if k <= i {
                            assert(leaves(self.root)[k] == leaves(o.root)[k]);
                        } else if k == i + 1 {
                            assert(leaves(self.root)[k] == new_pane);
                        } else {
                            assert(leaves(self.root)[k] == leaves(o.root)[k - 1]);
                        }
                    }
                    if o.bell is Some {
                        let bp = o.bell->0;
                        let j = choose|j: int|
                            0 <= j < leaves(o.root).len() && (#[trigger] leaves(o.root)[j]).id
                                == bp;
                        if j <= i {
                            assert(leaves(self.root)[j].id == bp);
                        } else {
                            assert(leaves(self.root)[j + 1].id == bp);
                        }
                        assert(has_pane(self.root, bp));
                    }
                    assert(effects@ =~= seq![
                        Effect::CreateSession(new_id),
                        Effect::FocusWidget(new_id),
                    ]);
                }
                effects
            },
            Msg::FocusAdjacent(direction) => {
                let p: u64 = match self.focus {
                    Some(p) => p,
                    None => {
                        return Vec::new();
                    },
                };
                match self.adjacent(p, direction) {
                    Some(adj) => {
                        self.focus = Some(adj);
                        let mut effects: Vec<Effect> = Vec::new();
                        effects.push(Effect::FocusWidget(adj));
                        proof {
                            assert(effects@ =~= seq![Effect::FocusWidget(adj)]);
                        }
                        effects
                    },
                    None => Vec::new(),
                }
            },
            Msg::Clicked(pane) => {
                match find_pane(&self.root, pane) {
                    Some(found) => {
                        proof {
                            let j = choose|j: int|
                                0 <= j < leaves(self.root).len() && #[trigger] leaves(
                                    self.root,
                                )[j] == found;
                            assert(has_pane(self.root, pane)) by {
                                assert(leaves(self.root)[j].id == pane);
                            }
                        }
                        self.focus = Some(pane);
                        let mut effects: Vec<Effect> = Vec::new();
                        effects.push(Effect::FocusWidget(pane));
                        proof {
                            assert(effects@ =~= seq![Effect::FocusWidget(pane)]);
                        }
                        effects
                    },
                    None => Vec::new(),
                }
            },
            Msg::Dragged(ev) => {
                match ev {
                    DragEvent::Dropped { pane, target } => self.drop_pane(pane, target),
                    DragEvent::Canceled => Vec::new(),
                }
            },
            Msg::Resized { split, ratio } => {
                let clamped: u32 = if ratio < 1 {
                    1
                } else if ratio > 999 {
                    999
                } else {
                    ratio
                };
                let mut tmp = PaneNode::Leaf(Pane::new(0));
                core::mem::swap(&mut self.root, &mut tmp);
                let new_root = tree_resize(tmp, split, clamped);
                self.root = new_root;
                Vec::new()
            },
            Msg::Close(pane) => self.close_pane(pane),
            Msg::CloseFocused => {
                let p: u64 = match self.focus {
                    Some(p) => p,
                    None => {
                        return Vec::new();
                    },
                };
                let found: Pane = match find_pane(&self.root, p) {
                    Some(found) => found,
                    None => {
                        proof {
                            assert(false);
                        }
                        return Vec::new();
                    },
                };
                proof {
                    let j = choose|j: int|
                        0 <= j < leaves(self.root).len() && #[trigger] leaves(self.root)[j]
                            == found;
                    lemma_unique_pane(self.root, found, j);
                    if found.is_pinned {
                        assert(pane_pinned(self.root, p)) by {
                            assert(leaves(self.root)[j].id == p && leaves(self.root)[j].is_pinned);
                        }
                    } else {
                        assert(!pane_pinned(self.root, p)) by {
                            if pane_pinned(self.root, p) {
                                let k = choose|k: int|
                                    0 <= k < leaves(self.root).len() && (#[trigger] leaves(
                                        self.root,
                                    )[k]).id == p && leaves(self.root)[k].is_pinned;
                                assert(leaves(self.root)[k] == found);
                            }
                        }
                    }
                }
                if found.is_pinned {
                    Vec::new()
                } else {
                    self.close_pane(p)
                }
            },
            Msg::BellOn(pane) => self.bell_on(pane),
            Msg::BellTimeout => {
                let b: u64 = match self.bell {
                    Some(b) => b,
                    None => {
                        return Vec::new();
                    },
                };
                let mut tmp = PaneNode::Leaf(Pane::new(0));
                core::mem::swap(&mut self.root, &mut tmp);
                let (new_root, _found) = tree_set_bell(tmp, b, false);
                self.root = new_root;
                self.bell = None;
                proof {
                    let o = *old(self);
                    assert forall|k: int| 0 <= k < leaves(self.root).len() implies (
                    #[trigger] leaves(self.root)[k]).id < self.panes_created by {
                        assert(leaves(self.root)[k].id == leaves(o.root)[k].id);
                    }
                    if o.focus is Some {
                        let f = o.focus->0;
                        let j = choose|j: int|
                            0 <= j < leaves(o.root).len() && (#[trigger] leaves(o.root)[j]).id
                                == f;
                        assert(leaves(self.root)[j].id == f);
                    }
                }
                Vec::new()
            },
            Msg::SessionEvent(id, action) => {
                match action {
                    crate::actions::Action::Shutdown => self.close_pane(id),
                    crate::actions::Action::Bell => self.bell_on(id),
                    _ => Vec::new(),
                }
            },
        }
    }
}

/// Pane closure invariant. Closing a pane the tree holds alongside others
/// leaves exactly one fewer leaf and a valid focus on a pane the tree
/// still holds (the promoted sibling's). Closing the last remaining pane
/// never mutates the state: the request is forwarded as a window-close
/// effect instead.
pub proof fn lemma_close_invariant(o: Multiplexer, n: Multiplexer, effects: Seq<Effect>, target: u64)
    requires
        close_transition(o, n, effects, target),
        has_pane(o.root, target),
    ensures
        leaves(o.root).len() > 1 ==> leaves(n.root).len() == leaves(o.root).len() - 1 && (n.focus
            matches Some(s) && has_pane(n.root, s)),
        leaves(o.root).len() == 1 ==> n == o && effects =~= seq![Effect::CloseWindow],
{
    if leaves(o.root).len() > 1 {
        let i = choose|i: int|
            0 <= i < leaves(o.root).len() && (#[trigger] leaves(o.root)[i]).id == target && leaves(
                n.root,
            ) =~= leaves(o.root).remove(i);
        assert(leaves(n.root).len() == leaves(o.root).len() - 1);
    }
}

/// The window-manager hotkeys (pressed with the alt modifier held): `q`
/// closes the focused pane, `n` splits it, and the arrow keys move focus.
pub fn handle_hotkey(key: &crate::input::Key) -> (r: Option<Msg>)
    ensures
        match *key {
            crate::input::Key::Character { ch: 0x71u32, .. } => r == Some(Msg::CloseFocused),
            crate::input::Key::Character { ch: 0x6Eu32, .. } => r == Some(Msg::SplitFocused),
            crate::input::Key::Named(KeyCode::ArrowUp) => r == Some(
                Msg::FocusAdjacent(Direction::Up),
            ),
            crate::input::Key::Named(KeyCode::ArrowDown) => r == Some(
                Msg::FocusAdjacent(Direction::Down),
            ),
            crate::input::Key::Named(KeyCode::ArrowLeft) => r == Some(
                Msg::FocusAdjacent(Direction::Left),
            ),
            crate::input::Key::Named(KeyCode::ArrowRight) => r == Some(
                Msg::FocusAdjacent(Direction::Right),
            ),
            _ => r is None,
        },
{
    match key {
        crate::input::Key::Character { ch, .. } => {
            if *ch == 0x71 {
                Some(Msg::CloseFocused)
            } else if *ch == 0x6E {
                Some(Msg::SplitFocused)
            } else {
                None
            }
        },
        crate::input::Key::Named(code) => {
            match code {
                KeyCode::ArrowUp => Some(Msg::FocusAdjacent(Direction::Up)),
                KeyCode::ArrowDown => Some(Msg::FocusAdjacent(Direction::Down)),
                KeyCode::ArrowLeft => Some(Msg::FocusAdjacent(Direction::Left)),
                KeyCode::ArrowRight => Some(Msg::FocusAdjacent(Direction::Right)),
                _ => None,
            }
        },
        crate::input::Key::Other => None,
    }
}

} // verus!
