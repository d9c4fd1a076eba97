//! Queries on the render tree: the leaf and contents at a point, and the
//! faces potentially visible from a leaf.
use vstd::prelude::*;
use crate::bspfile::Contents;
use crate::geometry::{in_front, plane_diff, point_in_front, Vec3T};
use crate::records::{Child, ClipChild, MClipNodeT};
use crate::vis::{decompress_vis, row_bit, row_bit_set, row_bytes, vis_row};
use crate::world::{hull0_node, World};

verus! {

/// The leaf reached by descending from node `n` toward `p`; a point on a
/// node's plane goes to its front child.
pub open spec fn descend(w: World, n: nat, p: Vec3T) -> nat
    decreases w.nodes@.len() - n,
{
    if n >= w.nodes@.len() {
        0
    } else {
        let node = w.nodes@[n as int];
        let ch = if in_front(w.planes@[node.plane as int], p) {
            node.front
        } else {
            node.back
        };
        match ch {
            Child::Leaf(l) => l as nat,
            Child::Node(c) => if n < c < w.nodes@.len() {
                descend(w, c as nat, p)
            } else {
                0
            },
        }
    }
}

/// The leaf reached from a child reference.
pub open spec fn descend_child(w: World, ch: Child, p: Vec3T) -> nat {
    match ch {
        Child::Leaf(l) => l as nat,
        Child::Node(c) => descend(w, c as nat, p),
    }
}

/// The leaf of submodel `m` that holds `p`.
pub open spec fn leaf_at(w: World, m: int, p: Vec3T) -> nat {
    descend(w, w.models@[m].head_node as nat, p)
}

/// Contents reached by descending hull `nodes` from clip node `n` toward `p`.
pub open spec fn hull_walk(nodes: Seq<MClipNodeT>, w: World, n: nat, p: Vec3T) -> Contents
    decreases nodes.len() - n,
{
    if n >= nodes.len() {
        Contents::Solid
    } else {
        let cn = nodes[n as int];
        let ch = if in_front(w.planes@[cn.plane as int], p) {
            cn.front
        } else {
            cn.back
        };
        match ch {
            ClipChild::Contents(c) => c,
            ClipChild::Node(m) => if n < m < nodes.len() {
                hull_walk(nodes, w, m as nat, p)
            } else {
                Contents::Solid
            },
        }
    }
}

/// Contents of the volume of a hull that holds `p`, from a root reference.
pub open spec fn hull_contents(nodes: Seq<MClipNodeT>, w: World, ch: ClipChild, p: Vec3T) -> Contents {
    match ch {
        ClipChild::Contents(c) => c,
        ClipChild::Node(n) => hull_walk(nodes, w, n as nat, p),
    }
}

impl World {
    /// Finds the leaf of submodel `model` that holds `p`, descending from the
    /// model's head node.
    pub fn leaf_for_point(&self, model: usize, p: &Vec3T) -> (r: usize)
        requires
            self.wf(),
            model < self.models@.len(),
            p.wf(),
        ensures
            r == leaf_at(*self, model as int, *p),
            r < self.leafs@.len(),
    {
        let head = self.models[model].head_node;
        let mut n: usize = head;
        loop
            invariant
                self.wf(),
                p.wf(),
                n < self.nodes@.len(),
                model < self.models@.len(),
                head == self.models@[model as int].head_node,
                descend(*self, n as nat, *p) == descend(*self, head as nat, *p),
            decreases self.nodes@.len() - n,
        {
            let node = self.nodes[n];
            assert(self.nodes@[n as int] == node);
            let front = point_in_front(&self.planes[node.plane], p);
            let ch = if front {
                node.front
            } else {
                node.back
            };
            match ch {
                Child::Leaf(l) => {
                    assert(descend(*self, n as nat, *p) == l as nat);
                    return l;
                },
                Child::Node(c) => {
                    n = c;
                },
            }
        }
    }

    /// Contents of the leaf of submodel `model` that holds `p`.
    pub fn contents_at(&self, model: usize, p: &Vec3T) -> (r: Contents)
        requires
            self.wf(),
            model < self.models@.len(),
            p.wf(),
        ensures
            r == self.leafs@[leaf_at(*self, model as int, *p) as int].contents,
    {
        let l = self.leaf_for_point(model, p);
        self.leafs[l].contents
    }
}

proof fn lemma_hull0_walk(w: World, n: nat, p: Vec3T)
    requires
        w.wf(),
        n < w.nodes@.len(),
    ensures
        hull_walk(w.hull0@, w, n, p) == w.leafs@[descend(w, n, p) as int].contents,
    decreases w.nodes@.len() - n,
{
    let node = w.nodes@[n as int];
    assert(w.hull0@[n as int] == hull0_node(w.leafs@, node));
    let ch = if in_front(w.planes@[node.plane as int], p) {
        node.front
    } else {
        node.back
    };
    match ch {
        Child::Leaf(l) => {},
        Child::Node(c) => {
            lemma_hull0_walk(w, c as nat, p);
        },
    }
}

/// The point hull and the render tree agree: the leaf found for a point is
/// solid exactly where the point hull (the collision geometry) says solid,
/// and is not solid where the point hull says open space.
pub proof fn lemma_leaf_matches_point_hull(w: World, m: int, p: Vec3T)
    requires
        w.wf(),
        0 <= m < w.models@.len(),
    ensures
        w.leafs@[leaf_at(w, m, p) as int].contents == hull_contents(
            w.hull0@,
            w,
            ClipChild::Node(w.models@[m].head_node),
            p,
        ),
        hull_contents(w.hull0@, w, ClipChild::Node(w.models@[m].head_node), p) == Contents::Solid
            ==> w.leafs@[leaf_at(w, m, p) as int].contents == Contents::Solid,
        hull_contents(w.hull0@, w, ClipChild::Node(w.models@[m].head_node), p) == Contents::Empty
            ==> w.leafs@[leaf_at(w, m, p) as int].contents != Contents::Solid,
{
    lemma_hull0_walk(w, w.models@[m].head_node as nat, p);
}

/// A point exactly on a node's plane always continues into the node's front
/// child.
pub proof fn lemma_on_plane_goes_front(w: World, n: nat, p: Vec3T)
    requires
        w.wf(),
        n < w.nodes@.len(),
        plane_diff(w.planes@[w.nodes@[n as int].plane as int], p) == 0,
    ensures
        descend(w, n, p) == descend_child(w, w.nodes@[n as int].front, p),
{
}

/// Leafs the world model's visibility rows cover: all but the solid leaf 0.
pub open spec fn vis_leafs(w: World) -> nat {
    w.models@[0].visleafs as nat
}

/// The expanded visibility row of `leaf`. Leaf 0 has no data and sees
/// everything.
pub open spec fn leaf_row(w: World, leaf: int) -> Seq<u8> {
    if leaf == 0 {
        vis_row(w.visdata@, None, vis_leafs(w))
    } else {
        vis_row(w.visdata@, w.leafs@[leaf].visofs, vis_leafs(w))
    }
}

/// Leaf `l` is potentially visible from `viewer`: bit `l - 1` of the
/// viewer's row is set.
pub open spec fn leaf_visible(w: World, viewer: int, l: int) -> bool {
    1 <= l <= vis_leafs(w) && row_bit(leaf_row(w, viewer), l - 1)
}

/// Face `f` is in the face list of leaf `l`.
pub open spec fn leaf_has_face(w: World, l: int, f: int) -> bool {
    exists|j: int|
        w.leafs@[l].first_mark <= j < w.leafs@[l].first_mark + w.leafs@[l].num_marks
            && #[trigger] w.marksurfaces@[j].face == f
}

/// Face `f` belongs to a leaf below `upto` that is visible from `viewer`.
pub open spec fn seen_before(w: World, viewer: int, upto: int, f: int) -> bool {
    exists|l: int| 1 <= l < upto && #[trigger] leaf_visible(w, viewer, l) && leaf_has_face(w, l, f)
}

/// Face `f` belongs to a leaf potentially visible from `viewer`.
pub open spec fn face_visible(w: World, viewer: int, f: int) -> bool {
    seen_before(w, viewer, vis_leafs(w) + 1int, f)
}

/// The frame stamps after marking the faces visible from `viewer` with `frame`.
pub open spec fn marks_after(w: World, viewer: int, frame: u32, marks: Seq<u32>) -> Seq<u32> {
    Seq::new(
        marks.len(),
        |f: int|
            if face_visible(w, viewer, f) {
                frame
            } else {
                marks[f]
            },
    )
}

/// A face that marking stamps anew: visible, and not yet stamped with `frame`.
pub open spec fn newly_marked(w: World, viewer: int, frame: u32, marks: Seq<u32>, f: int) -> bool {
    0 <= f < marks.len() && face_visible(w, viewer, f) && marks[f] != frame
}

impl World {
    /// The expanded visibility row of `leaf`, one bit per leaf from leaf 1 on.
    pub fn leaf_vis_row(&self, leaf: usize) -> (r: Vec<u8>)
        requires
            self.wf(),
            leaf < self.leafs@.len(),
        ensures
            r@ == leaf_row(*self, leaf as int),
            r@.len() == row_bytes(vis_leafs(*self)),
    {
        let n = self.models[0].visleafs;
        if leaf == 0 {
            decompress_vis(&self.visdata, None, n)
        } else {
            decompress_vis(&self.visdata, self.leafs[leaf].visofs, n)
        }
    }

    /// Stamps every face of every leaf potentially visible from `viewer` with
    /// `frame`, and returns the faces that were not stamped with it before,
    /// each once.
    pub fn mark_visible_surfaces(&self, viewer: usize, frame: u32, marks: &mut Vec<u32>) -> (r: Vec<
        usize,
    >)
        requires
            self.wf(),
            viewer < self.leafs@.len(),
            old(marks)@.len() == self.faces@.len(),
        ensures
            final(marks)@ == marks_after(*self, viewer as int, frame, old(marks)@),
            forall|f: usize|
                #[trigger] r@.contains(f) <==> newly_marked(
                    *self,
                    viewer as int,
                    frame,
                    old(marks)@,
                    f as int,
                ),
            r@.no_duplicates(),
    {
        let row = self.leaf_vis_row(viewer);
        let n = self.models[0].visleafs;
        let ghost w = *self;
        let ghost v = viewer as int;
        let ghost start = marks@;
        let mut out: Vec<usize> = Vec::new();
        let mut l: usize = 1;
        let _nl = self.leafs.len();
        let _nm = self.marksurfaces.len();
        while l <= n
            invariant
                self.wf(),
                n == vis_leafs(w),
                w == *self,
                viewer < self.leafs@.len(),
                row@ == leaf_row(w, v),
                row@.len() == row_bytes(n as nat),
                n < self.leafs@.len() <= usize::MAX,
                self.marksurfaces@.len() <= usize::MAX,
                1 <= l <= n + 1,
                marks@.len() == start.len() == self.faces@.len(),
                forall|f: int|
                    0 <= f < start.len() ==> #[trigger] marks@[f] == if seen_before(w, v, l as int, f) {
                        frame
                    } else {
                        start[f]
                    },
                forall|f: usize|
                    #[trigger] out@.contains(f) <==> (f < start.len() && marks@[f as int] == frame
                        && start[f as int] != frame),
                out@.no_duplicates(),
            decreases n + 1 - l,
        {
            proof {
                assert((l - 1) / 8 < row_bytes(n as nat));
            }
            let visible = row_bit_set(&row, l - 1);
            assert(self.models@[0].visleafs < self.leafs@.len());
            let leaf = self.leafs[l];
            let first = leaf.first_mark;
            let count = leaf.num_marks;
            assert(self.leafs@[l as int].first_mark + self.leafs@[l as int].num_marks
                <= self.marksurfaces@.len());
            let end = first + count;
            if visible {
                let mut j: usize = first;
                while j < end
                    invariant
                        self.wf(),
                        w == *self,
                        1 <= l <= n,
                        n == vis_leafs(w),
                        leaf == self.leafs@[l as int],
                        first == leaf.first_mark,
                        count == leaf.num_marks,
                        end == first + count,
                        first + count <= self.marksurfaces@.len(),
                        first <= j <= first + count,
                        leaf_visible(w, v, l as int),
                        marks@.len() == start.len() == self.faces@.len(),
                        forall|f: int|
                            0 <= f < start.len() ==> #[trigger] marks@[f] == if seen_before(
                                w,
                                v,
                                l as int,
                                f,
                            ) || (exists|k: int|
                                first <= k < j && #[trigger] self.marksurfaces@[k].face == f) {
                                frame
                            } else {
                                start[f]
                            },
                        forall|f: usize|
                            #[trigger] out@.contains(f) <==> (f < start.len() && marks@[f as int]
                                == frame && start[f as int] != frame),
                        out@.no_duplicates(),
                    decreases first + count - j,
                {
                    let g = self.marksurfaces[j].face;
                    let ghost old_marks = marks@;
                    let ghost old_out = out@;
                    if marks[g] != frame {
                        out.push(g);
                        proof {
                            assert(!old_out.contains(g));
                            assert forall|a: int, b: int| 0 <= a < b < out@.len() implies out@[a]
                                != out@[b] by {
                                if b == out@.len() - 1 {
                                    assert(old_out[a] == out@[a]);
                                    assert(old_out.contains(old_out[a]));
                                } else {
                                    assert(old_out[a] == out@[a] && old_out[b] == out@[b]);
                                }
                            }
                            assert forall|f: usize| #[trigger] out@.contains(f) <==> (f
                                < start.len() && (if f == g {
                                frame
                            } else {
                                old_marks[f as int]
                            }) == frame && start[f as int] != frame) by {
                                if f == g {
                                    assert(out@[out@.len() - 1] == g);
                                } else {
                                    if out@.contains(f) {
                                        let i = choose|i: int| 0 <= i < out@.len() && out@[i] == f;
                                        assert(old_out[i] == f);
                                    }
                                    if old_out.contains(f) {
                                        let i = choose|i: int| 0 <= i < old_out.len() && old_out[i] == f;
                                        assert(out@[i] == f);
                                    }
                                }
                            }
                        }
                    }
                    marks.set(g, frame);
                    proof {
                        assert forall|f: int| 0 <= f < start.len() implies #[trigger] marks@[f] == if seen_before(
                            w,
                            v,
                            l as int,
                            f,
                        ) || (exists|k: int|
                            first <= k < j + 1 && #[trigger] self.marksurfaces@[k].face == f) {
                            frame
                        } else {
                            start[f]
                        } by {
                            if f == g {
                                assert(self.marksurfaces@[j as int].face == f);
                            } else {
                                if exists|k: int|
                                    first <= k < j + 1 && #[trigger] self.marksurfaces@[k].face == f {
                                    let k = choose|k: int|
                                        first <= k < j + 1 && #[trigger] self.marksurfaces@[k].face == f;
                                    assert(k != j);
                                }
                            }
                        }
                    }
                    j = j + 1;
                }
                proof {
                    assert forall|f: int| 0 <= f < start.len() implies #[trigger] marks@[f] == if seen_before(
                        w,
                        v,
                        l + 1,
                        f,
                    ) {
                        frame
                    } else {
                        start[f]
                    } by {
                        if seen_before(w, v, l + 1, f) && !seen_before(w, v, l as int, f) {
                            let m = choose|m: int|
                                1 <= m < l + 1 && #[trigger] leaf_visible(w, v, m) && leaf_has_face(w, m, f);
                            assert(m == l);
                            let k = choose|k: int|
                                w.leafs@[m].first_mark <= k < w.leafs@[m].first_mark + w.leafs@[m].num_marks
                                    && #[trigger] w.marksurfaces@[k].face == f;
                            assert(first <= k < first + count && self.marksurfaces@[k].face == f);
                        }
                        if exists|k: int| first <= k < first + count && #[trigger] self.marksurfaces@[k].face == f {
                            assert(leaf_has_face(w, l as int, f));
                            assert(seen_before(w, v, l + 1, f));
                        }
                        if seen_before(w, v, l as int, f) {
                            let m = choose|m: int|
                                1 <= m < l && #[trigger] leaf_visible(w, v, m) && leaf_has_face(w, m, f);
                            assert(seen_before(w, v, l + 1, f));
                        }
                    }
                }
            } else {
                proof {
                    assert forall|f: int| 0 <= f < start.len() implies seen_before(w, v, l + 1, f)
                        == seen_before(w, v, l as int, f) by {
                        if seen_before(w, v, l + 1, f) {
                            let m = choose|m: int|
                                1 <= m < l + 1 && #[trigger] leaf_visible(w, v, m) && leaf_has_face(w, m, f);
                            assert(m != l);
                        }
                        if seen_before(w, v, l as int, f) {
                            let m = choose|m: int|
                                1 <= m < l && #[trigger] leaf_visible(w, v, m) && leaf_has_face(w, m, f);
                            assert(seen_before(w, v, l + 1, f));
                        }
                    }
                }
            }
            l = l + 1;
        }
        proof {
            assert(marks@ =~= marks_after(w, v, frame, start));
            assert forall|f: usize| #[trigger] out@.contains(f) <==> newly_marked(w, v, frame, start, f as int) by {
                if f < start.len() {
                    assert(marks@[f as int] == marks_after(w, v, frame, start)[f as int]);
                }
            }
        }
        out
    }
}

/// Marking twice with the same viewer and frame changes nothing the second
/// time and stamps no face anew: the visible set is the same both times.
pub proof fn lemma_mark_idempotent(w: World, viewer: int, frame: u32, marks: Seq<u32>)
    ensures
        marks_after(w, viewer, frame, marks_after(w, viewer, frame, marks)) == marks_after(
            w,
            viewer,
            frame,
            marks,
        ),
        forall|f: int| !newly_marked(w, viewer, frame, marks_after(w, viewer, frame, marks), f),
{
    assert(marks_after(w, viewer, frame, marks_after(w, viewer, frame, marks)) =~= marks_after(
        w,
        viewer,
        frame,
        marks,
    ));
}

/// Node `p` has `ch` as a child.
pub open spec fn has_child(w: World, p: int, ch: Child) -> bool {
    w.nodes@[p].front == ch || w.nodes@[p].back == ch
}

/// Parent back-references of the render tree, as node indices.
pub struct Parents {
    pub nodes: Vec<Option<usize>>,
    pub leafs: Vec<Option<usize>>,
}

fn set_parent(np: &mut Vec<Option<usize>>, lp: &mut Vec<Option<usize>>, ch: Child, p: usize)
    requires
        ch matches Child::Node(c) ==> c < old(np)@.len(),
        ch matches Child::Leaf(l) ==> l < old(lp)@.len(),
    ensures
        final(np)@ == match ch {
            Child::Node(c) => old(np)@.update(c as int, Some(p)),
            Child::Leaf(_) => old(np)@,
        },
        final(lp)@ == match ch {
            Child::Node(_) => old(lp)@,
            Child::Leaf(l) => old(lp)@.update(l as int, Some(p)),
        },
{
    match ch {
        Child::Node(c) => {
            np.set(c, Some(p));
        },
        Child::Leaf(l) => {
            lp.set(l, Some(p));
        },
    }
}

impl World {
    /// The parent of every node and leaf: a node that has it as a child, or
    /// `None` for a root or an unreferenced element.
    pub fn parents(&self) -> (r: Parents)
        requires
            self.wf(),
        ensures
            r.nodes@.len() == self.nodes@.len(),
            r.leafs@.len() == self.leafs@.len(),
            forall|c: int|
                0 <= c < self.nodes@.len() ==> (#[trigger] r.nodes@[c] is Some <==> exists|p: int|
                    0 <= p < self.nodes@.len() && #[trigger] has_child(*self, p, Child::Node(c as usize))),
            forall|c: int|
                0 <= c < self.nodes@.len() ==> (#[trigger] r.nodes@[c] matches Some(p) ==> p < self.nodes@.len()
                    && has_child(*self, p as int, Child::Node(c as usize))),
            forall|l: int|
                0 <= l < self.leafs@.len() ==> (#[trigger] r.leafs@[l] is Some <==> exists|p: int|
                    0 <= p < self.nodes@.len() && #[trigger] has_child(*self, p, Child::Leaf(l as usize))),
            forall|l: int|
                0 <= l < self.leafs@.len() ==> (#[trigger] r.leafs@[l] matches Some(p) ==> p < self.nodes@.len()
                    && has_child(*self, p as int, Child::Leaf(l as usize))),
    {
        let mut np: Vec<Option<usize>> = Vec::new();
        let mut k: usize = 0;
        while k < self.nodes.len()
            invariant
                k <= self.nodes@.len(),
                np@.len() == k,
                forall|i: int| 0 <= i < k ==> np@[i] is None,
            decreases self.nodes@.len() - k,
        {
            np.push(None);
            k = k + 1;
        }
        let mut lp: Vec<Option<usize>> = Vec::new();
        k = 0;
        while k < self.leafs.len()
            invariant
                k <= self.leafs@.len(),
                lp@.len() == k,
                forall|i: int| 0 <= i < k ==> lp@[i] is None,
            decreases self.leafs@.len() - k,
        {
            lp.push(None);
            k = k + 1;
        }
        let mut p: usize = 0;
        let _nl = self.leafs.len();
        while p < self.nodes.len()
            invariant
                self.wf(),
                self.leafs@.len() <= usize::MAX,
                p <= self.nodes@.len(),
                np@.len() == self.nodes@.len(),
                lp@.len() == self.leafs@.len(),
                forall|c: int|
                    0 <= c < self.nodes@.len() ==> (#[trigger] np@[c] is Some <==> exists|q: int|
                        0 <= q < p && #[trigger] has_child(*self, q, Child::Node(c as usize))),
                forall|c: int|
                    0 <= c < self.nodes@.len() ==> (#[trigger] np@[c] matches Some(q) ==> q < p && has_child(
                        *self,
                        q as int,
                        Child::Node(c as usize),
                    )),
                forall|l: int|
                    0 <= l < self.leafs@.len() ==> (#[trigger] lp@[l] is Some <==> exists|q: int|
                        0 <= q < p && #[trigger] has_child(*self, q, Child::Leaf(l as usize))),
                forall|l: int|
                    0 <= l < self.leafs@.len() ==> (#[trigger] lp@[l] matches Some(q) ==> q < p && has_child(
                        *self,
                        q as int,
                        Child::Leaf(l as usize),
                    )),
            decreases self.nodes@.len() - p,
        {
            let n = self.nodes[p];
            assert(self.nodes@[p as int] == n);
            let ghost np0 = np@;
            let ghost lp0 = lp@;
            set_parent(&mut np, &mut lp, n.front, p);
            set_parent(&mut np, &mut lp, n.back, p);
            proof {
                assert forall|c: int| 0 <= c < self.nodes@.len() implies (#[trigger] np@[c] is Some
                    <==> exists|q: int|
                    0 <= q < p + 1 && #[trigger] has_child(*self, q, Child::Node(c as usize))) by {
                    if has_child(*self, p as int, Child::Node(c as usize)) {
                        assert(np@[c] == Some(p));
                    } else {
                        assert(np@[c] == np0[c]);
                        if exists|q: int| 0 <= q < p + 1 && #[trigger] has_child(*self, q, Child::Node(c as usize)) {
                            let q = choose|q: int|
                                0 <= q < p + 1 && #[trigger] has_child(*self, q, Child::Node(c as usize));
                            assert(q != p);
                        }
                    }
                }
                assert forall|l: int| 0 <= l < self.leafs@.len() implies (#[trigger] lp@[l] is Some
                    <==> exists|q: int|
                    0 <= q < p + 1 && #[trigger] has_child(*self, q, Child::Leaf(l as usize))) by {
                    if has_child(*self, p as int, Child::Leaf(l as usize)) {
                        assert(lp@[l] == Some(p));
                    } else {
                        assert(lp@[l] == lp0[l]);
                        if exists|q: int| 0 <= q < p + 1 && #[trigger] has_child(*self, q, Child::Leaf(l as usize)) {
                            let q = choose|q: int|
                                0 <= q < p + 1 && #[trigger] has_child(*self, q, Child::Leaf(l as usize));
                            assert(q != p);
                        }
                    }
                }
            }
            p = p + 1;
        }
        Parents { nodes: np, leafs: lp }
    }
}

} // verus!
