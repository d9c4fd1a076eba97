//! Collision hulls and the swept-point trace through them.
use vstd::prelude::*;
use vstd::arithmetic::div_mod::{lemma_div_is_ordered, lemma_div_multiples_vanish, lemma_div_pos_is_pos};
use vstd::arithmetic::mul::lemma_mul_inequality;
use crate::bsp::{hull_contents, hull_walk};
use crate::bspfile::Contents;
use crate::geometry::{coord_ok, plane_diff, plane_distance, Vec3T, DIST_EPSILON};
use crate::records::{ClipChild, MClipNodeT};
use crate::world::{head_ok, World};
use crate::wire::FIXED_ONE;

verus! {

/// A trace fraction of one: the whole sweep.
pub const FRAC_ONE: u64 = 65536;

/// One of the four hulls of a submodel: which clip-node array it walks, its
/// root, and the box its geometry was expanded by.
#[derive(Clone, Copy, Debug, PartialEq, Eq, Structural)]
pub struct HullT {
    /// 0 walks the point hull built from the render tree; 1-3 the file's clip nodes.
    pub which: usize,
    pub head: ClipChild,
    pub clip_mins: Vec3T,
    pub clip_maxs: Vec3T,
}

/// The plane a trace crossed into the volume it stopped in; `back_side` when
/// it crossed from the plane's back.
#[derive(Clone, Copy, Debug, PartialEq, Eq, Structural)]
pub struct TracePlane {
    pub plane: usize,
    pub back_side: bool,
}

/// Outcome of a sweep.
#[derive(Clone, Copy, Debug, PartialEq, Eq, Structural)]
pub enum TraceResult {
    /// The sweep reached its end in open space.
    Clear,
    /// The sweep stopped at `fraction` (of `FRAC_ONE`), at `point`; `plane`
    /// is `None` where it started inside non-empty contents.
    Hit { fraction: u64, point: Vec3T, plane: Option<TracePlane> },
}

/// The clip nodes that hull `which` walks.
pub open spec fn hull_nodes(w: World, which: usize) -> Seq<MClipNodeT> {
    if which == 0 {
        w.hull0@
    } else {
        w.clipnodes@
    }
}

pub open spec fn box_of(x: int, y: int, z: int) -> Vec3T {
    Vec3T { x: (x * FIXED_ONE) as i64, y: (y * FIXED_ONE) as i64, z: (z * FIXED_ONE) as i64 }
}

/// The hull `which` of submodel `m`.
pub open spec fn hull_of(w: World, m: int, which: usize) -> HullT {
    let md = w.models@[m];
    if which == 0 {
        HullT { which, head: ClipChild::Node(md.head_node), clip_mins: box_of(0, 0, 0), clip_maxs: box_of(0, 0, 0) }
    } else if which == 1 {
        HullT { which, head: md.hull1_head, clip_mins: box_of(-16, -16, -24), clip_maxs: box_of(16, 16, 32) }
    } else if which == 2 {
        HullT { which, head: md.hull2_head, clip_mins: box_of(-32, -32, -24), clip_maxs: box_of(32, 32, 64) }
    } else {
        HullT { which, head: md.hull3_head, clip_mins: box_of(0, 0, 0), clip_maxs: box_of(0, 0, 0) }
    }
}

/// Rank of a child in the descent: strictly smaller below any clip node.
pub open spec fn rank(nodes: Seq<MClipNodeT>, ch: ClipChild) -> int {
    match ch {
        ClipChild::Contents(_) => 0,
        ClipChild::Node(n) => if n < nodes.len() {
            nodes.len() - n
        } else {
            0
        },
    }
}

/// Child `ch` of clip node `n` lies below it.
pub open spec fn below(nodes: Seq<MClipNodeT>, n: int, ch: ClipChild) -> bool {
    match ch {
        ClipChild::Contents(_) => true,
        ClipChild::Node(m) => n < m < nodes.len(),
    }
}

/// `c1 + (c2 - c1) * num / den`, rounded toward `c1`.
pub open spec fn lerp(c1: int, c2: int, num: int, den: int) -> int {
    if c2 >= c1 {
        c1 + (c2 - c1) * num / den
    } else {
        c1 - (c1 - c2) * num / den
    }
}

pub open spec fn lerp3(p1: Vec3T, p2: Vec3T, num: int, den: int) -> Vec3T {
    Vec3T {
        x: lerp(p1.x as int, p2.x as int, num, den) as i64,
        y: lerp(p1.y as int, p2.y as int, num, den) as i64,
        z: lerp(p1.z as int, p2.z as int, num, den) as i64,
    }
}

pub open spec fn abs(x: int) -> int {
    if x < 0 {
        -x
    } else {
        x
    }
}

/// Numerator of the crossing fraction of a segment whose ends lie `t1` and
/// `t2` from a plane, on opposite sides: the crossing moved `DIST_EPSILON`
/// back toward the start, kept within the segment.
pub open spec fn cross_num(t1: int, t2: int) -> int {
    let den = abs(t1) + abs(t2);
    let num = abs(t1) - DIST_EPSILON;
    if num < 0 {
        0
    } else if num > den {
        den
    } else {
        num
    }
}

/// The sweep of the segment from `p1` (at fraction `f1`) to `p2` (at `f2`)
/// through the hull below `ch`. Where the segment crosses a clip node's
/// plane, the part on the start's side is swept first and the far part only
/// if the near part met nothing; `entry` is the plane crossed to reach `p1`.
pub open spec fn trace_from(
    nodes: Seq<MClipNodeT>,
    w: World,
    ch: ClipChild,
    f1: int,
    f2: int,
    p1: Vec3T,
    p2: Vec3T,
    entry: Option<TracePlane>,
) -> TraceResult
    decreases rank(nodes, ch),
{
    match ch {
        ClipChild::Contents(c) => if c == Contents::Empty {
            TraceResult::Clear
        } else {
            TraceResult::Hit { fraction: f1 as u64, point: p1, plane: entry }
        },
        ClipChild::Node(n) => {
            if n >= nodes.len() || !below(nodes, n as int, nodes[n as int].front) || !below(
                nodes,
                n as int,
                nodes[n as int].back,
            ) {
                TraceResult::Hit { fraction: f1 as u64, point: p1, plane: entry }
            } else {
                let cn = nodes[n as int];
                let pl = w.planes@[cn.plane as int];
                let t1 = plane_diff(pl, p1);
                let t2 = plane_diff(pl, p2);
                if t1 >= 0 && t2 >= 0 {
                    trace_from(nodes, w, cn.front, f1, f2, p1, p2, entry)
                } else if t1 < 0 && t2 < 0 {
                    trace_from(nodes, w, cn.back, f1, f2, p1, p2, entry)
                } else {
                    let den = abs(t1) + abs(t2);
                    let num = cross_num(t1, t2);
                    let fm = f1 + (f2 - f1) * num / den;
                    let mid = lerp3(p1, p2, num, den);
                    let back = t1 < 0;
                    let (near, far) = if back {
                        (cn.back, cn.front)
                    } else {
                        (cn.front, cn.back)
                    };
                    let r = trace_from(nodes, w, near, f1, fm, p1, mid, entry);
                    if r is Hit {
                        r
                    } else {
                        trace_from(
                            nodes,
                            w,
                            far,
                            fm,
                            f2,
                            mid,
                            p2,
                            Some(TracePlane { plane: cn.plane, back_side: back }),
                        )
                    }
                }
            }
        },
    }
}

/// `0 <= x * num / den <= x`.
proof fn lemma_scaled(x: int, num: int, den: int)
    requires
        x >= 0,
        0 <= num <= den,
        den > 0,
    ensures
        0 <= x * num / den <= x,
{
    lemma_mul_inequality(num, den, x);
    assert(num * x == x * num && den * x == x * den) by (nonlinear_arith);
    lemma_div_is_ordered(x * num, x * den, den);
    lemma_div_multiples_vanish(x, den);
    assert(x * num >= 0) by (nonlinear_arith)
        requires
            x >= 0,
            num >= 0,
    ;
    lemma_div_pos_is_pos(x * num, den);
}

proof fn lemma_lerp_between(c1: int, c2: int, num: int, den: int)
    requires
        0 <= num <= den,
        den > 0,
    ensures
        c1 <= c2 ==> c1 <= lerp(c1, c2, num, den) <= c2,
        c2 < c1 ==> c2 <= lerp(c1, c2, num, den) <= c1,
{
    if c2 >= c1 {
        lemma_scaled(c2 - c1, num, den);
    } else {
        lemma_scaled(c1 - c2, num, den);
    }
}

fn lerp_exec(c1: i64, c2: i64, num: u64, den: u64) -> (r: i64)
    requires
        coord_ok(c1 as int),
        coord_ok(c2 as int),
        num <= den,
        0 < den < 0x4000_0000_0000_0000,
    ensures
        r == lerp(c1 as int, c2 as int, num as int, den as int),
        coord_ok(r as int),
{
    proof {
        lemma_lerp_between(c1 as int, c2 as int, num as int, den as int);
    }
    if c2 >= c1 {
        let d = (c2 - c1) as u128;
        proof {
            lemma_scaled(d as int, num as int, den as int);
            assert(d * num <= 0x200_0000_0000 * 0x4000_0000_0000_0000) by (nonlinear_arith)
                requires
                    d < 0x200_0000_0000,
                    num < 0x4000_0000_0000_0000,
            ;
        }
        let q = d * (num as u128) / (den as u128);
        c1 + q as i64
    } else {
        let d = (c1 - c2) as u128;
        proof {
            lemma_scaled(d as int, num as int, den as int);
            assert(d * num <= 0x200_0000_0000 * 0x4000_0000_0000_0000) by (nonlinear_arith)
                requires
                    d < 0x200_0000_0000,
                    num < 0x4000_0000_0000_0000,
            ;
        }
        let q = d * (num as u128) / (den as u128);
        c1 - q as i64
    }
}

/// Every clip node references a plane and only clip nodes below itself.
pub open spec fn clip_tree_ok(nodes: Seq<MClipNodeT>, planes: nat) -> bool {
    forall|i: int|
        0 <= i < nodes.len() ==> (#[trigger] nodes[i]).plane < planes && below(nodes, i, nodes[i].front)
            && below(nodes, i, nodes[i].back)
}

proof fn lemma_hulls_ok(w: World)
    requires
        w.wf(),
    ensures
        clip_tree_ok(w.hull0@, w.planes@.len()),
        clip_tree_ok(w.clipnodes@, w.planes@.len()),
{
    assert forall|i: int| 0 <= i < w.hull0@.len() implies (#[trigger] w.hull0@[i]).plane
        < w.planes@.len() && below(w.hull0@, i, w.hull0@[i].front) && below(
        w.hull0@,
        i,
        w.hull0@[i].back,
    ) by {
        assert(w.hull0@[i] == crate::world::hull0_node(w.leafs@, w.nodes@[i]));
    }
    assert forall|i: int| 0 <= i < w.clipnodes@.len() implies (#[trigger] w.clipnodes@[i]).plane
        < w.planes@.len() && below(w.clipnodes@, i, w.clipnodes@[i].front) && below(
        w.clipnodes@,
        i,
        w.clipnodes@[i].back,
    ) by {
        assert(crate::world::clip_child_ok(w.clipnodes@[i].front, i, w.clipnodes@.len()));
    }
}

impl World {
    /// `h` is a hull of this world whose root resolves.
    pub open spec fn hull_ok(&self, h: HullT) -> bool {
        h.which < 4 && head_ok(h.head, hull_nodes(*self, h.which).len())
    }

    /// Hull `which` (0 to 3) of submodel `model`. Hull 0 is the point hull;
    /// hulls 1 and 2 are expanded by the player-sized and the large box.
    pub fn hull(&self, model: usize, which: usize) -> (r: HullT)
        requires
            self.wf(),
            model < self.models@.len(),
            which < 4,
        ensures
            r == hull_of(*self, model as int, which),
            self.hull_ok(r),
    {
        let md = self.models[model];
        let zero = Vec3T { x: 0, y: 0, z: 0 };
        if which == 0 {
            HullT { which, head: ClipChild::Node(md.head_node), clip_mins: zero, clip_maxs: zero }
        } else if which == 1 {
            HullT {
                which,
                head: md.hull1_head,
                clip_mins: Vec3T { x: -16 * FIXED_ONE, y: -16 * FIXED_ONE, z: -24 * FIXED_ONE },
                clip_maxs: Vec3T { x: 16 * FIXED_ONE, y: 16 * FIXED_ONE, z: 32 * FIXED_ONE },
            }
        } else if which == 2 {
            HullT {
                which,
                head: md.hull2_head,
                clip_mins: Vec3T { x: -32 * FIXED_ONE, y: -32 * FIXED_ONE, z: -24 * FIXED_ONE },
                clip_maxs: Vec3T { x: 32 * FIXED_ONE, y: 32 * FIXED_ONE, z: 64 * FIXED_ONE },
            }
        } else {
            HullT { which, head: md.hull3_head, clip_mins: zero, clip_maxs: zero }
        }
    }

    fn hull_node_array(&self, which: usize) -> (r: &Vec<MClipNodeT>)
        ensures
            r@ == hull_nodes(*self, which),
    {
        if which == 0 {
            &self.hull0
        } else {
            &self.clipnodes
        }
    }

    /// Contents of the volume of hull `h` that holds `p`.
    pub fn hull_point_contents(&self, h: &HullT, p: &Vec3T) -> (r: Contents)
        requires
            self.wf(),
            self.hull_ok(*h),
            p.wf(),
        ensures
            r == hull_contents(hull_nodes(*self, h.which), *self, h.head, *p),
    {
        let nodes = self.hull_node_array(h.which);
        proof {
            lemma_hulls_ok(*self);
        }
        match h.head {
            ClipChild::Contents(c) => c,
            ClipChild::Node(head) => {
                let mut n: usize = head;
                loop
                    invariant
                        self.wf(),
                        p.wf(),
                        clip_tree_ok(nodes@, self.planes@.len()),
                        nodes@ == hull_nodes(*self, h.which),
                        h.head == ClipChild::Node(head),
                        n < nodes@.len(),
                        hull_walk(nodes@, *self, n as nat, *p) == hull_walk(
                            nodes@,
                            *self,
                            head as nat,
                            *p,
                        ),
                    decreases nodes@.len() - n,
                {
                    let cn = nodes[n];
                    assert(nodes@[n as int] == cn);
                    let d = plane_distance(&self.planes[cn.plane], p);
                    let ch = if d >= 0 {
                        cn.front
                    } else {
                        cn.back
                    };
                    match ch {
                        ClipChild::Contents(c) => {
                            assert(hull_walk(nodes@, *self, n as nat, *p) == c);
                            return c;
                        },
                        ClipChild::Node(m) => {
                            n = m;
                        },
                    }
                }
            },
        }
    }

    fn trace_rec(
        &self,
        nodes: &Vec<MClipNodeT>,
        ch: ClipChild,
        f1: u64,
        f2: u64,
        p1: Vec3T,
        p2: Vec3T,
        entry: Option<TracePlane>,
    ) -> (r: TraceResult)
        requires
            self.wf(),
            clip_tree_ok(nodes@, self.planes@.len()),
            head_ok(ch, nodes@.len()),
            f1 <= f2 <= FRAC_ONE,
            p1.wf(),
            p2.wf(),
        ensures
            r == trace_from(nodes@, *self, ch, f1 as int, f2 as int, p1, p2, entry),
            r matches TraceResult::Hit { fraction, point, .. } ==> f1 <= fraction <= f2 && point.wf(),
        decreases rank(nodes@, ch),
    {
        match ch {
            ClipChild::Contents(c) => {
                if matches!(c, Contents::Empty) {
                    TraceResult::Clear
                } else {
                    TraceResult::Hit { fraction: f1, point: p1, plane: entry }
                }
            },
            ClipChild::Node(n) => {
                let cn = nodes[n];
                assert(nodes@[n as int] == cn);
                let pl = &self.planes[cn.plane];
                let t1 = plane_distance(pl, &p1);
                let t2 = plane_distance(pl, &p2);
                if t1 >= 0 && t2 >= 0 {
                    return self.trace_rec(nodes, cn.front, f1, f2, p1, p2, entry);
                }
                if t1 < 0 && t2 < 0 {
                    return self.trace_rec(nodes, cn.back, f1, f2, p1, p2, entry);
                }
                let a: u64 = if t1 < 0 {
                    (-t1) as u64
                } else {
                    t1 as u64
                };
                let b: u64 = if t2 < 0 {
                    (-t2) as u64
                } else {
                    t2 as u64
                };
                let den = a + b;
                let num: u64 = if a < DIST_EPSILON as u64 {
                    0
                } else if a - DIST_EPSILON as u64 > den {
                    den
                } else {
                    a - DIST_EPSILON as u64
                };
                assert(den == abs(t1 as int) + abs(t2 as int));
                assert(num == cross_num(t1 as int, t2 as int));
                proof {
                    lemma_scaled((f2 - f1) as int, num as int, den as int);
                    assert((f2 - f1) * num <= 0x1_0000 * 0x4000_0000_0000_0000) by (nonlinear_arith)
                        requires
                            f2 - f1 <= 0x1_0000,
                            num < 0x4000_0000_0000_0000,
                    ;
                }
                let step = ((f2 - f1) as u128 * num as u128 / den as u128) as u64;
                let fm = f1 + step;
                let mid = Vec3T {
                    x: lerp_exec(p1.x, p2.x, num, den),
                    y: lerp_exec(p1.y, p2.y, num, den),
                    z: lerp_exec(p1.z, p2.z, num, den),
                };
                let back = t1 < 0;
                let (near, far) = if back {
                    (cn.back, cn.front)
                } else {
                    (cn.front, cn.back)
                };
                let r = self.trace_rec(nodes, near, f1, fm, p1, mid, entry);
                if matches!(r, TraceResult::Hit { .. }) {
                    r
                } else {
                    self.trace_rec(
                        nodes,
                        far,
                        fm,
                        f2,
                        mid,
                        p2,
                        Some(TracePlane { plane: cn.plane, back_side: back }),
                    )
                }
            },
        }
    }

    /// Sweeps a point through hull `h` from `start` to `end`, both in the
    /// hull's space, and reports the first non-empty volume met.
    pub fn trace(&self, h: &HullT, start: &Vec3T, end: &Vec3T) -> (r: TraceResult)
        requires
            self.wf(),
            self.hull_ok(*h),
            start.wf(),
            end.wf(),
        ensures
            r == trace_from(
                hull_nodes(*self, h.which),
                *self,
                h.head,
                0,
                FRAC_ONE as int,
                *start,
                *end,
                None,
            ),
            r matches TraceResult::Hit { fraction, point, .. } ==> fraction <= FRAC_ONE && point.wf(),
    {
        proof {
            lemma_hulls_ok(*self);
        }
        let nodes = self.hull_node_array(h.which);
        self.trace_rec(nodes, h.head, 0, FRAC_ONE, *start, *end, None)
    }
}

proof fn lemma_trace_from_start(
    nodes: Seq<MClipNodeT>,
    w: World,
    ch: ClipChild,
    f1: int,
    f2: int,
    p1: Vec3T,
    p2: Vec3T,
    entry: Option<TracePlane>,
)
    requires
        clip_tree_ok(nodes, w.planes@.len()),
        head_ok(ch, nodes.len()),
        hull_contents(nodes, w, ch, p1) != Contents::Empty,
    ensures
        trace_from(nodes, w, ch, f1, f2, p1, p2, entry) == (TraceResult::Hit {
            fraction: f1 as u64,
            point: p1,
            plane: entry,
        }),
    decreases rank(nodes, ch),
{
    match ch {
        ClipChild::Contents(_) => {},
        ClipChild::Node(n) => {
            let cn = nodes[n as int];
            let pl = w.planes@[cn.plane as int];
            let t1 = plane_diff(pl, p1);
            let t2 = plane_diff(pl, p2);
            let next = if t1 >= 0 {
                cn.front
            } else {
                cn.back
            };
            assert(hull_contents(nodes, w, next, p1) == hull_walk(nodes, w, n as nat, p1));
            if t1 >= 0 && t2 >= 0 {
                lemma_trace_from_start(nodes, w, cn.front, f1, f2, p1, p2, entry);
            } else if t1 < 0 && t2 < 0 {
                lemma_trace_from_start(nodes, w, cn.back, f1, f2, p1, p2, entry);
            } else {
                let den = abs(t1) + abs(t2);
                let num = cross_num(t1, t2);
                let fm = f1 + (f2 - f1) * num / den;
                let mid = lerp3(p1, p2, num, den);
                lemma_trace_from_start(nodes, w, next, f1, fm, p1, mid, entry);
            }
        },
    }
}

proof fn lemma_trace_from_still(
    nodes: Seq<MClipNodeT>,
    w: World,
    ch: ClipChild,
    f1: int,
    f2: int,
    p: Vec3T,
    entry: Option<TracePlane>,
)
    requires
        clip_tree_ok(nodes, w.planes@.len()),
        head_ok(ch, nodes.len()),
        hull_contents(nodes, w, ch, p) == Contents::Empty,
    ensures
        trace_from(nodes, w, ch, f1, f2, p, p, entry) == TraceResult::Clear,
    decreases rank(nodes, ch),
{
    match ch {
        ClipChild::Contents(_) => {},
        ClipChild::Node(n) => {
            let cn = nodes[n as int];
            let pl = w.planes@[cn.plane as int];
            let next = if plane_diff(pl, p) >= 0 {
                cn.front
            } else {
                cn.back
            };
            assert(hull_contents(nodes, w, next, p) == hull_walk(nodes, w, n as nat, p));
            lemma_trace_from_still(nodes, w, next, f1, f2, p, entry);
        },
    }
}

proof fn lemma_trace_from_clear(
    nodes: Seq<MClipNodeT>,
    w: World,
    ch: ClipChild,
    f1: int,
    f2: int,
    p1: Vec3T,
    p2: Vec3T,
    entry: Option<TracePlane>,
)
    requires
        clip_tree_ok(nodes, w.planes@.len()),
        head_ok(ch, nodes.len()),
        trace_from(nodes, w, ch, f1, f2, p1, p2, entry) == TraceResult::Clear,
    ensures
        hull_contents(nodes, w, ch, p2) == Contents::Empty,
    decreases rank(nodes, ch),
{
    match ch {
        ClipChild::Contents(_) => {},
        ClipChild::Node(n) => {
            let cn = nodes[n as int];
            let pl = w.planes@[cn.plane as int];
            let t1 = plane_diff(pl, p1);
            let t2 = plane_diff(pl, p2);
            let next = if t2 >= 0 {
                cn.front
            } else {
                cn.back
            };
            assert(hull_contents(nodes, w, next, p2) == hull_walk(nodes, w, n as nat, p2));
            if t1 >= 0 && t2 >= 0 {
                lemma_trace_from_clear(nodes, w, cn.front, f1, f2, p1, p2, entry);
            } else if t1 < 0 && t2 < 0 {
                lemma_trace_from_clear(nodes, w, cn.back, f1, f2, p1, p2, entry);
            } else {
                let den = abs(t1) + abs(t2);
                let num = cross_num(t1, t2);
                let fm = f1 + (f2 - f1) * num / den;
                let mid = lerp3(p1, p2, num, den);
                let back = t1 < 0;
                lemma_trace_from_clear(
                    nodes,
                    w,
                    next,
                    fm,
                    f2,
                    mid,
                    p2,
                    Some(TracePlane { plane: cn.plane, back_side: back }),
                );
            }
        },
    }
}

/// A sweep reported clear ends in open space: the end point lies in empty
/// contents of the hull.
pub proof fn lemma_clear_trace_ends_open(w: World, h: HullT, a: Vec3T, b: Vec3T)
    requires
        w.wf(),
        w.hull_ok(h),
        trace_from(hull_nodes(w, h.which), w, h.head, 0, FRAC_ONE as int, a, b, None)
            == TraceResult::Clear,
    ensures
        hull_contents(hull_nodes(w, h.which), w, h.head, b) == Contents::Empty,
{
    lemma_hulls_ok(w);
    lemma_trace_from_clear(hull_nodes(w, h.which), w, h.head, 0, FRAC_ONE as int, a, b, None);
}

/// A sweep that starts inside non-empty contents of the hull reports a
/// collision at once: at fraction 0, at the start, with no crossing plane.
pub proof fn lemma_trace_starts_inside(w: World, h: HullT, a: Vec3T, b: Vec3T)
    requires
        w.wf(),
        w.hull_ok(h),
        hull_contents(hull_nodes(w, h.which), w, h.head, a) != Contents::Empty,
    ensures
        trace_from(hull_nodes(w, h.which), w, h.head, 0, FRAC_ONE as int, a, b, None) == (
        TraceResult::Hit { fraction: 0, point: a, plane: None }),
{
    lemma_hulls_ok(w);
    lemma_trace_from_start(hull_nodes(w, h.which), w, h.head, 0, FRAC_ONE as int, a, b, None);
}

/// A zero-length sweep from `a` to `a` reports a collision at fraction 0 where
/// `a` is inside solid (or other non-empty) contents, and no collision where
/// `a` is in open space.
pub proof fn lemma_zero_length_trace(w: World, h: HullT, a: Vec3T)
    requires
        w.wf(),
        w.hull_ok(h),
    ensures
        hull_contents(hull_nodes(w, h.which), w, h.head, a) == Contents::Empty ==> trace_from(
            hull_nodes(w, h.which),
            w,
            h.head,
            0,
            FRAC_ONE as int,
            a,
            a,
            None,
        ) == TraceResult::Clear,
        hull_contents(hull_nodes(w, h.which), w, h.head, a) != Contents::Empty ==> trace_from(
            hull_nodes(w, h.which),
            w,
            h.head,
            0,
            FRAC_ONE as int,
            a,
            a,
            None,
        ) == (TraceResult::Hit { fraction: 0, point: a, plane: None }),
{
    lemma_hulls_ok(w);
    if hull_contents(hull_nodes(w, h.which), w, h.head, a) == Contents::Empty {
        lemma_trace_from_still(hull_nodes(w, h.which), w, h.head, 0, FRAC_ONE as int, a, None);
    } else {
        lemma_trace_starts_inside(w, h, a, a);
    }
}

/// Where hull space is, relative to world space, for a mover whose box
/// starts at `mover_mins`: the hull's expansion box less the mover's.
pub open spec fn hull_offset(h: HullT, mover_mins: Vec3T) -> (int, int, int) {
    (
        h.clip_mins.x - mover_mins.x,
        h.clip_mins.y - mover_mins.y,
        h.clip_mins.z - mover_mins.z,
    )
}

/// `p` moved by `-off`.
pub open spec fn shifted(p: Vec3T, off: (int, int, int)) -> Vec3T {
    Vec3T { x: (p.x - off.0) as i64, y: (p.y - off.1) as i64, z: (p.z - off.2) as i64 }
}

pub open spec fn in_range(p: Vec3T, off: (int, int, int)) -> bool {
    coord_ok(p.x - off.0) && coord_ok(p.y - off.1) && coord_ok(p.z - off.2)
}

/// A hull-space result moved back into world space.
pub open spec fn result_to_world(r: TraceResult, off: (int, int, int)) -> TraceResult {
    match r {
        TraceResult::Clear => TraceResult::Clear,
        TraceResult::Hit { fraction, point, plane } => TraceResult::Hit {
            fraction,
            point: Vec3T {
                x: (point.x + off.0) as i64,
                y: (point.y + off.1) as i64,
                z: (point.z + off.2) as i64,
            },
            plane,
        },
    }
}

fn shift_point(p: &Vec3T, ox: i64, oy: i64, oz: i64) -> (r: Option<Vec3T>)
    requires
        p.wf(),
        coord_ok(ox as int),
        coord_ok(oy as int),
        coord_ok(oz as int),
    ensures
        r is Some <==> in_range(*p, (ox as int, oy as int, oz as int)),
        r matches Some(q) ==> q == shifted(*p, (ox as int, oy as int, oz as int)) && q.wf(),
{
    let (x, y, z) = (p.x - ox, p.y - oy, p.z - oz);
    if -crate::wire::COORD_LIMIT < x && x < crate::wire::COORD_LIMIT && -crate::wire::COORD_LIMIT < y
        && y < crate::wire::COORD_LIMIT && -crate::wire::COORD_LIMIT < z && z
        < crate::wire::COORD_LIMIT {
        Some(Vec3T { x, y, z })
    } else {
        None
    }
}

impl World {
    /// Sweeps a box whose lower corner is `mover_mins` (relative to its
    /// origin) from `start` to `end` in world space through hull `h`: both ends
    /// are moved into hull space by the hull's expansion box, and a hit point
    /// is moved back. `None` where a moved end leaves the coordinate range.
    pub fn trace_box(&self, h: &HullT, mover_mins: &Vec3T, start: &Vec3T, end: &Vec3T) -> (r: Option<
        TraceResult,
    >)
        requires
            self.wf(),
            self.hull_ok(*h),
            h.clip_mins.wf(),
            mover_mins.wf(),
            start.wf(),
            end.wf(),
        ensures
            r is Some <==> coord_ok(hull_offset(*h, *mover_mins).0) && coord_ok(
                hull_offset(*h, *mover_mins).1,
            ) && coord_ok(hull_offset(*h, *mover_mins).2) && in_range(
                *start,
                hull_offset(*h, *mover_mins),
            ) && in_range(*end, hull_offset(*h, *mover_mins)),
            r matches Some(t) ==> t == result_to_world(
                trace_from(
                    hull_nodes(*self, h.which),
                    *self,
                    h.head,
                    0,
                    FRAC_ONE as int,
                    shifted(*start, hull_offset(*h, *mover_mins)),
                    shifted(*end, hull_offset(*h, *mover_mins)),
                    None,
                ),
                hull_offset(*h, *mover_mins),
            ),
    {
        let ox = h.clip_mins.x - mover_mins.x;
        let oy = h.clip_mins.y - mover_mins.y;
        let oz = h.clip_mins.z - mover_mins.z;
        let lim = crate::wire::COORD_LIMIT;
        if !(-lim < ox && ox < lim && -lim < oy && oy < lim && -lim < oz && oz < lim) {
            return None;
        }
        let s = match shift_point(start, ox, oy, oz) {
            Some(s) => s,
            None => return None,
        };
        let e = match shift_point(end, ox, oy, oz) {
            Some(e) => e,
            None => return None,
        };
        match self.trace(h, &s, &e) {
            TraceResult::Clear => Some(TraceResult::Clear),
            TraceResult::Hit { fraction, point, plane } => Some(
                TraceResult::Hit {
                    fraction,
                    point: Vec3T { x: point.x + ox, y: point.y + oy, z: point.z + oz },
                    plane,
                },
            ),
        }
    }
}

} // verus!
