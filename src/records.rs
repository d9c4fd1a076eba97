//! Fixed-size records of the level file, decoded into the in-memory model.
//!
//! Every record is checked against the element counts of the whole file as
//! it is decoded, so a decoded index always resolves within its array.
use vstd::prelude::*;
use crate::bspfile::{
    contents_of_code, plane_type_of_code, BspError, BspFormat, Contents, LumpT, PlaneType,
};
use crate::geometry::{unit_ok, MPlaneT, Vec3T};
use crate::wire::{
    fixed_from_float_bits, float_fixed, float_in_range, le_i16, le_i32, le_u16, le_u32, read_i16,
    read_i32, read_u16, read_u32, FIXED_ONE,
};

verus! {

/// Number of elements of each array of the level, from its lump lengths.
#[derive(Clone, Copy, Debug, PartialEq, Eq, Structural)]
pub struct Counts {
    pub planes: usize,
    pub vertexes: usize,
    pub edges: usize,
    pub surfedges: usize,
    pub texinfo: usize,
    pub faces: usize,
    pub nodes: usize,
    pub clipnodes: usize,
    pub leafs: usize,
    pub marksurfaces: usize,
    pub models: usize,
    pub visdata: usize,
}

/// A reference from a node to one of its two children.
#[derive(Clone, Copy, Debug, PartialEq, Eq, Structural)]
pub enum Child {
    Node(usize),
    Leaf(usize),
}

/// A reference from a clip node to a child: another clip node, or the
/// contents of the volume it bounds.
#[derive(Clone, Copy, Debug, PartialEq, Eq, Structural)]
pub enum ClipChild {
    Node(usize),
    Contents(Contents),
}

/// A branch of the render tree.
#[derive(Clone, Copy, Debug, PartialEq, Eq, Structural)]
pub struct MNodeT {
    pub plane: usize,
    pub front: Child,
    pub back: Child,
    pub mins: Vec3T,
    pub maxs: Vec3T,
    pub first_face: usize,
    pub num_faces: usize,
}

/// A convex volume of uniform contents at the bottom of the render tree.
#[derive(Clone, Copy, Debug, PartialEq, Eq)]
pub struct MLeafT {
    pub contents: Contents,
    /// Start of the leaf's row in the visibility data; `None` where it has none.
    pub visofs: Option<usize>,
    pub mins: Vec3T,
    pub maxs: Vec3T,
    pub first_mark: usize,
    pub num_marks: usize,
    pub ambient: [u8; 4],
}

/// A branch of a collision hull.
#[derive(Clone, Copy, Debug, PartialEq, Eq, Structural)]
pub struct MClipNodeT {
    pub plane: usize,
    pub front: ClipChild,
    pub back: ClipChild,
}

/// A polygon of the level, as a loop of edge references.
#[derive(Clone, Copy, Debug, PartialEq, Eq)]
pub struct MSurfaceT {
    pub plane: usize,
    pub back_side: bool,
    pub first_edge: usize,
    pub num_edges: usize,
    pub texinfo: usize,
    pub styles: [u8; 4],
    /// Offset of the face's lightmap samples; -1 where it has none.
    pub lightofs: i32,
}

#[derive(Clone, Copy, Debug, PartialEq, Eq, Structural)]
pub struct MEdgeT {
    pub v0: usize,
    pub v1: usize,
}

/// An edge of a face's loop, walked backward where `reversed`.
#[derive(Clone, Copy, Debug, PartialEq, Eq, Structural)]
pub struct SurfEdge {
    pub edge: usize,
    pub reversed: bool,
}

/// An entry of the leafs' face lists.
#[derive(Clone, Copy, Debug, PartialEq, Eq, Structural)]
pub struct MarkSurface {
    pub face: usize,
}

/// Texinfo flag: sky or slime, no lightmap or 256 subdivision.
pub const TEX_SPECIAL: u32 = 2;

/// Texinfo flag: this texinfo does not have a texture.
pub const TEX_MISSING: u32 = 4;

/// Texture projection of a face: two axes with offsets, and the texture.
#[derive(Clone, Copy, Debug, PartialEq, Eq, Structural)]
pub struct MTexInfoT {
    pub s_axis: Vec3T,
    pub s_offset: i64,
    pub t_axis: Vec3T,
    pub t_offset: i64,
    pub miptex: i32,
    pub flags: u32,
}

/// A brush entity (submodel 0 is the world): bounds, the root of its render
/// tree and of its three coarser hulls, and its share of the leafs and faces.
#[derive(Clone, Copy, Debug, PartialEq, Eq, Structural)]
pub struct DModelT {
    pub mins: Vec3T,
    pub maxs: Vec3T,
    pub origin: Vec3T,
    pub head_node: usize,
    pub hull1_head: ClipChild,
    pub hull2_head: ClipChild,
    pub hull3_head: ClipChild,
    /// Leafs of the model, not counting the shared solid leaf 0.
    pub visleafs: usize,
    pub first_face: usize,
    pub num_faces: usize,
}

/// A fixed-size record kind of the level file.
pub trait Record: Sized {
    spec fn spec_size(fmt: BspFormat) -> nat;

    fn size(fmt: BspFormat) -> (r: usize)
        ensures
            r == Self::spec_size(fmt),
            0 < r <= 64;

    /// The record at byte `at`, the `index`-th of its lump; `None` where a
    /// field is out of range or an index leaves its array.
    spec fn spec_parse(b: Seq<u8>, fmt: BspFormat, at: int, index: int, c: Counts) -> Option<Self>;

    fn parse(b: &[u8], fmt: BspFormat, at: usize, index: usize, c: &Counts) -> (r: Option<Self>)
        requires
            at + Self::spec_size(fmt) <= b@.len() <= usize::MAX,
        ensures
            r == Self::spec_parse(b@, fmt, at as int, index as int, *c);
}

/// Every record of the lump decodes.
pub open spec fn lump_decodes<R: Record>(b: Seq<u8>, fmt: BspFormat, l: LumpT, c: Counts) -> bool {
    forall|i: int|
        0 <= i < l.length as nat / R::spec_size(fmt) ==> (#[trigger] R::spec_parse(
            b,
            fmt,
            l.offset + i * R::spec_size(fmt),
            i,
            c,
        )) is Some
}

/// The decoded records of a lump.
pub open spec fn lump_records<R: Record>(b: Seq<u8>, fmt: BspFormat, l: LumpT, c: Counts) -> Seq<R> {
    Seq::new(
        (l.length as nat / R::spec_size(fmt)) as nat,
        |i: int| R::spec_parse(b, fmt, l.offset + i * R::spec_size(fmt), i, c)->Some_0,
    )
}

/// Decodes every record of a lump whose length is a whole number of records.
pub fn decode_lump<R: Record>(b: &[u8], fmt: BspFormat, l: LumpT, c: &Counts) -> (r: Result<
    Vec<R>,
    BspError,
>)
    requires
        l.offset + l.length <= b@.len(),
    ensures
        r is Ok <==> lump_decodes::<R>(b@, fmt, l, *c),
        r matches Ok(v) ==> v@ == lump_records::<R>(b@, fmt, l, *c),
{
    let size = R::size(fmt);
    let _len = b.len();
    let count = l.length / size;
    let mut out: Vec<R> = Vec::new();
    let mut i: usize = 0;
    let mut at: usize = l.offset;
    while i < count
        invariant
            size == R::spec_size(fmt),
            0 < size <= 64,
            count == l.length / size,
            l.offset + l.length <= b@.len() <= usize::MAX,
            i <= count,
            at == l.offset + i * size,
            out@.len() == i,
            forall|k: int|
                0 <= k < i ==> (#[trigger] R::spec_parse(b@, fmt, l.offset + k * size, k, *c))
                    == Some(out@[k]),
        decreases count - i,
    {
        proof {
            assert((i + 1) * size <= count * size) by (nonlinear_arith)
                requires
                    i < count,
                    size > 0,
            ;
            assert(count * size <= l.length) by (nonlinear_arith)
                requires
                    count == l.length / size,
                    size > 0,
            ;
            assert((i + 1) * size == i * size + size) by (nonlinear_arith);
        }
        match R::parse(b, fmt, at, i, c) {
            Some(rec) => {
                out.push(rec);
            },
            None => {
                return Err(BspError::MalformedFile);
            },
        }
        i = i + 1;
        at = at + size;
        proof {
            assert(at == l.offset + i * size) by (nonlinear_arith)
                requires
                    at == l.offset + (i - 1) * size + size,
            ;
        }
    }
    proof {
        assert(out@ =~= lump_records::<R>(b@, fmt, l, *c));
    }
    Ok(out)
}

/// Three consecutive floats as a fixed-point point.
pub open spec fn vec3_at(b: Seq<u8>, at: int) -> Option<Vec3T> {
    let (x, y, z) = (le_u32(b, at) as u32, le_u32(b, at + 4) as u32, le_u32(b, at + 8) as u32);
    if float_in_range(x) && float_in_range(y) && float_in_range(z) {
        Some(Vec3T { x: float_fixed(x) as i64, y: float_fixed(y) as i64, z: float_fixed(z) as i64 })
    } else {
        None
    }
}

pub fn read_vec3(b: &[u8], at: usize) -> (r: Option<Vec3T>)
    requires
        at + 12 <= b@.len() <= usize::MAX,
    ensures
        r == vec3_at(b@, at as int),
        r matches Some(v) ==> v.wf(),
{
    let x = fixed_from_float_bits(read_u32(b, at));
    let y = fixed_from_float_bits(read_u32(b, at + 4));
    let z = fixed_from_float_bits(read_u32(b, at + 8));
    match (x, y, z) {
        (Some(x), Some(y), Some(z)) => Some(Vec3T { x, y, z }),
        _ => None,
    }
}

/// Three consecutive 16-bit integers as a fixed-point point.
pub open spec fn short3_at(b: Seq<u8>, at: int) -> Vec3T {
    Vec3T {
        x: (le_i16(b, at) * FIXED_ONE) as i64,
        y: (le_i16(b, at + 2) * FIXED_ONE) as i64,
        z: (le_i16(b, at + 4) * FIXED_ONE) as i64,
    }
}

pub fn read_short3(b: &[u8], at: usize) -> (r: Vec3T)
    requires
        at + 6 <= b@.len() <= usize::MAX,
    ensures
        r == short3_at(b@, at as int),
        r.wf(),
{
    let x = read_i16(b, at) as i64 * FIXED_ONE;
    let y = read_i16(b, at + 2) as i64 * FIXED_ONE;
    let z = read_i16(b, at + 4) as i64 * FIXED_ONE;
    Vec3T { x, y, z }
}

impl Record for MPlaneT {
    open spec fn spec_size(fmt: BspFormat) -> nat {
        20
    }

    fn size(fmt: BspFormat) -> (r: usize) {
        20
    }

    open spec fn spec_parse(b: Seq<u8>, fmt: BspFormat, at: int, index: int, c: Counts) -> Option<
        MPlaneT,
    > {
        let n = vec3_at(b, at);
        let d = le_u32(b, at + 12) as u32;
        let t = plane_type_of_code(le_i32(b, at + 16));
        if n is Some && float_in_range(d) && t is Some && unit_ok(n->Some_0.x as int) && unit_ok(
            n->Some_0.y as int,
        ) && unit_ok(n->Some_0.z as int) {
            Some(MPlaneT { normal: n->Some_0, dist: float_fixed(d) as i64, kind: t->Some_0 })
        } else {
            None
        }
    }

    fn parse(b: &[u8], fmt: BspFormat, at: usize, index: usize, c: &Counts) -> (r: Option<MPlaneT>) {
        let n = read_vec3(b, at);
        let d = fixed_from_float_bits(read_u32(b, at + 12));
        let t = PlaneType::from_code(read_i32(b, at + 16));
        match (n, d, t) {
            (Some(n), Some(d), Some(t)) => {
                if -FIXED_ONE <= n.x && n.x <= FIXED_ONE && -FIXED_ONE <= n.y && n.y <= FIXED_ONE
                    && -FIXED_ONE <= n.z && n.z <= FIXED_ONE {
                    Some(MPlaneT { normal: n, dist: d, kind: t })
                } else {
                    None
                }
            },
            _ => None,
        }
    }
}


/// `first .. first + num` is a range within an array of `n` elements.
pub open spec fn range_ok(first: int, num: int, n: int) -> bool {
    0 <= first && 0 <= num && first + num <= n
}

fn check_range(first: i64, num: i64, n: usize) -> (r: bool)
    requires
        -0x1_0000_0000 <= first <= 0x1_0000_0000,
        -0x1_0000_0000 <= num <= 0x1_0000_0000,
    ensures
        r == range_ok(first as int, num as int, n as int),
{
    0 <= first && 0 <= num && (first + num) as u64 <= n as u64
}

/// A stored node child: a later node, or a leaf as `-(leaf + 1)`.
pub open spec fn node_child(raw: int, index: int, c: Counts) -> Option<Child> {
    if raw >= 0 {
        if index < raw < c.nodes {
            Some(Child::Node(raw as usize))
        } else {
            None
        }
    } else if -1 - raw < c.leafs {
        Some(Child::Leaf((-1 - raw) as usize))
    } else {
        None
    }
}

fn decode_node_child(raw: i32, index: usize, c: &Counts) -> (r: Option<Child>)
    ensures
        r == node_child(raw as int, index as int, *c),
{
    if raw >= 0 {
        if index < raw as usize && (raw as usize) < c.nodes {
            Some(Child::Node(raw as usize))
        } else {
            None
        }
    } else if ((-1 - raw as i64) as u64) < c.leafs as u64 {
        Some(Child::Leaf((-1 - raw as i64) as usize))
    } else {
        None
    }
}

/// A stored clip-node child: a later clip node, or a content value.
pub open spec fn clip_child(raw: int, index: int, c: Counts) -> Option<ClipChild> {
    if raw >= 0 {
        if index < raw < c.clipnodes {
            Some(ClipChild::Node(raw as usize))
        } else {
            None
        }
    } else {
        match contents_of_code(raw) {
            Some(k) => Some(ClipChild::Contents(k)),
            None => None,
        }
    }
}

fn decode_clip_child(raw: i32, index: usize, c: &Counts) -> (r: Option<ClipChild>)
    ensures
        r == clip_child(raw as int, index as int, *c),
{
    if raw >= 0 {
        if index < raw as usize && (raw as usize) < c.clipnodes {
            Some(ClipChild::Node(raw as usize))
        } else {
            None
        }
    } else {
        match Contents::from_code(raw) {
            Some(k) => Some(ClipChild::Contents(k)),
            None => None,
        }
    }
}

/// The root of a coarse hull of a submodel. A level without clip nodes stores
/// 0 there, which stands for an open hull.
pub open spec fn hull_head(raw: int, c: Counts) -> Option<ClipChild> {
    if 0 <= raw < c.clipnodes {
        Some(ClipChild::Node(raw as usize))
    } else if raw == 0 && c.clipnodes == 0 {
        Some(ClipChild::Contents(Contents::Empty))
    } else if raw < 0 {
        match contents_of_code(raw) {
            Some(k) => Some(ClipChild::Contents(k)),
            None => None,
        }
    } else {
        None
    }
}

fn decode_hull_head(raw: i32, c: &Counts) -> (r: Option<ClipChild>)
    ensures
        r == hull_head(raw as int, *c),
{
    if 0 <= raw && (raw as usize) < c.clipnodes {
        Some(ClipChild::Node(raw as usize))
    } else if raw == 0 && c.clipnodes == 0 {
        Some(ClipChild::Contents(Contents::Empty))
    } else if raw < 0 {
        match Contents::from_code(raw) {
            Some(k) => Some(ClipChild::Contents(k)),
            None => None,
        }
    } else {
        None
    }
}

impl Record for MNodeT {
    open spec fn spec_size(fmt: BspFormat) -> nat {
        match fmt {
            BspFormat::Legacy => 24,
            BspFormat::Rmq => 32,
            BspFormat::Bsp2 => 44,
        }
    }

    fn size(fmt: BspFormat) -> (r: usize) {
        match fmt {
            BspFormat::Legacy => 24,
            BspFormat::Rmq => 32,
            BspFormat::Bsp2 => 44,
        }
    }

    open spec fn spec_parse(b: Seq<u8>, fmt: BspFormat, at: int, index: int, c: Counts) -> Option<
        MNodeT,
    > {
        let plane = le_i32(b, at);
        let (c0, c1) = match fmt {
            BspFormat::Legacy => (le_i16(b, at + 4), le_i16(b, at + 6)),
            _ => (le_i32(b, at + 4), le_i32(b, at + 8)),
        };
        let (mins, maxs) = match fmt {
            BspFormat::Legacy => (Some(short3_at(b, at + 8)), Some(short3_at(b, at + 14))),
            BspFormat::Rmq => (Some(short3_at(b, at + 12)), Some(short3_at(b, at + 18))),
            BspFormat::Bsp2 => (vec3_at(b, at + 12), vec3_at(b, at + 24)),
        };
        let (ff, nf) = match fmt {
            BspFormat::Legacy => (le_u16(b, at + 20), le_u16(b, at + 22)),
            BspFormat::Rmq => (le_u32(b, at + 24), le_u32(b, at + 28)),
            BspFormat::Bsp2 => (le_u32(b, at + 36), le_u32(b, at + 40)),
        };
        if 0 <= plane < c.planes && node_child(c0, index, c) is Some && node_child(c1, index, c) is Some
            && mins is Some && maxs is Some && range_ok(ff, nf, c.faces as int) {
            Some(
                MNodeT {
                    plane: plane as usize,
                    front: node_child(c0, index, c)->Some_0,
                    back: node_child(c1, index, c)->Some_0,
                    mins: mins->Some_0,
                    maxs: maxs->Some_0,
                    first_face: ff as usize,
                    num_faces: nf as usize,
                },
            )
        } else {
            None
        }
    }

    fn parse(b: &[u8], fmt: BspFormat, at: usize, index: usize, c: &Counts) -> (r: Option<MNodeT>) {
        let plane = read_i32(b, at);
        let (c0, c1) = match fmt {
            BspFormat::Legacy => (read_i16(b, at + 4) as i32, read_i16(b, at + 6) as i32),
            _ => (read_i32(b, at + 4), read_i32(b, at + 8)),
        };
        let (mins, maxs) = match fmt {
            BspFormat::Legacy => (Some(read_short3(b, at + 8)), Some(read_short3(b, at + 14))),
            BspFormat::Rmq => (Some(read_short3(b, at + 12)), Some(read_short3(b, at + 18))),
            BspFormat::Bsp2 => (read_vec3(b, at + 12), read_vec3(b, at + 24)),
        };
        let (ff, nf) = match fmt {
            BspFormat::Legacy => (read_u16(b, at + 20) as u32, read_u16(b, at + 22) as u32),
            BspFormat::Rmq => (read_u32(b, at + 24), read_u32(b, at + 28)),
            BspFormat::Bsp2 => (read_u32(b, at + 36), read_u32(b, at + 40)),
        };
        if plane < 0 || plane as usize >= c.planes || !check_range(ff as i64, nf as i64, c.faces) {
            return None;
        }
        match (decode_node_child(c0, index, c), decode_node_child(c1, index, c), mins, maxs) {
            (Some(front), Some(back), Some(mins), Some(maxs)) => Some(
                MNodeT {
                    plane: plane as usize,
                    front,
                    back,
                    mins,
                    maxs,
                    first_face: ff as usize,
                    num_faces: nf as usize,
                },
            ),
            _ => None,
        }
    }
}

/// A stored visibility offset: -1 for none, else a position in the data.
pub open spec fn vis_offset(raw: int, c: Counts) -> Option<Option<usize>> {
    if raw == -1 {
        Some(None)
    } else if 0 <= raw < c.visdata {
        Some(Some(raw as usize))
    } else {
        None
    }
}

impl Record for MLeafT {
    open spec fn spec_size(fmt: BspFormat) -> nat {
        match fmt {
            BspFormat::Legacy => 28,
            BspFormat::Rmq => 32,
            BspFormat::Bsp2 => 44,
        }
    }

    fn size(fmt: BspFormat) -> (r: usize) {
        match fmt {
            BspFormat::Legacy => 28,
            BspFormat::Rmq => 32,
            BspFormat::Bsp2 => 44,
        }
    }

    /// Leaf 0 must be solid.
    open spec fn spec_parse(b: Seq<u8>, fmt: BspFormat, at: int, index: int, c: Counts) -> Option<
        MLeafT,
    > {
        let contents = contents_of_code(le_i32(b, at));
        let vis = vis_offset(le_i32(b, at + 4), c);
        let (mins, maxs) = match fmt {
            BspFormat::Bsp2 => (vec3_at(b, at + 8), vec3_at(b, at + 20)),
            _ => (Some(short3_at(b, at + 8)), Some(short3_at(b, at + 14))),
        };
        let (fm, nm, amb) = match fmt {
            BspFormat::Legacy => (le_u16(b, at + 20), le_u16(b, at + 22), at + 24),
            BspFormat::Rmq => (le_u32(b, at + 20), le_u32(b, at + 24), at + 28),
            BspFormat::Bsp2 => (le_u32(b, at + 32), le_u32(b, at + 36), at + 40),
        };
        if contents is Some && (index == 0 ==> contents == Some(Contents::Solid)) && vis is Some
            && mins is Some && maxs is Some && range_ok(fm, nm, c.marksurfaces as int) {
            Some(
                MLeafT {
                    contents: contents->Some_0,
                    visofs: vis->Some_0,
                    mins: mins->Some_0,
                    maxs: maxs->Some_0,
                    first_mark: fm as usize,
                    num_marks: nm as usize,
                    ambient: [b[amb], b[amb + 1], b[amb + 2], b[amb + 3]],
                },
            )
        } else {
            None
        }
    }

    fn parse(b: &[u8], fmt: BspFormat, at: usize, index: usize, c: &Counts) -> (r: Option<MLeafT>) {
        let contents = Contents::from_code(read_i32(b, at));
        let raw_vis = read_i32(b, at + 4);
        let vis = if raw_vis == -1 {
            Some(None)
        } else if 0 <= raw_vis && (raw_vis as usize) < c.visdata {
            Some(Some(raw_vis as usize))
        } else {
            None
        };
        let (mins, maxs) = match fmt {
            BspFormat::Bsp2 => (read_vec3(b, at + 8), read_vec3(b, at + 20)),
            _ => (Some(read_short3(b, at + 8)), Some(read_short3(b, at + 14))),
        };
        let (fm, nm, amb) = match fmt {
            BspFormat::Legacy => (read_u16(b, at + 20) as u32, read_u16(b, at + 22) as u32, at + 24),
            BspFormat::Rmq => (read_u32(b, at + 20), read_u32(b, at + 24), at + 28),
            BspFormat::Bsp2 => (read_u32(b, at + 32), read_u32(b, at + 36), at + 40),
        };
        if !check_range(fm as i64, nm as i64, c.marksurfaces) {
            return None;
        }
        match (contents, vis, mins, maxs) {
            (Some(contents), Some(visofs), Some(mins), Some(maxs)) => {
                if index == 0 && !matches!(contents, Contents::Solid) {
                    return None;
                }
                Some(
                    MLeafT {
                        contents,
                        visofs,
                        mins,
                        maxs,
                        first_mark: fm as usize,
                        num_marks: nm as usize,
                        ambient: [b[amb], b[amb + 1], b[amb + 2], b[amb + 3]],
                    },
                )
            },
            _ => None,
        }
    }
}

impl Record for MClipNodeT {
    open spec fn spec_size(fmt: BspFormat) -> nat {
        match fmt {
            BspFormat::Legacy => 8,
            _ => 12,
        }
    }

    fn size(fmt: BspFormat) -> (r: usize) {
        match fmt {
            BspFormat::Legacy => 8,
            _ => 12,
        }
    }

    open spec fn spec_parse(b: Seq<u8>, fmt: BspFormat, at: int, index: int, c: Counts) -> Option<
        MClipNodeT,
    > {
        let plane = le_i32(b, at);
        let (c0, c1) = match fmt {
            BspFormat::Legacy => (le_i16(b, at + 4), le_i16(b, at + 6)),
            _ => (le_i32(b, at + 4), le_i32(b, at + 8)),
        };
        if 0 <= plane < c.planes && clip_child(c0, index, c) is Some && clip_child(c1, index, c) is Some {
            Some(
                MClipNodeT {
                    plane: plane as usize,
                    front: clip_child(c0, index, c)->Some_0,
                    back: clip_child(c1, index, c)->Some_0,
                },
            )
        } else {
            None
        }
    }

    fn parse(b: &[u8], fmt: BspFormat, at: usize, index: usize, c: &Counts) -> (r: Option<MClipNodeT>) {
        let plane = read_i32(b, at);
        let (c0, c1) = match fmt {
            BspFormat::Legacy => (read_i16(b, at + 4) as i32, read_i16(b, at + 6) as i32),
            _ => (read_i32(b, at + 4), read_i32(b, at + 8)),
        };
        if plane < 0 || plane as usize >= c.planes {
            return None;
        }
        match (decode_clip_child(c0, index, c), decode_clip_child(c1, index, c)) {
            (Some(front), Some(back)) => Some(MClipNodeT { plane: plane as usize, front, back }),
            _ => None,
        }
    }
}

impl Record for MSurfaceT {
    open spec fn spec_size(fmt: BspFormat) -> nat {
        match fmt {
            BspFormat::Legacy => 20,
            _ => 28,
        }
    }

    fn size(fmt: BspFormat) -> (r: usize) {
        match fmt {
            BspFormat::Legacy => 20,
            _ => 28,
        }
    }

    open spec fn spec_parse(b: Seq<u8>, fmt: BspFormat, at: int, index: int, c: Counts) -> Option<
        MSurfaceT,
    > {
        let (plane, side, fe, ne, tex, st, light) = match fmt {
            BspFormat::Legacy => (
                le_i16(b, at),
                le_i16(b, at + 2),
                le_i32(b, at + 4),
                le_i16(b, at + 8),
                le_i16(b, at + 10),
                at + 12,
                le_i32(b, at + 16),
            ),
            _ => (
                le_i32(b, at),
                le_i32(b, at + 4),
                le_i32(b, at + 8),
                le_i32(b, at + 12),
                le_i32(b, at + 16),
                at + 20,
                le_i32(b, at + 24),
            ),
        };
        if 0 <= plane < c.planes && range_ok(fe, ne, c.surfedges as int) && 0 <= tex < c.texinfo {
            Some(
                MSurfaceT {
                    plane: plane as usize,
                    back_side: side != 0,
                    first_edge: fe as usize,
                    num_edges: ne as usize,
                    texinfo: tex as usize,
                    styles: [b[st], b[st + 1], b[st + 2], b[st + 3]],
                    lightofs: light as i32,
                },
            )
        } else {
            None
        }
    }

    fn parse(b: &[u8], fmt: BspFormat, at: usize, index: usize, c: &Counts) -> (r: Option<MSurfaceT>) {
        let (plane, side, fe, ne, tex, st, light) = match fmt {
            BspFormat::Legacy => (
                read_i16(b, at) as i32,
                read_i16(b, at + 2) as i32,
                read_i32(b, at + 4),
                read_i16(b, at + 8) as i32,
                read_i16(b, at + 10) as i32,
                at + 12,
                read_i32(b, at + 16),
            ),
            _ => (
                read_i32(b, at),
                read_i32(b, at + 4),
                read_i32(b, at + 8),
                read_i32(b, at + 12),
                read_i32(b, at + 16),
                at + 20,
                read_i32(b, at + 24),
            ),
        };
        if plane < 0 || plane as usize >= c.planes || !check_range(fe as i64, ne as i64, c.surfedges)
            || tex < 0 || tex as usize >= c.texinfo {
            return None;
        }
        Some(
            MSurfaceT {
                plane: plane as usize,
                back_side: side != 0,
                first_edge: fe as usize,
                num_edges: ne as usize,
                texinfo: tex as usize,
                styles: [b[st], b[st + 1], b[st + 2], b[st + 3]],
                lightofs: light,
            },
        )
    }
}

impl Record for MEdgeT {
    open spec fn spec_size(fmt: BspFormat) -> nat {
        match fmt {
            BspFormat::Legacy => 4,
            _ => 8,
        }
    }

    fn size(fmt: BspFormat) -> (r: usize) {
        match fmt {
            BspFormat::Legacy => 4,
            _ => 8,
        }
    }

    open spec fn spec_parse(b: Seq<u8>, fmt: BspFormat, at: int, index: int, c: Counts) -> Option<
        MEdgeT,
    > {
        let (v0, v1) = match fmt {
            BspFormat::Legacy => (le_u16(b, at), le_u16(b, at + 2)),
            _ => (le_u32(b, at), le_u32(b, at + 4)),
        };
        if v0 < c.vertexes && v1 < c.vertexes {
            Some(MEdgeT { v0: v0 as usize, v1: v1 as usize })
        } else {
            None
        }
    }

    fn parse(b: &[u8], fmt: BspFormat, at: usize, index: usize, c: &Counts) -> (r: Option<MEdgeT>) {
        let (v0, v1) = match fmt {
            BspFormat::Legacy => (read_u16(b, at) as u32, read_u16(b, at + 2) as u32),
            _ => (read_u32(b, at), read_u32(b, at + 4)),
        };
        if (v0 as u64) < c.vertexes as u64 && (v1 as u64) < c.vertexes as u64 {
            Some(MEdgeT { v0: v0 as usize, v1: v1 as usize })
        } else {
            None
        }
    }
}

impl Record for SurfEdge {
    open spec fn spec_size(fmt: BspFormat) -> nat {
        4
    }

    fn size(fmt: BspFormat) -> (r: usize) {
        4
    }

    open spec fn spec_parse(b: Seq<u8>, fmt: BspFormat, at: int, index: int, c: Counts) -> Option<
        SurfEdge,
    > {
        let e = le_i32(b, at);
        if 0 <= e < c.edges {
            Some(SurfEdge { edge: e as usize, reversed: false })
        } else if e < 0 && -e < c.edges {
            Some(SurfEdge { edge: (-e) as usize, reversed: true })
        } else {
            None
        }
    }

    fn parse(b: &[u8], fmt: BspFormat, at: usize, index: usize, c: &Counts) -> (r: Option<SurfEdge>) {
        let e = read_i32(b, at) as i64;
        if 0 <= e && (e as u64) < c.edges as u64 {
            Some(SurfEdge { edge: e as usize, reversed: false })
        } else if e < 0 && ((-e) as u64) < c.edges as u64 {
            Some(SurfEdge { edge: (-e) as usize, reversed: true })
        } else {
            None
        }
    }
}

impl Record for MarkSurface {
    open spec fn spec_size(fmt: BspFormat) -> nat {
        match fmt {
            BspFormat::Legacy => 2,
            _ => 4,
        }
    }

    fn size(fmt: BspFormat) -> (r: usize) {
        match fmt {
            BspFormat::Legacy => 2,
            _ => 4,
        }
    }

    open spec fn spec_parse(b: Seq<u8>, fmt: BspFormat, at: int, index: int, c: Counts) -> Option<
        MarkSurface,
    > {
        let f = match fmt {
            BspFormat::Legacy => le_u16(b, at),
            _ => le_u32(b, at),
        };
        if f < c.faces {
            Some(MarkSurface { face: f as usize })
        } else {
            None
        }
    }

    fn parse(b: &[u8], fmt: BspFormat, at: usize, index: usize, c: &Counts) -> (r: Option<MarkSurface>) {
        let f = match fmt {
            BspFormat::Legacy => read_u16(b, at) as u32,
            _ => read_u32(b, at),
        };
        if (f as u64) < c.faces as u64 {
            Some(MarkSurface { face: f as usize })
        } else {
            None
        }
    }
}

impl Record for Vec3T {
    open spec fn spec_size(fmt: BspFormat) -> nat {
        12
    }

    fn size(fmt: BspFormat) -> (r: usize) {
        12
    }

    open spec fn spec_parse(b: Seq<u8>, fmt: BspFormat, at: int, index: int, c: Counts) -> Option<
        Vec3T,
    > {
        vec3_at(b, at)
    }

    fn parse(b: &[u8], fmt: BspFormat, at: usize, index: usize, c: &Counts) -> (r: Option<Vec3T>) {
        read_vec3(b, at)
    }
}

impl Record for MTexInfoT {
    open spec fn spec_size(fmt: BspFormat) -> nat {
        40
    }

    fn size(fmt: BspFormat) -> (r: usize) {
        40
    }

    open spec fn spec_parse(b: Seq<u8>, fmt: BspFormat, at: int, index: int, c: Counts) -> Option<
        MTexInfoT,
    > {
        let s = vec3_at(b, at);
        let so = le_u32(b, at + 12) as u32;
        let t = vec3_at(b, at + 16);
        let to = le_u32(b, at + 28) as u32;
        if s is Some && float_in_range(so) && t is Some && float_in_range(to) {
            Some(
                MTexInfoT {
                    s_axis: s->Some_0,
                    s_offset: float_fixed(so) as i64,
                    t_axis: t->Some_0,
                    t_offset: float_fixed(to) as i64,
                    miptex: le_i32(b, at + 32) as i32,
                    flags: le_u32(b, at + 36) as u32,
                },
            )
        } else {
            None
        }
    }

    fn parse(b: &[u8], fmt: BspFormat, at: usize, index: usize, c: &Counts) -> (r: Option<MTexInfoT>) {
        let s = read_vec3(b, at);
        let so = fixed_from_float_bits(read_u32(b, at + 12));
        let t = read_vec3(b, at + 16);
        let to = fixed_from_float_bits(read_u32(b, at + 28));
        match (s, so, t, to) {
            (Some(s_axis), Some(s_offset), Some(t_axis), Some(t_offset)) => Some(
                MTexInfoT {
                    s_axis,
                    s_offset,
                    t_axis,
                    t_offset,
                    miptex: read_i32(b, at + 32),
                    flags: read_u32(b, at + 36),
                },
            ),
            _ => None,
        }
    }
}

impl Record for DModelT {
    open spec fn spec_size(fmt: BspFormat) -> nat {
        64
    }

    fn size(fmt: BspFormat) -> (r: usize) {
        64
    }

    open spec fn spec_parse(b: Seq<u8>, fmt: BspFormat, at: int, index: int, c: Counts) -> Option<
        DModelT,
    > {
        let (mins, maxs, origin) = (vec3_at(b, at), vec3_at(b, at + 12), vec3_at(b, at + 24));
        let head = le_i32(b, at + 36);
        let (h1, h2, h3) = (
            hull_head(le_i32(b, at + 40), c),
            hull_head(le_i32(b, at + 44), c),
            hull_head(le_i32(b, at + 48), c),
        );
        let (vl, ff, nf) = (le_i32(b, at + 52), le_i32(b, at + 56), le_i32(b, at + 60));
        if mins is Some && maxs is Some && origin is Some && 0 <= head < c.nodes && h1 is Some
            && h2 is Some && h3 is Some && 0 <= vl < c.leafs && range_ok(ff, nf, c.faces as int) {
            Some(
                DModelT {
                    mins: mins->Some_0,
                    maxs: maxs->Some_0,
                    origin: origin->Some_0,
                    head_node: head as usize,
                    hull1_head: h1->Some_0,
                    hull2_head: h2->Some_0,
                    hull3_head: h3->Some_0,
                    visleafs: vl as usize,
                    first_face: ff as usize,
                    num_faces: nf as usize,
                },
            )
        } else {
            None
        }
    }

    fn parse(b: &[u8], fmt: BspFormat, at: usize, index: usize, c: &Counts) -> (r: Option<DModelT>) {
        let mins = read_vec3(b, at);
        let maxs = read_vec3(b, at + 12);
        let origin = read_vec3(b, at + 24);
        let head = read_i32(b, at + 36);
        let h1 = decode_hull_head(read_i32(b, at + 40), c);
        let h2 = decode_hull_head(read_i32(b, at + 44), c);
        let h3 = decode_hull_head(read_i32(b, at + 48), c);
        let vl = read_i32(b, at + 52);
        let ff = read_i32(b, at + 56);
        let nf = read_i32(b, at + 60);
        if head < 0 || head as usize >= c.nodes || vl < 0 || vl as usize >= c.leafs || !check_range(
            ff as i64,
            nf as i64,
            c.faces,
        ) {
            return None;
        }
        match (mins, maxs, origin, h1, h2, h3) {
            (Some(mins), Some(maxs), Some(origin), Some(h1), Some(h2), Some(h3)) => Some(
                DModelT {
                    mins,
                    maxs,
                    origin,
                    head_node: head as usize,
                    hull1_head: h1,
                    hull2_head: h2,
                    hull3_head: h3,
                    visleafs: vl as usize,
                    first_face: ff as usize,
                    num_faces: nf as usize,
                },
            ),
            _ => None,
        }
    }
}

} // verus!
