//! The loaded level: every array of the file, decoded and cross-checked, and
//! the point hull derived from the render tree.
use vstd::prelude::*;
use crate::bspfile::{
    format_of_version, header_valid, lump_length_field, lump_offset_field, BspError, BspFormat,
    Contents, DHeaderT, LumpT, LumpType, HEADER_LUMPS, MAX_LEGACY_INDEX,
};
use crate::geometry::{MPlaneT, Vec3T};
use crate::records::{
    decode_lump, lump_decodes, lump_records, Child, ClipChild, MClipNodeT, Counts, MEdgeT, MSurfaceT, MLeafT,
    MarkSurface, MNodeT, Record, SurfEdge, DModelT, MTexInfoT,
};
use crate::wire::le_u32;

verus! {

/// The level as loaded. Built once, read-only afterwards.
pub struct World {
    pub format: BspFormat,
    pub entities: Vec<u8>,
    pub planes: Vec<MPlaneT>,
    pub textures: Vec<u8>,
    pub vertexes: Vec<Vec3T>,
    pub visdata: Vec<u8>,
    pub nodes: Vec<MNodeT>,
    pub texinfo: Vec<MTexInfoT>,
    pub faces: Vec<MSurfaceT>,
    pub lighting: Vec<u8>,
    pub clipnodes: Vec<MClipNodeT>,
    pub leafs: Vec<MLeafT>,
    pub marksurfaces: Vec<MarkSurface>,
    pub edges: Vec<MEdgeT>,
    pub surfedges: Vec<SurfEdge>,
    pub models: Vec<DModelT>,
    /// The render tree as a collision hull: node `i` here is node `i` there,
    /// with each leaf child replaced by the leaf's contents.
    pub hull0: Vec<MClipNodeT>,
}

/// Format of a file whose header is valid.
pub open spec fn file_format(b: Seq<u8>) -> BspFormat {
    format_of_version(le_u32(b, 0) as u32)->Some_0
}

/// The lump table entry of `kind`.
pub open spec fn file_lump(b: Seq<u8>, kind: LumpType) -> LumpT {
    LumpT {
        offset: lump_offset_field(b, kind.spec_index()) as usize,
        length: lump_length_field(b, kind.spec_index()) as usize,
    }
}

pub open spec fn record_count<R: Record>(b: Seq<u8>, kind: LumpType) -> nat {
    (file_lump(b, kind).length as nat / R::spec_size(file_format(b))) as nat
}

pub open spec fn aligned<R: Record>(b: Seq<u8>, kind: LumpType) -> bool {
    file_lump(b, kind).length as nat % R::spec_size(file_format(b)) == 0
}

/// Every record lump holds a whole number of records.
pub open spec fn lumps_aligned(b: Seq<u8>) -> bool {
    &&& aligned::<MPlaneT>(b, LumpType::Planes)
    &&& aligned::<Vec3T>(b, LumpType::Vertexes)
    &&& aligned::<MNodeT>(b, LumpType::Nodes)
    &&& aligned::<MTexInfoT>(b, LumpType::Texinfo)
    &&& aligned::<MSurfaceT>(b, LumpType::Faces)
    &&& aligned::<MClipNodeT>(b, LumpType::ClipNodes)
    &&& aligned::<MLeafT>(b, LumpType::Leafs)
    &&& aligned::<MarkSurface>(b, LumpType::MarkSurfaces)
    &&& aligned::<MEdgeT>(b, LumpType::Edges)
    &&& aligned::<SurfEdge>(b, LumpType::SurfEdges)
    &&& aligned::<DModelT>(b, LumpType::Models)
}

pub open spec fn file_counts(b: Seq<u8>) -> Counts {
    Counts {
        planes: record_count::<MPlaneT>(b, LumpType::Planes) as usize,
        vertexes: record_count::<Vec3T>(b, LumpType::Vertexes) as usize,
        edges: record_count::<MEdgeT>(b, LumpType::Edges) as usize,
        surfedges: record_count::<SurfEdge>(b, LumpType::SurfEdges) as usize,
        texinfo: record_count::<MTexInfoT>(b, LumpType::Texinfo) as usize,
        faces: record_count::<MSurfaceT>(b, LumpType::Faces) as usize,
        nodes: record_count::<MNodeT>(b, LumpType::Nodes) as usize,
        clipnodes: record_count::<MClipNodeT>(b, LumpType::ClipNodes) as usize,
        leafs: record_count::<MLeafT>(b, LumpType::Leafs) as usize,
        marksurfaces: record_count::<MarkSurface>(b, LumpType::MarkSurfaces) as usize,
        models: record_count::<DModelT>(b, LumpType::Models) as usize,
        visdata: file_lump(b, LumpType::Visibility).length,
    }
}

/// The counts fit the format: at least the solid leaf and the world model, and
/// in the legacy format no more planes, nodes, clip nodes or leafs than its
/// 16-bit fields address.
pub open spec fn counts_ok(fmt: BspFormat, c: Counts) -> bool {
    &&& c.leafs >= 1
    &&& c.models >= 1
    &&& fmt == BspFormat::Legacy ==> c.planes <= MAX_LEGACY_INDEX && c.nodes <= MAX_LEGACY_INDEX
        && c.clipnodes <= MAX_LEGACY_INDEX && c.leafs <= MAX_LEGACY_INDEX
}

pub open spec fn decodes<R: Record>(b: Seq<u8>, kind: LumpType) -> bool {
    lump_decodes::<R>(b, file_format(b), file_lump(b, kind), file_counts(b))
}

pub open spec fn records<R: Record>(b: Seq<u8>, kind: LumpType) -> Seq<R> {
    lump_records::<R>(b, file_format(b), file_lump(b, kind), file_counts(b))
}

/// The bytes of a lump.
pub open spec fn lump_bytes(b: Seq<u8>, kind: LumpType) -> Seq<u8> {
    b.subrange(
        file_lump(b, kind).offset as int,
        file_lump(b, kind).offset + file_lump(b, kind).length,
    )
}

/// A level file that loads: a valid header, whole records, counts within the
/// format's limits, and every record in range.
pub open spec fn file_valid(b: Seq<u8>) -> bool {
    &&& header_valid(b)
    &&& lumps_aligned(b)
    &&& counts_ok(file_format(b), file_counts(b))
    &&& all_decode(b)
}

/// Every record of every record lump decodes.
pub open spec fn all_decode(b: Seq<u8>) -> bool {
    &&& decodes::<MPlaneT>(b, LumpType::Planes)
    &&& decodes::<Vec3T>(b, LumpType::Vertexes)
    &&& decodes::<MNodeT>(b, LumpType::Nodes)
    &&& decodes::<MTexInfoT>(b, LumpType::Texinfo)
    &&& decodes::<MSurfaceT>(b, LumpType::Faces)
    &&& decodes::<MClipNodeT>(b, LumpType::ClipNodes)
    &&& decodes::<MLeafT>(b, LumpType::Leafs)
    &&& decodes::<MarkSurface>(b, LumpType::MarkSurfaces)
    &&& decodes::<MEdgeT>(b, LumpType::Edges)
    &&& decodes::<SurfEdge>(b, LumpType::SurfEdges)
    &&& decodes::<DModelT>(b, LumpType::Models)
}

pub open spec fn hull0_child(leafs: Seq<MLeafT>, ch: Child) -> ClipChild {
    match ch {
        Child::Node(n) => ClipChild::Node(n),
        Child::Leaf(l) => ClipChild::Contents(leafs[l as int].contents),
    }
}

pub open spec fn hull0_node(leafs: Seq<MLeafT>, n: MNodeT) -> MClipNodeT {
    MClipNodeT { plane: n.plane, front: hull0_child(leafs, n.front), back: hull0_child(leafs, n.back) }
}

pub open spec fn child_ok(ch: Child, i: int, nodes: nat, leafs: nat) -> bool {
    match ch {
        Child::Node(n) => i < n < nodes,
        Child::Leaf(l) => l < leafs,
    }
}

pub open spec fn clip_child_ok(ch: ClipChild, i: int, n: nat) -> bool {
    match ch {
        ClipChild::Node(c) => i < c < n,
        ClipChild::Contents(_) => true,
    }
}

pub open spec fn head_ok(ch: ClipChild, n: nat) -> bool {
    match ch {
        ClipChild::Node(c) => c < n,
        ClipChild::Contents(_) => true,
    }
}

impl World {
    /// Every index resolves within its array, and children come after their
    /// parents, so that every descent ends.
    pub open spec fn wf(&self) -> bool {
        &&& self.wf_tree()
        &&& self.wf_leafs()
        &&& self.wf_clip()
        &&& self.wf_models()
        &&& self.wf_surfaces()
    }

    /// Planes are well formed; nodes reference planes, faces, later nodes and leafs.
    pub open spec fn wf_tree(&self) -> bool {
        &&& forall|i: int| 0 <= i < self.planes@.len() ==> (#[trigger] self.planes@[i]).wf()
        &&& forall|i: int|
            0 <= i < self.nodes@.len() ==> {
                let n = #[trigger] self.nodes@[i];
                &&& n.plane < self.planes@.len()
                &&& child_ok(n.front, i, self.nodes@.len(), self.leafs@.len())
                &&& child_ok(n.back, i, self.nodes@.len(), self.leafs@.len())
                &&& n.first_face + n.num_faces <= self.faces@.len()
            }
    }

    /// Leaf 0 is solid; leafs reference face lists and visibility data.
    pub open spec fn wf_leafs(&self) -> bool {
        &&& self.leafs@.len() >= 1
        &&& self.leafs@[0].contents == Contents::Solid
        &&& forall|i: int|
            0 <= i < self.leafs@.len() ==> {
                let l = #[trigger] self.leafs@[i];
                &&& l.first_mark + l.num_marks <= self.marksurfaces@.len()
                &&& l.visofs matches Some(o) ==> o < self.visdata@.len()
            }
        &&& forall|i: int|
            0 <= i < self.marksurfaces@.len() ==> (#[trigger] self.marksurfaces@[i]).face
                < self.faces@.len()
    }

    /// Clip nodes reference planes and later clip nodes; the point hull
    /// mirrors the render tree.
    pub open spec fn wf_clip(&self) -> bool {
        &&& forall|i: int|
            0 <= i < self.clipnodes@.len() ==> {
                let c = #[trigger] self.clipnodes@[i];
                &&& c.plane < self.planes@.len()
                &&& clip_child_ok(c.front, i, self.clipnodes@.len())
                &&& clip_child_ok(c.back, i, self.clipnodes@.len())
            }
        &&& self.hull0@.len() == self.nodes@.len()
        &&& forall|i: int|
            0 <= i < self.nodes@.len() ==> #[trigger] self.hull0@[i] == hull0_node(
                self.leafs@,
                self.nodes@[i],
            )
    }

    /// There is a world model, and every model's roots and ranges resolve.
    pub open spec fn wf_models(&self) -> bool {
        &&& self.models@.len() >= 1
        &&& forall|i: int|
            0 <= i < self.models@.len() ==> {
                let m = #[trigger] self.models@[i];
                &&& m.head_node < self.nodes@.len()
                &&& head_ok(m.hull1_head, self.clipnodes@.len())
                &&& head_ok(m.hull2_head, self.clipnodes@.len())
                &&& head_ok(m.hull3_head, self.clipnodes@.len())
                &&& m.visleafs < self.leafs@.len()
                &&& m.first_face + m.num_faces <= self.faces@.len()
            }
    }

    /// Faces, edges and surface edges reference within their arrays.
    pub open spec fn wf_surfaces(&self) -> bool {
        &&& forall|i: int|
            0 <= i < self.faces@.len() ==> {
                let f = #[trigger] self.faces@[i];
                &&& f.plane < self.planes@.len()
                &&& f.texinfo < self.texinfo@.len()
                &&& f.first_edge + f.num_edges <= self.surfedges@.len()
            }
        &&& forall|i: int|
            0 <= i < self.edges@.len() ==> (#[trigger] self.edges@[i]).v0 < self.vertexes@.len()
                && self.edges@[i].v1 < self.vertexes@.len()
        &&& forall|i: int|
            0 <= i < self.surfedges@.len() ==> (#[trigger] self.surfedges@[i]).edge
                < self.edges@.len()
    }

    /// This world holds exactly what the file `b` describes.
    pub open spec fn loaded_from(&self, b: Seq<u8>) -> bool {
        &&& self.format == file_format(b)
        &&& self.entities@ == lump_bytes(b, LumpType::Entities)
        &&& self.planes@ == records::<MPlaneT>(b, LumpType::Planes)
        &&& self.textures@ == lump_bytes(b, LumpType::Textures)
        &&& self.vertexes@ == records::<Vec3T>(b, LumpType::Vertexes)
        &&& self.visdata@ == lump_bytes(b, LumpType::Visibility)
        &&& self.nodes@ == records::<MNodeT>(b, LumpType::Nodes)
        &&& self.texinfo@ == records::<MTexInfoT>(b, LumpType::Texinfo)
        &&& self.faces@ == records::<MSurfaceT>(b, LumpType::Faces)
        &&& self.lighting@ == lump_bytes(b, LumpType::Lighting)
        &&& self.clipnodes@ == records::<MClipNodeT>(b, LumpType::ClipNodes)
        &&& self.leafs@ == records::<MLeafT>(b, LumpType::Leafs)
        &&& self.marksurfaces@ == records::<MarkSurface>(b, LumpType::MarkSurfaces)
        &&& self.edges@ == records::<MEdgeT>(b, LumpType::Edges)
        &&& self.surfedges@ == records::<SurfEdge>(b, LumpType::SurfEdges)
        &&& self.models@ == records::<DModelT>(b, LumpType::Models)
    }
}

fn copy_lump(b: &[u8], l: LumpT) -> (r: Vec<u8>)
    requires
        l.offset + l.length <= b@.len(),
    ensures
        r@ == b@.subrange(l.offset as int, l.offset + l.length),
{
    let mut out: Vec<u8> = Vec::new();
    let mut i: usize = 0;
    let _n = b.len();
    while i < l.length
        invariant
            l.offset + l.length <= b@.len() <= usize::MAX,
            i <= l.length,
            out@ == b@.subrange(l.offset as int, l.offset + i),
        decreases l.length - i,
    {
        out.push(b[l.offset + i]);
        i = i + 1;
        assert(out@ =~= b@.subrange(l.offset as int, l.offset + i));
    }
    out
}

fn count_of<R: Record>(h: &DHeaderT, kind: LumpType) -> (r: Option<usize>)
    requires
        h.lumps@.len() == HEADER_LUMPS,
    ensures
        r is Some <==> h.lumps@[kind.spec_index()].length as nat % R::spec_size(h.format) == 0,
        r matches Some(n) ==> n == h.lumps@[kind.spec_index()].length as nat / R::spec_size(
            h.format,
        ),
{
    let l = h.lump(kind);
    let size = R::size(h.format);
    if l.length % size == 0 {
        Some(l.length / size)
    } else {
        None
    }
}

fn to_hull0_child(leafs: &Vec<MLeafT>, ch: Child) -> (r: ClipChild)
    requires
        ch matches Child::Leaf(l) ==> l < leafs@.len(),
    ensures
        r == hull0_child(leafs@, ch),
{
    match ch {
        Child::Node(n) => ClipChild::Node(n),
        Child::Leaf(l) => ClipChild::Contents(leafs[l].contents),
    }
}

fn build_hull0(nodes: &Vec<MNodeT>, leafs: &Vec<MLeafT>) -> (r: Vec<MClipNodeT>)
    requires
        forall|i: int|
            0 <= i < nodes@.len() ==> child_ok((#[trigger] nodes@[i]).front, i, nodes@.len(), leafs@.len())
                && child_ok(nodes@[i].back, i, nodes@.len(), leafs@.len()),
    ensures
        r@.len() == nodes@.len(),
        forall|i: int| 0 <= i < nodes@.len() ==> #[trigger] r@[i] == hull0_node(leafs@, nodes@[i]),
{
    let mut out: Vec<MClipNodeT> = Vec::new();
    let mut i: usize = 0;
    while i < nodes.len()
        invariant
            i <= nodes@.len(),
            out@.len() == i,
            forall|k: int|
                0 <= k < nodes@.len() ==> child_ok((#[trigger] nodes@[k]).front, k, nodes@.len(), leafs@.len())
                    && child_ok(nodes@[k].back, k, nodes@.len(), leafs@.len()),
            forall|k: int| 0 <= k < i ==> #[trigger] out@[k] == hull0_node(leafs@, nodes@[k]),
        decreases nodes@.len() - i,
    {
        let n = nodes[i];
        assert(child_ok(nodes@[i as int].front, i as int, nodes@.len(), leafs@.len()));
        let front = to_hull0_child(leafs, n.front);
        let back = to_hull0_child(leafs, n.back);
        out.push(MClipNodeT { plane: n.plane, front, back });
        i = i + 1;
    }
    out
}

proof fn lemma_planes_wf(b: Seq<u8>)
    requires
        decodes::<MPlaneT>(b, LumpType::Planes),
    ensures
        forall|i: int|
            0 <= i < records::<MPlaneT>(b, LumpType::Planes).len() ==> (#[trigger] records::<MPlaneT>(
                b,
                LumpType::Planes,
            )[i]).wf(),
{
    let s = records::<MPlaneT>(b, LumpType::Planes);
    let l = file_lump(b, LumpType::Planes);
    assert forall|i: int| 0 <= i < s.len() implies (#[trigger] s[i]).wf() by {
        let at = l.offset + i * 20;
        assert(MPlaneT::spec_parse(b, file_format(b), at, i, file_counts(b)) is Some);
        crate::wire::lemma_float_fixed_range(le_u32(b, at + 12) as u32);
    }
}

proof fn lemma_nodes_ok(b: Seq<u8>)
    requires
        decodes::<MNodeT>(b, LumpType::Nodes),
    ensures
        forall|i: int|
            0 <= i < records::<MNodeT>(b, LumpType::Nodes).len() ==> {
                let n = #[trigger] records::<MNodeT>(b, LumpType::Nodes)[i];
                let c = file_counts(b);
                &&& n.plane < c.planes
                &&& child_ok(n.front, i, c.nodes as nat, c.leafs as nat)
                &&& child_ok(n.back, i, c.nodes as nat, c.leafs as nat)
                &&& n.first_face + n.num_faces <= c.faces
            },
{
    let s = records::<MNodeT>(b, LumpType::Nodes);
    let l = file_lump(b, LumpType::Nodes);
    let fmt = file_format(b);
    let c = file_counts(b);
    assert forall|i: int| 0 <= i < s.len() implies {
        let n = #[trigger] s[i];
        &&& n.plane < c.planes
        &&& child_ok(n.front, i, c.nodes as nat, c.leafs as nat)
        &&& child_ok(n.back, i, c.nodes as nat, c.leafs as nat)
        &&& n.first_face + n.num_faces <= c.faces
    } by {
        let at = l.offset + i * MNodeT::spec_size(fmt);
        assert(MNodeT::spec_parse(b, fmt, at, i, c) is Some);
    }
}

proof fn lemma_leafs_ok(b: Seq<u8>)
    requires
        decodes::<MLeafT>(b, LumpType::Leafs),
    ensures
        forall|i: int|
            0 <= i < records::<MLeafT>(b, LumpType::Leafs).len() ==> {
                let lf = #[trigger] records::<MLeafT>(b, LumpType::Leafs)[i];
                let c = file_counts(b);
                &&& lf.first_mark + lf.num_marks <= c.marksurfaces
                &&& lf.visofs matches Some(o) ==> o < c.visdata
                &&& i == 0 ==> lf.contents == Contents::Solid
            },
{
    let s = records::<MLeafT>(b, LumpType::Leafs);
    let l = file_lump(b, LumpType::Leafs);
    let fmt = file_format(b);
    let c = file_counts(b);
    assert forall|i: int| 0 <= i < s.len() implies {
        let lf = #[trigger] s[i];
        &&& lf.first_mark + lf.num_marks <= c.marksurfaces
        &&& lf.visofs matches Some(o) ==> o < c.visdata
        &&& i == 0 ==> lf.contents == Contents::Solid
    } by {
        let at = l.offset + i * MLeafT::spec_size(fmt);
        assert(MLeafT::spec_parse(b, fmt, at, i, c) is Some);
    }
}

proof fn lemma_clipnodes_ok(b: Seq<u8>)
    requires
        decodes::<MClipNodeT>(b, LumpType::ClipNodes),
    ensures
        forall|i: int|
            0 <= i < records::<MClipNodeT>(b, LumpType::ClipNodes).len() ==> {
                let n = #[trigger] records::<MClipNodeT>(b, LumpType::ClipNodes)[i];
                let c = file_counts(b);
                &&& n.plane < c.planes
                &&& clip_child_ok(n.front, i, c.clipnodes as nat)
                &&& clip_child_ok(n.back, i, c.clipnodes as nat)
            },
{
    let s = records::<MClipNodeT>(b, LumpType::ClipNodes);
    let l = file_lump(b, LumpType::ClipNodes);
    let fmt = file_format(b);
    let c = file_counts(b);
    assert forall|i: int| 0 <= i < s.len() implies {
        let n = #[trigger] s[i];
        &&& n.plane < c.planes
        &&& clip_child_ok(n.front, i, c.clipnodes as nat)
        &&& clip_child_ok(n.back, i, c.clipnodes as nat)
    } by {
        let at = l.offset + i * MClipNodeT::spec_size(fmt);
        assert(MClipNodeT::spec_parse(b, fmt, at, i, c) is Some);
    }
}

proof fn lemma_models_ok(b: Seq<u8>)
    requires
        decodes::<DModelT>(b, LumpType::Models),
    ensures
        forall|i: int|
            0 <= i < records::<DModelT>(b, LumpType::Models).len() ==> {
                let m = #[trigger] records::<DModelT>(b, LumpType::Models)[i];
                let c = file_counts(b);
                &&& m.head_node < c.nodes
                &&& head_ok(m.hull1_head, c.clipnodes as nat)
                &&& head_ok(m.hull2_head, c.clipnodes as nat)
                &&& head_ok(m.hull3_head, c.clipnodes as nat)
                &&& m.visleafs < c.leafs
                &&& m.first_face + m.num_faces <= c.faces
            },
{
    let s = records::<DModelT>(b, LumpType::Models);
    let l = file_lump(b, LumpType::Models);
    let fmt = file_format(b);
    let c = file_counts(b);
    assert forall|i: int| 0 <= i < s.len() implies {
        let m = #[trigger] s[i];
        &&& m.head_node < c.nodes
        &&& head_ok(m.hull1_head, c.clipnodes as nat)
        &&& head_ok(m.hull2_head, c.clipnodes as nat)
        &&& head_ok(m.hull3_head, c.clipnodes as nat)
        &&& m.visleafs < c.leafs
        &&& m.first_face + m.num_faces <= c.faces
    } by {
        let at = l.offset + i * DModelT::spec_size(fmt);
        assert(DModelT::spec_parse(b, fmt, at, i, c) is Some);
    }
}

proof fn lemma_surface_ok(b: Seq<u8>)
    requires
        decodes::<MSurfaceT>(b, LumpType::Faces),
        decodes::<MarkSurface>(b, LumpType::MarkSurfaces),
        decodes::<MEdgeT>(b, LumpType::Edges),
        decodes::<SurfEdge>(b, LumpType::SurfEdges),
    ensures
        forall|i: int|
            0 <= i < records::<MSurfaceT>(b, LumpType::Faces).len() ==> {
                let f = #[trigger] records::<MSurfaceT>(b, LumpType::Faces)[i];
                let c = file_counts(b);
                &&& f.plane < c.planes
                &&& f.texinfo < c.texinfo
                &&& f.first_edge + f.num_edges <= c.surfedges
            },
        forall|i: int|
            0 <= i < records::<MarkSurface>(b, LumpType::MarkSurfaces).len() ==> (
            #[trigger] records::<MarkSurface>(b, LumpType::MarkSurfaces)[i]).face < file_counts(
                b,
            ).faces,
        forall|i: int|
            0 <= i < records::<MEdgeT>(b, LumpType::Edges).len() ==> (#[trigger] records::<MEdgeT>(
                b,
                LumpType::Edges,
            )[i]).v0 < file_counts(b).vertexes && records::<MEdgeT>(b, LumpType::Edges)[i].v1
                < file_counts(b).vertexes,
        forall|i: int|
            0 <= i < records::<SurfEdge>(b, LumpType::SurfEdges).len() ==> (
            #[trigger] records::<SurfEdge>(b, LumpType::SurfEdges)[i]).edge < file_counts(b).edges,
{
    let fmt = file_format(b);
    let c = file_counts(b);
    let fs = records::<MSurfaceT>(b, LumpType::Faces);
    assert forall|i: int| 0 <= i < fs.len() implies {
        let f = #[trigger] fs[i];
        &&& f.plane < c.planes
        &&& f.texinfo < c.texinfo
        &&& f.first_edge + f.num_edges <= c.surfedges
    } by {
        let at = file_lump(b, LumpType::Faces).offset + i * MSurfaceT::spec_size(fmt);
        assert(MSurfaceT::spec_parse(b, fmt, at, i, c) is Some);
    }
    let ms = records::<MarkSurface>(b, LumpType::MarkSurfaces);
    assert forall|i: int| 0 <= i < ms.len() implies (#[trigger] ms[i]).face < c.faces by {
        let at = file_lump(b, LumpType::MarkSurfaces).offset + i * MarkSurface::spec_size(fmt);
        assert(MarkSurface::spec_parse(b, fmt, at, i, c) is Some);
    }
    let es = records::<MEdgeT>(b, LumpType::Edges);
    assert forall|i: int| 0 <= i < es.len() implies (#[trigger] es[i]).v0 < c.vertexes
        && es[i].v1 < c.vertexes by {
        let at = file_lump(b, LumpType::Edges).offset + i * MEdgeT::spec_size(fmt);
        assert(MEdgeT::spec_parse(b, fmt, at, i, c) is Some);
    }
    let ss = records::<SurfEdge>(b, LumpType::SurfEdges);
    assert forall|i: int| 0 <= i < ss.len() implies (#[trigger] ss[i]).edge < c.edges by {
        let at = file_lump(b, LumpType::SurfEdges).offset + i * SurfEdge::spec_size(fmt);
        assert(SurfEdge::spec_parse(b, fmt, at, i, c) is Some);
    }
}

fn file_counts_of(b: &[u8], h: &DHeaderT) -> (r: Result<Counts, BspError>)
    requires
        header_valid(b@),
        h.describes(b@),
        forall|k: LumpType| #[trigger] h.lumps@[k.spec_index()] == file_lump(b@, k),
    ensures
        r is Ok <==> lumps_aligned(b@) && counts_ok(file_format(b@), file_counts(b@)),
        r matches Ok(c) ==> c == file_counts(b@),
{
    let (planes_n, vertexes_n, nodes_n, texinfo_n, faces_n, clipnodes_n) = (
        count_of::<MPlaneT>(h, LumpType::Planes),
        count_of::<Vec3T>(h, LumpType::Vertexes),
        count_of::<MNodeT>(h, LumpType::Nodes),
        count_of::<MTexInfoT>(h, LumpType::Texinfo),
        count_of::<MSurfaceT>(h, LumpType::Faces),
        count_of::<MClipNodeT>(h, LumpType::ClipNodes),
    );
    let (leafs_n, marks_n, edges_n, surfedges_n, models_n) = (
        count_of::<MLeafT>(h, LumpType::Leafs),
        count_of::<MarkSurface>(h, LumpType::MarkSurfaces),
        count_of::<MEdgeT>(h, LumpType::Edges),
        count_of::<SurfEdge>(h, LumpType::SurfEdges),
        count_of::<DModelT>(h, LumpType::Models),
    );
    let c = match (
        planes_n,
        vertexes_n,
        nodes_n,
        texinfo_n,
        faces_n,
        clipnodes_n,
        leafs_n,
        marks_n,
        edges_n,
        surfedges_n,
        models_n,
    ) {
        (
            Some(planes),
            Some(vertexes),
            Some(nodes),
            Some(texinfo),
            Some(faces),
            Some(clipnodes),
            Some(leafs),
            Some(marksurfaces),
            Some(edges),
            Some(surfedges),
            Some(models),
        ) => Counts {
            planes,
            vertexes,
            edges,
            surfedges,
            texinfo,
            faces,
            nodes,
            clipnodes,
            leafs,
            marksurfaces,
            models,
            visdata: h.lump(LumpType::Visibility).length,
        },
        _ => return Err(BspError::MalformedFile),
    };
    if c.leafs < 1 || c.models < 1 {
        return Err(BspError::MalformedFile);
    }
    if matches!(h.format, BspFormat::Legacy) && (c.planes > MAX_LEGACY_INDEX || c.nodes
        > MAX_LEGACY_INDEX || c.clipnodes > MAX_LEGACY_INDEX || c.leafs > MAX_LEGACY_INDEX) {
        return Err(BspError::MalformedFile);
    }
    Ok(c)
}

fn decode_world(b: &[u8], h: &DHeaderT, c: &Counts) -> (r: Result<World, BspError>)
    requires
        header_valid(b@),
        h.describes(b@),
        h.within(b@.len() as int),
        h.format == file_format(b@),
        forall|k: LumpType| #[trigger] h.lumps@[k.spec_index()] == file_lump(b@, k),
        *c == file_counts(b@),
    ensures
        r is Ok <==> all_decode(b@),
        r matches Ok(w) ==> w.loaded_from(b@) && w.sized(*c) && w.hull0@.len() == w.nodes@.len() && (forall|
            i: int,
        | 0 <= i < w.nodes@.len() ==> #[trigger] w.hull0@[i] == hull0_node(w.leafs@, w.nodes@[i])),
{
    let fmt = h.format;
    assert(h.lumps@[LumpType::Planes.spec_index()] == file_lump(b@, LumpType::Planes));
    let planes = match decode_lump::<MPlaneT>(b, fmt, h.lump(LumpType::Planes), c) {
        Ok(v) => v,
        Err(e) => return Err(e),
    };
    let vertexes = match decode_lump::<Vec3T>(b, fmt, h.lump(LumpType::Vertexes), c) {
        Ok(v) => v,
        Err(e) => return Err(e),
    };
    let nodes = match decode_lump::<MNodeT>(b, fmt, h.lump(LumpType::Nodes), c) {
        Ok(v) => v,
        Err(e) => return Err(e),
    };
    let texinfo = match decode_lump::<MTexInfoT>(b, fmt, h.lump(LumpType::Texinfo), c) {
        Ok(v) => v,
        Err(e) => return Err(e),
    };
    let faces = match decode_lump::<MSurfaceT>(b, fmt, h.lump(LumpType::Faces), c) {
        Ok(v) => v,
        Err(e) => return Err(e),
    };
    let clipnodes = match decode_lump::<MClipNodeT>(b, fmt, h.lump(LumpType::ClipNodes), c) {
        Ok(v) => v,
        Err(e) => return Err(e),
    };
    let leafs = match decode_lump::<MLeafT>(b, fmt, h.lump(LumpType::Leafs), c) {
        Ok(v) => v,
        Err(e) => return Err(e),
    };
    let marksurfaces = match decode_lump::<MarkSurface>(b, fmt, h.lump(LumpType::MarkSurfaces), c) {
        Ok(v) => v,
        Err(e) => return Err(e),
    };
    let edges = match decode_lump::<MEdgeT>(b, fmt, h.lump(LumpType::Edges), c) {
        Ok(v) => v,
        Err(e) => return Err(e),
    };
    let surfedges = match decode_lump::<SurfEdge>(b, fmt, h.lump(LumpType::SurfEdges), c) {
        Ok(v) => v,
        Err(e) => return Err(e),
    };
    let models = match decode_lump::<DModelT>(b, fmt, h.lump(LumpType::Models), c) {
        Ok(v) => v,
        Err(e) => return Err(e),
    };
    proof {
        lemma_nodes_ok(b@);
    }
    let hull0 = build_hull0(&nodes, &leafs);
    Ok(
        World {
            format: fmt,
            entities: copy_lump(b, h.lump(LumpType::Entities)),
            planes,
            textures: copy_lump(b, h.lump(LumpType::Textures)),
            vertexes,
            visdata: copy_lump(b, h.lump(LumpType::Visibility)),
            nodes,
            texinfo,
            faces,
            lighting: copy_lump(b, h.lump(LumpType::Lighting)),
            clipnodes,
            leafs,
            marksurfaces,
            edges,
            surfedges,
            models,
            hull0,
        },
    )
}

impl World {
    /// Each array has the length that the counts give.
    pub open spec fn sized(&self, c: Counts) -> bool {
        &&& self.planes@.len() == c.planes
        &&& self.vertexes@.len() == c.vertexes
        &&& self.nodes@.len() == c.nodes
        &&& self.texinfo@.len() == c.texinfo
        &&& self.faces@.len() == c.faces
        &&& self.clipnodes@.len() == c.clipnodes
        &&& self.leafs@.len() == c.leafs
        &&& self.marksurfaces@.len() == c.marksurfaces
        &&& self.edges@.len() == c.edges
        &&& self.surfedges@.len() == c.surfedges
        &&& self.models@.len() == c.models
        &&& self.visdata@.len() == c.visdata
    }
}

proof fn lemma_wf_tree(b: Seq<u8>, w: &World)
    requires
        decodes::<MPlaneT>(b, LumpType::Planes),
        decodes::<MNodeT>(b, LumpType::Nodes),
        w.planes@ == records::<MPlaneT>(b, LumpType::Planes),
        w.nodes@ == records::<MNodeT>(b, LumpType::Nodes),
        w.sized(file_counts(b)),
    ensures
        w.wf_tree(),
{
    lemma_planes_wf(b);
    lemma_nodes_ok(b);
}

proof fn lemma_wf_leafs(b: Seq<u8>, w: &World)
    requires
        decodes::<MLeafT>(b, LumpType::Leafs),
        decodes::<MarkSurface>(b, LumpType::MarkSurfaces),
        decodes::<MSurfaceT>(b, LumpType::Faces),
        decodes::<MEdgeT>(b, LumpType::Edges),
        decodes::<SurfEdge>(b, LumpType::SurfEdges),
        w.leafs@ == records::<MLeafT>(b, LumpType::Leafs),
        w.marksurfaces@ == records::<MarkSurface>(b, LumpType::MarkSurfaces),
        w.sized(file_counts(b)),
        w.leafs@.len() >= 1,
    ensures
        w.wf_leafs(),
{
    lemma_leafs_ok(b);
    lemma_surface_ok(b);
}

proof fn lemma_wf_clip(b: Seq<u8>, w: &World)
    requires
        decodes::<MClipNodeT>(b, LumpType::ClipNodes),
        w.clipnodes@ == records::<MClipNodeT>(b, LumpType::ClipNodes),
        w.sized(file_counts(b)),
        w.hull0@.len() == w.nodes@.len(),
        forall|i: int| 0 <= i < w.nodes@.len() ==> #[trigger] w.hull0@[i] == hull0_node(w.leafs@, w.nodes@[i]),
    ensures
        w.wf_clip(),
{
    lemma_clipnodes_ok(b);
}

proof fn lemma_wf_models(b: Seq<u8>, w: &World)
    requires
        decodes::<DModelT>(b, LumpType::Models),
        w.models@ == records::<DModelT>(b, LumpType::Models),
        w.sized(file_counts(b)),
        w.models@.len() >= 1,
    ensures
        w.wf_models(),
{
    lemma_models_ok(b);
}

proof fn lemma_wf_surfaces(b: Seq<u8>, w: &World)
    requires
        decodes::<MSurfaceT>(b, LumpType::Faces),
        decodes::<MarkSurface>(b, LumpType::MarkSurfaces),
        decodes::<MEdgeT>(b, LumpType::Edges),
        decodes::<SurfEdge>(b, LumpType::SurfEdges),
        w.faces@ == records::<MSurfaceT>(b, LumpType::Faces),
        w.edges@ == records::<MEdgeT>(b, LumpType::Edges),
        w.surfedges@ == records::<SurfEdge>(b, LumpType::SurfEdges),
        w.sized(file_counts(b)),
    ensures
        w.wf_surfaces(),
{
    lemma_surface_ok(b);
}

impl World {
    /// Loads a level from the bytes of its file. Fails with `MalformedFile`
    /// exactly when the file is not valid; no partial level is returned.
    pub fn load(b: &[u8]) -> (r: Result<World, BspError>)
        ensures
            r is Ok <==> file_valid(b@),
            r matches Ok(w) ==> w.wf() && w.loaded_from(b@),
    {
        let _len = b.len();
        let h = match DHeaderT::parse(b) {
            Ok(h) => h,
            Err(e) => return Err(e),
        };
        proof {
            assert forall|k: LumpType| #[trigger] h.lumps@[k.spec_index()] == file_lump(b@, k) by {
                assert(0 <= k.spec_index() < HEADER_LUMPS);
            }
        }
        let c = match file_counts_of(b, &h) {
            Ok(c) => c,
            Err(e) => return Err(e),
        };
        let w = match decode_world(b, &h, &c) {
            Ok(w) => w,
            Err(e) => return Err(e),
        };
        proof {
            lemma_wf_tree(b@, &w);
            lemma_wf_leafs(b@, &w);
            lemma_wf_clip(b@, &w);
            lemma_wf_models(b@, &w);
            lemma_wf_surfaces(b@, &w);
        }
        Ok(w)
    }
}

/// The vertex a face's loop reaches at its `k`-th edge: the edge's first
/// vertex, or its second where the loop walks the edge backward.
pub open spec fn loop_vertex(w: World, face: int, k: int) -> usize {
    let se = w.surfedges@[w.faces@[face].first_edge + k];
    let e = w.edges@[se.edge as int];
    if se.reversed {
        e.v1
    } else {
        e.v0
    }
}

impl World {
    /// The vertex loop of face `face`, one vertex per edge, in winding order.
    pub fn face_vertices(&self, face: usize) -> (r: Vec<usize>)
        requires
            self.wf(),
            face < self.faces@.len(),
        ensures
            r@.len() == self.faces@[face as int].num_edges,
            forall|k: int| 0 <= k < r@.len() ==> r@[k] == loop_vertex(*self, face as int, k),
            forall|k: int| 0 <= k < r@.len() ==> r@[k] < self.vertexes@.len(),
    {
        let f = self.faces[face];
        let mut out: Vec<usize> = Vec::new();
        let mut k: usize = 0;
        let _n = self.surfedges.len();
        assert(self.faces@[face as int].first_edge + self.faces@[face as int].num_edges
            <= self.surfedges@.len());
        while k < f.num_edges
            invariant
                self.wf(),
                face < self.faces@.len(),
                f == self.faces@[face as int],
                f.first_edge + f.num_edges <= self.surfedges@.len() <= usize::MAX,
                k <= f.num_edges,
                out@.len() == k,
                forall|i: int| 0 <= i < k ==> out@[i] == loop_vertex(*self, face as int, i),
                forall|i: int| 0 <= i < k ==> out@[i] < self.vertexes@.len(),
            decreases f.num_edges - k,
        {
            let se = self.surfedges[f.first_edge + k];
            assert(self.surfedges@[f.first_edge + k as int].edge < self.edges@.len());
            let e = self.edges[se.edge];
            assert(self.edges@[se.edge as int].v0 < self.vertexes@.len());
            let v = if se.reversed {
                e.v1
            } else {
                e.v0
            };
            out.push(v);
            k = k + 1;
        }
        out
    }
}

} // verus!
