use chroma::bspfile::{BSP2VERSION_2PSB, BSP2VERSION_BSP2, BSPVERSION};
use chroma::records::{Child, ClipChild};
use chroma::wire::FIXED_ONE;
use chroma::{BspError, BspFormat, Contents, TracePlane, TraceResult, Vec3T, World};

const PLANES: usize = 1;
const VISIBILITY: usize = 4;
const NODES: usize = 5;
const TEXINFO: usize = 6;
const FACES: usize = 7;
const CLIPNODES: usize = 9;
const LEAFS: usize = 10;
const MARKSURFACES: usize = 11;
const MODELS: usize = 14;

fn assemble(version: u32, lumps: &[Vec<u8>]) -> Vec<u8> {
    let mut out = Vec::new();
    out.extend_from_slice(&version.to_le_bytes());
    let mut ofs: usize = 124;
    for l in lumps {
        out.extend_from_slice(&(ofs as i32).to_le_bytes());
        out.extend_from_slice(&(l.len() as i32).to_le_bytes());
        ofs += l.len();
    }
    for l in lumps {
        out.extend_from_slice(l);
    }
    out
}

fn f(v: f32, out: &mut Vec<u8>) {
    out.extend_from_slice(&v.to_bits().to_le_bytes());
}

fn i32s(vals: &[i32], out: &mut Vec<u8>) {
    for v in vals {
        out.extend_from_slice(&v.to_le_bytes());
    }
}

fn i16s(vals: &[i16], out: &mut Vec<u8>) {
    for v in vals {
        out.extend_from_slice(&v.to_le_bytes());
    }
}

fn plane(out: &mut Vec<u8>, n: [f32; 3], dist: f32, kind: i32) {
    for c in n {
        f(c, out);
    }
    f(dist, out);
    i32s(&[kind], out);
}

fn node(out: &mut Vec<u8>, fmt: BspFormat, planenum: i32, children: [i32; 2]) {
    i32s(&[planenum], out);
    match fmt {
        BspFormat::Legacy => {
            i16s(&[children[0] as i16, children[1] as i16], out);
            i16s(&[-64, -64, -64, 64, 64, 64], out);
            i16s(&[0, 0], out);
        }
        BspFormat::Rmq => {
            i32s(&children, out);
            i16s(&[-64, -64, -64, 64, 64, 64], out);
            i32s(&[0, 0], out);
        }
        BspFormat::Bsp2 => {
            i32s(&children, out);
            for v in [-64.0f32, -64.0, -64.0, 64.0, 64.0, 64.0] {
                f(v, out);
            }
            i32s(&[0, 0], out);
        }
    }
}

fn leaf(out: &mut Vec<u8>, fmt: BspFormat, contents: i32, visofs: i32, marks: [u32; 2]) {
    i32s(&[contents, visofs], out);
    match fmt {
        BspFormat::Legacy => {
            i16s(&[-64, -64, -64, 64, 64, 64], out);
            out.extend_from_slice(&(marks[0] as u16).to_le_bytes());
            out.extend_from_slice(&(marks[1] as u16).to_le_bytes());
        }
        BspFormat::Rmq => {
            i16s(&[-64, -64, -64, 64, 64, 64], out);
            i32s(&[marks[0] as i32, marks[1] as i32], out);
        }
        BspFormat::Bsp2 => {
            for v in [-64.0f32, -64.0, -64.0, 64.0, 64.0, 64.0] {
                f(v, out);
            }
            i32s(&[marks[0] as i32, marks[1] as i32], out);
        }
    }
    out.extend_from_slice(&[1, 2, 3, 4]);
}

fn clipnode(out: &mut Vec<u8>, fmt: BspFormat, planenum: i32, children: [i32; 2]) {
    i32s(&[planenum], out);
    match fmt {
        BspFormat::Legacy => i16s(&[children[0] as i16, children[1] as i16], out),
        _ => i32s(&children, out),
    }
}

fn model(out: &mut Vec<u8>, heads: [i32; 4], visleafs: i32, faces: [i32; 2]) {
    for v in [-64.0f32, -64.0, -64.0, 64.0, 64.0, 64.0, 0.0, 0.0, 0.0] {
        f(v, out);
    }
    i32s(&heads, out);
    i32s(&[visleafs, faces[0], faces[1]], out);
}

fn face(out: &mut Vec<u8>, fmt: BspFormat, planenum: i32, texinfo: i32) {
    match fmt {
        BspFormat::Legacy => {
            i16s(&[planenum as i16, 0], out);
            i32s(&[0], out);
            i16s(&[0, texinfo as i16], out);
        }
        _ => i32s(&[planenum, 0, 0, 0, texinfo], out),
    }
    out.extend_from_slice(&[0, 0xFF, 0xFF, 0xFF]);
    i32s(&[-1], out);
}

fn version_of(fmt: BspFormat) -> u32 {
    match fmt {
        BspFormat::Legacy => BSPVERSION,
        BspFormat::Rmq => BSP2VERSION_2PSB,
        BspFormat::Bsp2 => BSP2VERSION_BSP2,
    }
}

/// One plane x = 0; a root node whose front is an empty leaf and whose back
/// is the solid leaf; one clip node with the same split for hull 1.
fn split_level(fmt: BspFormat) -> Vec<u8> {
    let mut lumps: Vec<Vec<u8>> = vec![Vec::new(); 15];
    plane(&mut lumps[PLANES], [1.0, 0.0, 0.0], 0.0, 0);
    node(&mut lumps[NODES], fmt, 0, [-2, -1]);
    leaf(&mut lumps[LEAFS], fmt, -2, -1, [0, 0]);
    leaf(&mut lumps[LEAFS], fmt, -1, -1, [0, 0]);
    clipnode(&mut lumps[CLIPNODES], fmt, 0, [-1, -2]);
    model(&mut lumps[MODELS], [0, 0, 0, 0], 1, [0, 0]);
    assemble(version_of(fmt), &lumps)
}

fn unit(v: i64) -> i64 {
    v * FIXED_ONE
}

fn pt(x: i64, y: i64, z: i64) -> Vec3T {
    Vec3T::new(unit(x), unit(y), unit(z))
}

#[test]
fn split_level_classifies_points_by_side() {
    let w = World::load(&split_level(BspFormat::Legacy)).unwrap();
    assert_eq!(w.format, BspFormat::Legacy);
    let front = w.leaf_for_point(0, &pt(1, 0, 0));
    let back = w.leaf_for_point(0, &pt(-1, 0, 0));
    assert_eq!(front, 1);
    assert_eq!(back, 0);
    assert_eq!(w.leafs[front].contents, Contents::Empty);
    assert_eq!(w.leafs[back].contents, Contents::Solid);
    assert_eq!(w.contents_at(0, &pt(1, 0, 0)), Contents::Empty);
    assert_eq!(w.contents_at(0, &pt(-1, 0, 0)), Contents::Solid);
}

#[test]
fn point_on_the_plane_goes_front_every_time() {
    let w = World::load(&split_level(BspFormat::Legacy)).unwrap();
    let on = pt(0, 5, -7);
    for _ in 0..3 {
        assert_eq!(w.leaf_for_point(0, &on), 1);
    }
    assert_eq!(w.leaf_for_point(0, &Vec3T::new(-1, 0, 0)), 0);
}

#[test]
fn wide_formats_load_the_same_level() {
    for fmt in [BspFormat::Rmq, BspFormat::Bsp2] {
        let w = World::load(&split_level(fmt)).unwrap();
        assert_eq!(w.format, fmt);
        assert_eq!(w.leaf_for_point(0, &pt(3, 0, 0)), 1);
        assert_eq!(w.leaf_for_point(0, &pt(-3, 0, 0)), 0);
        assert_eq!(w.nodes[0].mins, pt(-64, -64, -64));
        assert_eq!(w.leafs[1].maxs, pt(64, 64, 64));
    }
}

#[test]
fn decoded_records_resolve_references() {
    let w = World::load(&split_level(BspFormat::Legacy)).unwrap();
    assert_eq!(w.planes.len(), 1);
    assert_eq!(w.planes[0].normal, pt(1, 0, 0));
    assert_eq!(w.nodes[0].front, Child::Leaf(1));
    assert_eq!(w.nodes[0].back, Child::Leaf(0));
    assert_eq!(w.clipnodes[0].front, ClipChild::Contents(Contents::Empty));
    assert_eq!(w.clipnodes[0].back, ClipChild::Contents(Contents::Solid));
    assert_eq!(w.hull0[0].front, ClipChild::Contents(Contents::Empty));
    assert_eq!(w.hull0[0].back, ClipChild::Contents(Contents::Solid));
    assert_eq!(w.leafs[1].ambient, [1, 2, 3, 4]);
    assert_eq!(w.leafs[1].visofs, None);
    assert_eq!(w.models[0].hull1_head, ClipChild::Node(0));
    assert_eq!(w.models[0].visleafs, 1);
}

#[test]
fn point_hull_agrees_with_leafs() {
    let w = World::load(&split_level(BspFormat::Legacy)).unwrap();
    let h = w.hull(0, 0);
    for p in [pt(1, 0, 0), pt(-1, 0, 0), pt(0, 0, 0), pt(-100, 3, 3)] {
        let l = w.leaf_for_point(0, &p);
        assert_eq!(w.hull_point_contents(&h, &p), w.leafs[l].contents);
    }
}

#[test]
fn bad_version_is_malformed() {
    let mut b = split_level(BspFormat::Legacy);
    b[0] = 30;
    assert!(matches!(World::load(&b), Err(BspError::MalformedFile)));
}

#[test]
fn short_header_is_malformed() {
    let b = split_level(BspFormat::Legacy);
    assert!(matches!(World::load(&b[..100]), Err(BspError::MalformedFile)));
}

#[test]
fn lump_past_the_end_is_malformed() {
    let b = split_level(BspFormat::Legacy);
    assert!(matches!(World::load(&b[..b.len() - 1]), Err(BspError::MalformedFile)));
}

#[test]
fn misaligned_lump_is_malformed() {
    let mut lumps: Vec<Vec<u8>> = vec![Vec::new(); 15];
    plane(&mut lumps[PLANES], [1.0, 0.0, 0.0], 0.0, 0);
    lumps[PLANES].push(0);
    node(&mut lumps[NODES], BspFormat::Legacy, 0, [-2, -1]);
    leaf(&mut lumps[LEAFS], BspFormat::Legacy, -2, -1, [0, 0]);
    leaf(&mut lumps[LEAFS], BspFormat::Legacy, -1, -1, [0, 0]);
    model(&mut lumps[MODELS], [0, 0, 0, 0], 1, [0, 0]);
    assert!(matches!(World::load(&assemble(BSPVERSION, &lumps)), Err(BspError::MalformedFile)));
}

fn level_with(node_children: [i32; 2], leaf0: i32, plane_kind: i32, dist: f32) -> Vec<u8> {
    let mut lumps: Vec<Vec<u8>> = vec![Vec::new(); 15];
    plane(&mut lumps[PLANES], [1.0, 0.0, 0.0], dist, plane_kind);
    node(&mut lumps[NODES], BspFormat::Legacy, 0, node_children);
    leaf(&mut lumps[LEAFS], BspFormat::Legacy, leaf0, -1, [0, 0]);
    leaf(&mut lumps[LEAFS], BspFormat::Legacy, -1, -1, [0, 0]);
    model(&mut lumps[MODELS], [0, 0, 0, 0], 1, [0, 0]);
    assemble(BSPVERSION, &lumps)
}

#[test]
fn references_out_of_range_are_malformed() {
    assert!(World::load(&level_with([-2, -1], -2, 0, 0.0)).is_ok());
    assert!(matches!(World::load(&level_with([-3, -1], -2, 0, 0.0)), Err(BspError::MalformedFile)));
    assert!(matches!(World::load(&level_with([1, -1], -2, 0, 0.0)), Err(BspError::MalformedFile)));
    assert!(matches!(World::load(&level_with([0, -1], -2, 0, 0.0)), Err(BspError::MalformedFile)));
}

#[test]
fn leaf_zero_must_be_solid() {
    assert!(matches!(World::load(&level_with([-2, -1], -1, 0, 0.0)), Err(BspError::MalformedFile)));
}

#[test]
fn bad_plane_fields_are_malformed() {
    assert!(matches!(World::load(&level_with([-2, -1], -2, 6, 0.0)), Err(BspError::MalformedFile)));
    assert!(matches!(
        World::load(&level_with([-2, -1], -2, 0, f32::NAN)),
        Err(BspError::MalformedFile)
    ));
    assert!(matches!(
        World::load(&level_with([-2, -1], -2, 0, 1.0e9)),
        Err(BspError::MalformedFile)
    ));
}

#[test]
fn level_without_models_is_malformed() {
    let mut lumps: Vec<Vec<u8>> = vec![Vec::new(); 15];
    leaf(&mut lumps[LEAFS], BspFormat::Legacy, -2, -1, [0, 0]);
    assert!(matches!(World::load(&assemble(BSPVERSION, &lumps)), Err(BspError::MalformedFile)));
}

#[test]
fn bad_content_value_is_malformed() {
    assert!(matches!(World::load(&level_with([-2, -1], -20, 0, 0.0)), Err(BspError::MalformedFile)));
}

#[test]
fn sweep_into_solid_stops_before_the_plane() {
    let w = World::load(&split_level(BspFormat::Legacy)).unwrap();
    let h = w.hull(0, 0);
    let r = w.trace(&h, &pt(1, 0, 0), &pt(-1, 0, 0));
    assert_eq!(
        r,
        TraceResult::Hit {
            fraction: 31744,
            point: Vec3T::new(2048, 0, 0),
            plane: Some(TracePlane { plane: 0, back_side: false }),
        }
    );
}

#[test]
fn sweep_in_open_space_is_clear() {
    let w = World::load(&split_level(BspFormat::Legacy)).unwrap();
    let h = w.hull(0, 0);
    assert_eq!(w.trace(&h, &pt(1, 0, 0), &pt(9, 4, 2)), TraceResult::Clear);
    assert_eq!(w.hull_point_contents(&h, &pt(9, 4, 2)), Contents::Empty);
}

#[test]
fn zero_length_sweeps() {
    let w = World::load(&split_level(BspFormat::Legacy)).unwrap();
    for which in 0..2 {
        let h = w.hull(0, which);
        assert_eq!(w.trace(&h, &pt(2, 0, 0), &pt(2, 0, 0)), TraceResult::Clear);
        assert_eq!(
            w.trace(&h, &pt(-2, 0, 0), &pt(-2, 0, 0)),
            TraceResult::Hit { fraction: 0, point: pt(-2, 0, 0), plane: None }
        );
    }
}

#[test]
fn sweep_starting_in_solid_hits_at_once() {
    let w = World::load(&split_level(BspFormat::Legacy)).unwrap();
    let h = w.hull(0, 1);
    assert_eq!(
        w.trace(&h, &pt(-1, 0, 0), &pt(5, 0, 0)),
        TraceResult::Hit { fraction: 0, point: pt(-1, 0, 0), plane: None }
    );
}

#[test]
fn box_sweep_moves_into_hull_space() {
    let w = World::load(&split_level(BspFormat::Legacy)).unwrap();
    let h = w.hull(0, 1);
    assert_eq!(h.clip_mins, pt(-16, -16, -24));
    assert_eq!(h.clip_maxs, pt(16, 16, 32));
    // A mover whose box starts 16 units behind its origin is tested at its
    // origin; the hit point comes back in world space.
    let mins = pt(-16, -16, -24);
    let r = w.trace_box(&h, &mins, &pt(1, 0, 0), &pt(-1, 0, 0)).unwrap();
    assert_eq!(
        r,
        TraceResult::Hit {
            fraction: 31744,
            point: Vec3T::new(2048, 0, 0),
            plane: Some(TracePlane { plane: 0, back_side: false }),
        }
    );
    // A smaller mover is pushed 8 units forward into hull space.
    let small = pt(-8, -8, -24);
    let r = w.trace_box(&h, &small, &pt(-7, 0, 0), &pt(-7, 0, 0)).unwrap();
    assert_eq!(r, TraceResult::Clear);
    let r = w.trace_box(&h, &small, &pt(-9, 0, 0), &pt(-9, 0, 0)).unwrap();
    assert_eq!(r, TraceResult::Hit { fraction: 0, point: pt(-9, 0, 0), plane: None });
}

#[test]
fn level_without_clip_nodes_has_open_hulls() {
    let w = World::load(&level_with([-2, -1], -2, 0, 0.0)).unwrap();
    assert_eq!(w.models[0].hull1_head, ClipChild::Contents(Contents::Empty));
    let h = w.hull(0, 2);
    assert_eq!(w.trace(&h, &pt(-5, 0, 0), &pt(5, 0, 0)), TraceResult::Clear);
}

fn vis_level(row1: u8, row2: u8) -> Vec<u8> {
    let fmt = BspFormat::Legacy;
    let mut lumps: Vec<Vec<u8>> = vec![Vec::new(); 15];
    plane(&mut lumps[PLANES], [1.0, 0.0, 0.0], 0.0, 0);
    node(&mut lumps[NODES], fmt, 0, [-2, -3]);
    leaf(&mut lumps[LEAFS], fmt, -2, -1, [0, 0]);
    leaf(&mut lumps[LEAFS], fmt, -1, 0, [0, 2]);
    leaf(&mut lumps[LEAFS], fmt, -3, 1, [2, 1]);
    lumps[VISIBILITY] = vec![row1, row2];
    lumps[TEXINFO] = vec![0; 40];
    face(&mut lumps[FACES], fmt, 0, 0);
    face(&mut lumps[FACES], fmt, 0, 0);
    for m in [0u16, 1, 1] {
        lumps[MARKSURFACES].extend_from_slice(&m.to_le_bytes());
    }
    model(&mut lumps[MODELS], [0, 0, 0, 0], 2, [0, 2]);
    assemble(BSPVERSION, &lumps)
}

#[test]
fn marking_twice_marks_nothing_new() {
    let w = World::load(&vis_level(0x01, 0x03)).unwrap();
    let mut marks = vec![0u32; 2];
    let first = w.mark_visible_surfaces(1, 7, &mut marks);
    assert_eq!(first, vec![0, 1]);
    assert_eq!(marks, vec![7, 7]);
    let second = w.mark_visible_surfaces(1, 7, &mut marks);
    assert_eq!(second, Vec::<usize>::new());
    assert_eq!(marks, vec![7, 7]);
}

#[test]
fn marking_follows_the_viewer_row() {
    let w = World::load(&vis_level(0x02, 0x03)).unwrap();
    assert_eq!(w.leaf_vis_row(1), vec![0x02]);
    assert_eq!(w.leaf_vis_row(0), vec![0xFF]);
    let mut marks = vec![3u32, 3];
    let newly = w.mark_visible_surfaces(1, 9, &mut marks);
    assert_eq!(newly, vec![1]);
    assert_eq!(marks, vec![3, 9]);
    let newly = w.mark_visible_surfaces(2, 9, &mut marks);
    assert_eq!(newly, vec![0]);
    assert_eq!(marks, vec![9, 9]);
}

#[test]
fn visibility_offset_past_the_data_is_malformed() {
    let mut b = vis_level(0x01, 0x03);
    // Shrink the visibility lump to one byte: leaf 2's offset 1 leaves it.
    let at = 4 + 8 * VISIBILITY + 4;
    b[at] = 1;
    assert!(matches!(World::load(&b), Err(BspError::MalformedFile)));
}

const VERTEXES: usize = 3;
const EDGES: usize = 12;
const SURFEDGES: usize = 13;

#[test]
fn face_loop_follows_edge_directions() {
    let fmt = BspFormat::Legacy;
    let mut lumps: Vec<Vec<u8>> = vec![Vec::new(); 15];
    plane(&mut lumps[PLANES], [0.0, 0.0, 1.0], 0.0, 2);
    node(&mut lumps[NODES], fmt, 0, [-2, -1]);
    leaf(&mut lumps[LEAFS], fmt, -2, -1, [0, 0]);
    leaf(&mut lumps[LEAFS], fmt, -1, -1, [0, 0]);
    for p in [[0.0f32, 0.0, 0.0], [64.0, 0.0, 0.0], [0.0, 64.0, 0.0]] {
        for c in p {
            f(c, &mut lumps[VERTEXES]);
        }
    }
    for e in [[0u16, 0], [0, 1], [2, 1], [2, 0]] {
        for v in e {
            lumps[EDGES].extend_from_slice(&v.to_le_bytes());
        }
    }
    i32s(&[1, -2, 3], &mut lumps[SURFEDGES]);
    lumps[TEXINFO] = vec![0; 40];
    i16s(&[0, 0], &mut lumps[FACES]);
    i32s(&[0], &mut lumps[FACES]);
    i16s(&[3, 0], &mut lumps[FACES]);
    lumps[FACES].extend_from_slice(&[0, 0xFF, 0xFF, 0xFF]);
    i32s(&[-1], &mut lumps[FACES]);
    model(&mut lumps[MODELS], [0, 0, 0, 0], 1, [0, 1]);
    let w = World::load(&assemble(BSPVERSION, &lumps)).unwrap();
    assert_eq!(w.vertexes[1], pt(64, 0, 0));
    assert_eq!(w.face_vertices(0), vec![0, 1, 2]);
}

#[test]
fn edge_to_a_missing_vertex_is_malformed() {
    let fmt = BspFormat::Legacy;
    let mut lumps: Vec<Vec<u8>> = vec![Vec::new(); 15];
    node(&mut lumps[NODES], fmt, 0, [-2, -1]);
    plane(&mut lumps[PLANES], [0.0, 0.0, 1.0], 0.0, 2);
    leaf(&mut lumps[LEAFS], fmt, -2, -1, [0, 0]);
    leaf(&mut lumps[LEAFS], fmt, -1, -1, [0, 0]);
    for v in [0u16, 5] {
        lumps[EDGES].extend_from_slice(&v.to_le_bytes());
    }
    model(&mut lumps[MODELS], [0, 0, 0, 0], 1, [0, 0]);
    assert!(matches!(World::load(&assemble(BSPVERSION, &lumps)), Err(BspError::MalformedFile)));
}

#[test]
fn legacy_format_limits_counts() {
    let fmt = BspFormat::Legacy;
    let mut lumps: Vec<Vec<u8>> = vec![Vec::new(); 15];
    for _ in 0..32768 {
        plane(&mut lumps[PLANES], [0.0, 0.0, 1.0], 0.0, 2);
    }
    node(&mut lumps[NODES], fmt, 0, [-2, -1]);
    leaf(&mut lumps[LEAFS], fmt, -2, -1, [0, 0]);
    leaf(&mut lumps[LEAFS], fmt, -1, -1, [0, 0]);
    model(&mut lumps[MODELS], [0, 0, 0, 0], 1, [0, 0]);
    assert!(matches!(World::load(&assemble(BSPVERSION, &lumps)), Err(BspError::MalformedFile)));
    let mut wide: Vec<Vec<u8>> = vec![Vec::new(); 15];
    wide[PLANES] = lumps[PLANES].clone();
    node(&mut wide[NODES], BspFormat::Bsp2, 0, [-2, -1]);
    leaf(&mut wide[LEAFS], BspFormat::Bsp2, -2, -1, [0, 0]);
    leaf(&mut wide[LEAFS], BspFormat::Bsp2, -1, -1, [0, 0]);
    model(&mut wide[MODELS], [0, 0, 0, 0], 1, [0, 0]);
    assert!(World::load(&assemble(BSP2VERSION_BSP2, &wide)).is_ok());
}

#[test]
fn parents_point_back_up_the_tree() {
    let fmt = BspFormat::Legacy;
    let mut lumps: Vec<Vec<u8>> = vec![Vec::new(); 15];
    plane(&mut lumps[PLANES], [1.0, 0.0, 0.0], 0.0, 0);
    plane(&mut lumps[PLANES], [0.0, 1.0, 0.0], 0.0, 1);
    node(&mut lumps[NODES], fmt, 0, [1, -1]);
    node(&mut lumps[NODES], fmt, 1, [-2, -3]);
    leaf(&mut lumps[LEAFS], fmt, -2, -1, [0, 0]);
    leaf(&mut lumps[LEAFS], fmt, -1, -1, [0, 0]);
    leaf(&mut lumps[LEAFS], fmt, -3, -1, [0, 0]);
    model(&mut lumps[MODELS], [0, 0, 0, 0], 2, [0, 0]);
    let w = World::load(&assemble(BSPVERSION, &lumps)).unwrap();
    let p = w.parents();
    assert_eq!(p.nodes, vec![None, Some(0)]);
    assert_eq!(p.leafs, vec![Some(0), Some(1), Some(1)]);
    assert_eq!(w.leaf_for_point(0, &pt(1, 1, 0)), 1);
    assert_eq!(w.leaf_for_point(0, &pt(1, -1, 0)), 2);
    assert_eq!(w.contents_at(0, &pt(1, -1, 0)), Contents::Water);
    assert_eq!(w.leaf_for_point(0, &pt(-1, 1, 0)), 0);
}
