//! On-disk vocabulary of the level file: format versions, lump kinds,
//! content values and plane kinds, and the lump table.
use vstd::prelude::*;
use crate::wire::{le_i32, le_u32, read_i32, read_u32};

verus! {

pub const MAX_MAP_HULLS: usize = 4;

pub const MAX_MAP_MODELS: usize = 256;

/// Largest count of planes, nodes, clip nodes or leafs that the legacy format's
/// 16-bit signed fields can address.
pub const MAX_LEGACY_INDEX: usize = 32767;

pub const BSPVERSION: u32 = 29;

/// "2PSB": 32-bit indices, 16-bit bounding boxes.
pub const BSP2VERSION_2PSB: u32 = 0x4253_5032;

/// "BSP2": 32-bit indices, float bounding boxes.
pub const BSP2VERSION_BSP2: u32 = 0x3250_5342;

pub const HEADER_LUMPS: usize = 15;

/// Bytes of the header: the version word and fifteen (offset, length) pairs.
pub const HEADER_SIZE: usize = 124;

pub const NUM_AMBIENTS: usize = 4;

/// The record layout family selected by the version word.
#[derive(Clone, Copy, Debug, PartialEq, Eq, Structural)]
pub enum BspFormat {
    /// 16-bit child, face and bounding-box fields.
    Legacy,
    /// 32-bit indices with 16-bit bounding boxes.
    Rmq,
    /// 32-bit indices with float bounding boxes.
    Bsp2,
}

pub open spec fn format_of_version(v: u32) -> Option<BspFormat> {
    if v == BSPVERSION {
        Some(BspFormat::Legacy)
    } else if v == BSP2VERSION_2PSB {
        Some(BspFormat::Rmq)
    } else if v == BSP2VERSION_BSP2 {
        Some(BspFormat::Bsp2)
    } else {
        None
    }
}

impl BspFormat {
    pub fn from_version(v: u32) -> (r: Option<BspFormat>)
        ensures
            r == format_of_version(v),
    {
        if v == BSPVERSION {
            Some(BspFormat::Legacy)
        } else if v == BSP2VERSION_2PSB {
            Some(BspFormat::Rmq)
        } else if v == BSP2VERSION_BSP2 {
            Some(BspFormat::Bsp2)
        } else {
            None
        }
    }
}

#[derive(Clone, Copy, Debug, PartialEq, Eq, Structural)]
pub enum LumpType {
    Entities,
    Planes,
    Textures,
    Vertexes,
    Visibility,
    Nodes,
    Texinfo,
    Faces,
    Lighting,
    ClipNodes,
    Leafs,
    MarkSurfaces,
    Edges,
    SurfEdges,
    Models,
}

impl LumpType {
    /// Position of this lump in the header table.
    pub open spec fn spec_index(self) -> int {
        match self {
            LumpType::Entities => 0,
            LumpType::Planes => 1,
            LumpType::Textures => 2,
            LumpType::Vertexes => 3,
            LumpType::Visibility => 4,
            LumpType::Nodes => 5,
            LumpType::Texinfo => 6,
            LumpType::Faces => 7,
            LumpType::Lighting => 8,
            LumpType::ClipNodes => 9,
            LumpType::Leafs => 10,
            LumpType::MarkSurfaces => 11,
            LumpType::Edges => 12,
            LumpType::SurfEdges => 13,
            LumpType::Models => 14,
        }
    }

    pub fn index(self) -> (r: usize)
        ensures
            r == self.spec_index(),
            r < HEADER_LUMPS,
    {
        match self {
            LumpType::Entities => 0,
            LumpType::Planes => 1,
            LumpType::Textures => 2,
            LumpType::Vertexes => 3,
            LumpType::Visibility => 4,
            LumpType::Nodes => 5,
            LumpType::Texinfo => 6,
            LumpType::Faces => 7,
            LumpType::Lighting => 8,
            LumpType::ClipNodes => 9,
            LumpType::Leafs => 10,
            LumpType::MarkSurfaces => 11,
            LumpType::Edges => 12,
            LumpType::SurfEdges => 13,
            LumpType::Models => 14,
        }
    }
}

/// Axis classification of a plane: 0-2 are axial, 3-5 are snapped to the
/// nearest axis.
#[derive(Clone, Copy, Debug, PartialEq, Eq, Structural)]
pub enum PlaneType {
    X,
    Y,
    Z,
    AnyX,
    AnyY,
    AnyZ,
}

pub open spec fn plane_type_of_code(v: int) -> Option<PlaneType> {
    if v == 0 {
        Some(PlaneType::X)
    } else if v == 1 {
        Some(PlaneType::Y)
    } else if v == 2 {
        Some(PlaneType::Z)
    } else if v == 3 {
        Some(PlaneType::AnyX)
    } else if v == 4 {
        Some(PlaneType::AnyY)
    } else if v == 5 {
        Some(PlaneType::AnyZ)
    } else {
        None
    }
}

impl PlaneType {
    pub fn from_code(v: i32) -> (r: Option<PlaneType>)
        ensures
            r == plane_type_of_code(v as int),
    {
        if v == 0 {
            Some(PlaneType::X)
        } else if v == 1 {
            Some(PlaneType::Y)
        } else if v == 2 {
            Some(PlaneType::Z)
        } else if v == 3 {
            Some(PlaneType::AnyX)
        } else if v == 4 {
            Some(PlaneType::AnyY)
        } else if v == 5 {
            Some(PlaneType::AnyZ)
        } else {
            None
        }
    }
}

/// Content classification of a volume; the file stores it as a small
/// negative integer.
#[derive(Clone, Copy, Debug, PartialEq, Eq, Structural)]
pub enum Contents {
    Empty,
    Solid,
    Water,
    Slime,
    Lava,
    Sky,
    Origin,
    Clip,
    Current0,
    Current90,
    Current180,
    Current270,
    CurrentUp,
    CurrentDown,
}

pub open spec fn contents_of_code(v: int) -> Option<Contents> {
    if v == -1 {
        Some(Contents::Empty)
    } else if v == -2 {
        Some(Contents::Solid)
    } else if v == -3 {
        Some(Contents::Water)
    } else if v == -4 {
        Some(Contents::Slime)
    } else if v == -5 {
        Some(Contents::Lava)
    } else if v == -6 {
        Some(Contents::Sky)
    } else if v == -7 {
        Some(Contents::Origin)
    } else if v == -8 {
        Some(Contents::Clip)
    } else if v == -9 {
        Some(Contents::Current0)
    } else if v == -10 {
        Some(Contents::Current90)
    } else if v == -11 {
        Some(Contents::Current180)
    } else if v == -12 {
        Some(Contents::Current270)
    } else if v == -13 {
        Some(Contents::CurrentUp)
    } else if v == -14 {
        Some(Contents::CurrentDown)
    } else {
        None
    }
}

impl Contents {
    pub open spec fn spec_code(self) -> int {
        match self {
            Contents::Empty => -1,
            Contents::Solid => -2,
            Contents::Water => -3,
            Contents::Slime => -4,
            Contents::Lava => -5,
            Contents::Sky => -6,
            Contents::Origin => -7,
            Contents::Clip => -8,
            Contents::Current0 => -9,
            Contents::Current90 => -10,
            Contents::Current180 => -11,
            Contents::Current270 => -12,
            Contents::CurrentUp => -13,
            Contents::CurrentDown => -14,
        }
    }

    /// The value that stands for these contents in the file.
    pub fn code(self) -> (r: i32)
        ensures
            r == self.spec_code(),
    {
        match self {
            Contents::Empty => -1,
            Contents::Solid => -2,
            Contents::Water => -3,
            Contents::Slime => -4,
            Contents::Lava => -5,
            Contents::Sky => -6,
            Contents::Origin => -7,
            Contents::Clip => -8,
            Contents::Current0 => -9,
            Contents::Current90 => -10,
            Contents::Current180 => -11,
            Contents::Current270 => -12,
            Contents::CurrentUp => -13,
            Contents::CurrentDown => -14,
        }
    }

    /// Decodes a stored content value; `None` for a value outside the enumeration.
    pub fn from_code(v: i32) -> (r: Option<Contents>)
        ensures
            r == contents_of_code(v as int),
            r is Some <==> -14 <= v <= -1,
            r matches Some(c) ==> c.spec_code() == v,
    {
        match v {
            -1 => Some(Contents::Empty),
            -2 => Some(Contents::Solid),
            -3 => Some(Contents::Water),
            -4 => Some(Contents::Slime),
            -5 => Some(Contents::Lava),
            -6 => Some(Contents::Sky),
            -7 => Some(Contents::Origin),
            -8 => Some(Contents::Clip),
            -9 => Some(Contents::Current0),
            -10 => Some(Contents::Current90),
            -11 => Some(Contents::Current180),
            -12 => Some(Contents::Current270),
            -13 => Some(Contents::CurrentUp),
            -14 => Some(Contents::CurrentDown),
            _ => None,
        }
    }
}

/// Kinds of ambient sound a leaf carries a level for.
#[derive(Clone, Copy, Debug, PartialEq, Eq, Structural)]
pub enum AmbientSound {
    Water,
    Sky,
    Slime,
    Lava,
}

/// Why a level file was refused.
#[derive(Clone, Copy, Debug, PartialEq, Eq, Structural)]
pub enum BspError {
    /// Bad version word, a lump outside the file, a misaligned lump, a count
    /// over the format's limits, or an index that leaves its array.
    MalformedFile,
}

/// One entry of the lump table: a byte range of the file.
#[derive(Clone, Copy, Debug, PartialEq, Eq, Structural)]
pub struct LumpT {
    pub offset: usize,
    pub length: usize,
}

pub struct DHeaderT {
    pub format: BspFormat,
    pub lumps: Vec<LumpT>,
}

pub open spec fn lump_offset_field(b: Seq<u8>, i: int) -> int {
    le_i32(b, 4 + 8 * i)
}

pub open spec fn lump_length_field(b: Seq<u8>, i: int) -> int {
    le_i32(b, 8 + 8 * i)
}

/// The i-th lump table entry lies within the file.
pub open spec fn lump_in_file(b: Seq<u8>, i: int) -> bool {
    &&& lump_offset_field(b, i) >= 0
    &&& lump_length_field(b, i) >= 0
    &&& lump_offset_field(b, i) + lump_length_field(b, i) <= b.len()
}

pub open spec fn header_valid(b: Seq<u8>) -> bool {
    &&& b.len() >= HEADER_SIZE
    &&& format_of_version(le_u32(b, 0) as u32) is Some
    &&& forall|i: int| 0 <= i < HEADER_LUMPS ==> lump_in_file(b, i)
}

impl DHeaderT {
    pub open spec fn describes(&self, b: Seq<u8>) -> bool {
        &&& self.lumps@.len() == HEADER_LUMPS
        &&& format_of_version(le_u32(b, 0) as u32) == Some(self.format)
        &&& forall|i: int|
            0 <= i < HEADER_LUMPS ==> (#[trigger] self.lumps@[i]).offset == lump_offset_field(b, i)
                && self.lumps@[i].length == lump_length_field(b, i)
    }

    /// Reads the version word and the lump table, and checks that every lump
    /// lies within the file.
    pub fn parse(b: &[u8]) -> (r: Result<DHeaderT, BspError>)
        ensures
            r is Ok <==> header_valid(b@),
            r matches Ok(h) ==> h.describes(b@) && h.within(b@.len() as int),
    {
        if b.len() < HEADER_SIZE {
            return Err(BspError::MalformedFile);
        }
        let version = read_u32(b, 0);
        let format = match BspFormat::from_version(version) {
            Some(f) => f,
            None => return Err(BspError::MalformedFile),
        };
        let mut lumps: Vec<LumpT> = Vec::new();
        let mut i: usize = 0;
        while i < HEADER_LUMPS
            invariant
                b@.len() >= HEADER_SIZE,
                i <= HEADER_LUMPS,
                lumps@.len() == i,
                forall|k: int| 0 <= k < i ==> lump_in_file(b@, k),
                forall|k: int|
                    0 <= k < i ==> (#[trigger] lumps@[k]).offset == lump_offset_field(b@, k)
                        && lumps@[k].length == lump_length_field(b@, k)
                        && lumps@[k].offset + lumps@[k].length <= b@.len(),
                format_of_version(le_u32(b@, 0) as u32) == Some(format),
            decreases HEADER_LUMPS - i,
        {
            let ofs = read_i32(b, 4 + 8 * i);
            let len = read_i32(b, 8 + 8 * i);
            if ofs < 0 || len < 0 || ofs as usize > b.len() || len as usize > b.len() - ofs as usize {
                assert(!lump_in_file(b@, i as int));
                return Err(BspError::MalformedFile);
            }
            lumps.push(LumpT { offset: ofs as usize, length: len as usize });
            i = i + 1;
        }
        Ok(DHeaderT { format, lumps })
    }

    pub open spec fn within(&self, n: int) -> bool {
        forall|i: int|
            0 <= i < self.lumps@.len() ==> (#[trigger] self.lumps@[i]).offset
                + self.lumps@[i].length <= n
    }

    pub fn lump(&self, kind: LumpType) -> (r: LumpT)
        requires
            self.lumps@.len() == HEADER_LUMPS,
        ensures
            r == self.lumps@[kind.spec_index()],
    {
        self.lumps[kind.index()]
    }
}

} // verus!
