//! Gaussian splats: billboard quads that need no mesh and no entity.

use vstd::prelude::*;
use crate::bytes::{
    extend_from_bytes, lemma_words_bytes_len, put_words, words_bytes, zero_bytes, ByteOrder,
};
use crate::types::{ONE, ZERO};

verus! {

/// Size in bytes of the camera basis that the splat shader reads.
pub const CAM_BASIS_SIZE: usize = 32;

/// Size in bytes of one corner of the splat quad.
pub const QUAD_VERTEX_SIZE: usize = 8;

/// Size in bytes of one splat instance, padding included.
pub const GAUSS_INSTANCE_SIZE: usize = 48;

/// Number of corners drawn for each splat: two triangles.
pub const QUAD_VERTEX_COUNT: u32 = 6;

/// Bit pattern of the single-precision number -1.
pub const MINUS_ONE: u32 = 0xBF80_0000;

/// The camera's right and up directions in world space.
#[derive(Clone, Copy, Debug, PartialEq, Eq)]
pub struct CameraBasis {
    pub right: [u32; 3],
    pub _pad0: u32,
    pub up: [u32; 3],
    pub _pad1: u32,
}

impl CameraBasis {
    /// Two three-vectors, each padded with zeros to sixteen bytes.
    pub open spec fn bytes(self, order: ByteOrder) -> Seq<u8> {
        words_bytes(self.right@, order) + zero_bytes(4) + words_bytes(self.up@, order) + zero_bytes(
            4,
        )
    }

    pub fn to_bytes(&self, order: ByteOrder) -> (result: [u8; CAM_BASIS_SIZE])
        ensures
            result@ == self.bytes(order),
    {
        let mut result = [0u8; CAM_BASIS_SIZE];
        proof {
            lemma_words_bytes_len(self.right@, order);
            lemma_words_bytes_len(self.up@, order);
        }
        put_words(&mut result, 0, self.right.as_slice(), order);
        put_words(&mut result, 16, self.up.as_slice(), order);
        assert(result@ =~= self.bytes(order));
        result
    }
}

/// One corner of the quad that every splat is drawn on.
#[derive(Clone, Copy, Debug, PartialEq, Eq)]
pub struct QuadVertex {
    /// The x and y of the corner in normalised device coordinates.
    pub pos: [u32; 2],
}

impl QuadVertex {
    pub open spec fn bytes(self, order: ByteOrder) -> Seq<u8> {
        words_bytes(self.pos@, order)
    }

    pub fn to_bytes(&self, order: ByteOrder) -> (result: [u8; QUAD_VERTEX_SIZE])
        ensures
            result@ == self.bytes(order),
    {
        let mut result = [0u8; QUAD_VERTEX_SIZE];
        proof {
            lemma_words_bytes_len(self.pos@, order);
        }
        put_words(&mut result, 0, self.pos.as_slice(), order);
        assert(result@ =~= self.bytes(order));
        result
    }
}

/// The corners of the unit quad as two triangles, counter-clockwise.
pub open spec fn quad_corners() -> Seq<QuadVertex> {
    seq![
        QuadVertex { pos: [MINUS_ONE, MINUS_ONE] },
        QuadVertex { pos: [ONE, MINUS_ONE] },
        QuadVertex { pos: [ONE, ONE] },
        QuadVertex { pos: [MINUS_ONE, MINUS_ONE] },
        QuadVertex { pos: [ONE, ONE] },
        QuadVertex { pos: [MINUS_ONE, ONE] },
    ]
}

pub fn quad_vertices() -> (corners: [QuadVertex; 6])
    ensures
        corners@ == quad_corners(),
{
    let corners = [
        QuadVertex { pos: [MINUS_ONE, MINUS_ONE] },
        QuadVertex { pos: [ONE, MINUS_ONE] },
        QuadVertex { pos: [ONE, ONE] },
        QuadVertex { pos: [MINUS_ONE, MINUS_ONE] },
        QuadVertex { pos: [ONE, ONE] },
        QuadVertex { pos: [MINUS_ONE, ONE] },
    ];
    assert(corners@ =~= quad_corners());
    corners
}

/// The records of the first `upto` corners, one behind the other.
pub open spec fn quad_bytes(corners: Seq<QuadVertex>, order: ByteOrder, upto: int) -> Seq<u8>
    decreases upto,
{
    if upto <= 0 {
        Seq::empty()
    } else {
        quad_bytes(corners, order, upto - 1) + corners[upto - 1].bytes(order)
    }
}

/// The contents of the vertex buffer that every splat is drawn from. It is
/// set up once and never changes.
pub fn quad_vertex_data(order: ByteOrder) -> (contents: Vec<u8>)
    ensures
        contents@ == quad_bytes(quad_corners(), order, 6),
{
    let corners = quad_vertices();
    let mut contents: Vec<u8> = Vec::new();
    let mut i: usize = 0;
    while i < 6
        invariant
            i <= 6,
            corners@ == quad_corners(),
            contents@ == quad_bytes(quad_corners(), order, i as int),
        decreases 6 - i,
    {
        let record = corners[i].to_bytes(order);
        extend_from_bytes(&mut contents, record.as_slice());
        i += 1;
    }
    contents
}

/// A splat as the application sets it.
#[derive(Clone, Copy, Debug, PartialEq, Eq)]
pub struct Gaussian {
    pub center: [u32; 3],
    pub amplitude: u32,
    pub width: u32,
    pub color: [u32; 4],
}

/// A splat as the GPU reads it.
#[derive(Clone, Copy, Debug, PartialEq, Eq)]
pub struct GaussianInstance {
    pub center: [u32; 3],
    pub amplitude: u32,
    /// The standard deviation, not its square.
    pub width: u32,
    pub color: [u32; 4],
    /// Brings the record to a multiple of sixteen bytes.
    pub _pad: [u32; 3],
}

impl Gaussian {
    pub open spec fn instance(self) -> GaussianInstance {
        GaussianInstance {
            center: self.center,
            amplitude: self.amplitude,
            width: self.width,
            color: self.color,
            _pad: [ZERO, ZERO, ZERO],
        }
    }

    pub fn to_instance(&self) -> (instance: GaussianInstance)
        ensures
            instance == self.instance(),
    {
        GaussianInstance {
            center: self.center,
            amplitude: self.amplitude,
            width: self.width,
            color: self.color,
            _pad: [ZERO, ZERO, ZERO],
        }
    }
}

impl GaussianInstance {
    /// Centre, amplitude, width and colour, then twelve zero bytes whatever
    /// the padding field holds.
    pub open spec fn bytes(self, order: ByteOrder) -> Seq<u8> {
        words_bytes(self.center@, order) + words_bytes(seq![self.amplitude, self.width], order)
            + words_bytes(self.color@, order) + zero_bytes(12)
    }

    pub fn to_bytes(&self, order: ByteOrder) -> (result: [u8; GAUSS_INSTANCE_SIZE])
        ensures
            result@ == self.bytes(order),
    {
        let mut result = [0u8; GAUSS_INSTANCE_SIZE];
        let shape = [self.amplitude, self.width];
        proof {
            lemma_words_bytes_len(self.center@, order);
            lemma_words_bytes_len(shape@, order);
            lemma_words_bytes_len(self.color@, order);
        }
        put_words(&mut result, 0, self.center.as_slice(), order);
        put_words(&mut result, 12, shape.as_slice(), order);
        put_words(&mut result, 20, self.color.as_slice(), order);
        assert(shape@ =~= seq![self.amplitude, self.width]);
        assert(result@ =~= self.bytes(order));
        result
    }
}

} // verus!
