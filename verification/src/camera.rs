//! The camera and the bytes of the buffer that the shaders read it from.

use vstd::prelude::*;
use crate::bytes::{
    lemma_words_bytes_len, put_bytes, put_words, words_bytes, zero_bytes, ByteOrder,
};
use crate::types::{MAT4_SIZE, VEC3_UNIFORM_SIZE};

verus! {

/// Size in bytes of the camera buffer: the product of projection and view
/// matrix, three padded three-vectors' worth of position and fog, and
/// sixteen bytes that align it.
pub const CAMERA_SIZE: usize = MAT4_SIZE + 3 * VEC3_UNIFORM_SIZE + 16;

/// The point of view, its projection, and the fog in front of it.
#[derive(Clone, Copy, Debug, PartialEq, Eq)]
pub struct Camera {
    /// Vertical field of view in radians.
    pub fov_y: u32,
    /// Width over height.
    pub aspect: u32,
    pub near: u32,
    pub far: u32,
    pub position: [u32; 3],
    /// A quaternion, in the order w, x, y, z.
    pub orientation: [u32; 4],
    /// The projection matrix. It changes only with the four numbers above.
    pub proj_mat: [u32; 16],
    pub fog_density: u32,
    /// How steeply fog sets in.
    pub fog_power: u32,
    /// Distance from the camera at which fog begins.
    pub fog_start: u32,
    /// Distance from the camera at which fog is at full strength.
    pub fog_end: u32,
    pub fog_color: [u32; 3],
}

impl Camera {
    /// The numbers of the fog as the shader reads them: density, power,
    /// start, end, then three colour slots, of which the second and the
    /// third both hold the second component of `fog_color`.
    pub open spec fn fog_words(self) -> Seq<u32> {
        seq![
            self.fog_density,
            self.fog_power,
            self.fog_start,
            self.fog_end,
            self.fog_color[0],
            self.fog_color[1],
            self.fog_color[1],
        ]
    }

    /// The camera buffer around the product `proj_view` of projection and
    /// view matrix: the product, the position padded to sixteen bytes, the
    /// fog, and zeros to the end.
    pub open spec fn bytes(self, proj_view: Seq<u8>, order: ByteOrder) -> Seq<u8> {
        proj_view + words_bytes(self.position@, order) + zero_bytes(4) + words_bytes(
            self.fog_words(),
            order,
        ) + zero_bytes(20)
    }

    /// Lays out the camera buffer around the product of projection and view
    /// matrix, which comes as the bytes of its sixteen numbers.
    pub fn to_bytes(&self, proj_view: &[u8; MAT4_SIZE], order: ByteOrder) -> (result: [
        u8;
        CAMERA_SIZE
    ])
        ensures
            result@ == self.bytes(proj_view@, order),
    {
        let mut result = [0u8; CAMERA_SIZE];
        let fog = [
            self.fog_density,
            self.fog_power,
            self.fog_start,
            self.fog_end,
            self.fog_color[0],
            self.fog_color[1],
            self.fog_color[1],
        ];
        proof {
            lemma_words_bytes_len(self.position@, order);
            lemma_words_bytes_len(fog@, order);
        }
        let mut i: usize = 0;
        put_bytes(&mut result, i, proj_view.as_slice());
        i += MAT4_SIZE;
        put_words(&mut result, i, self.position.as_slice(), order);
        i += VEC3_UNIFORM_SIZE;
        put_words(&mut result, i, fog.as_slice(), order);
        assert(fog@ =~= self.fog_words());
        assert(result@ =~= self.bytes(proj_view@, order));
        result
    }
}

} // verus!
