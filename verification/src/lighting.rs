//! The lights of a scene and the bytes of the buffer that the fragment
//! shader reads them from.

use vstd::prelude::*;
use crate::bytes::{
    extend_from_bytes, lemma_words_bytes_len, put_words, words_bytes, zero_bytes, ByteOrder,
};
use crate::types::{F32_SIZE, ONE, VEC3_SIZE, VEC3_UNIFORM_SIZE, ZERO};

verus! {

/// Size in bytes of what stands before the lights in the lighting buffer:
/// ambient colour, ambient intensity, number of lights, and padding to a
/// multiple of sixteen.
pub const LIGHTING_SIZE_FIXED: usize = VEC3_UNIFORM_SIZE + F32_SIZE + 4 + 8;

/// Size in bytes of one light in the lighting buffer, padded to a multiple
/// of sixteen.
pub const POINT_LIGHT_SIZE: usize = 3 * VEC3_UNIFORM_SIZE + 4 * F32_SIZE + VEC3_SIZE + 4;

/// Bit pattern of the single-precision number 0.5.
pub const HALF: u32 = 0x3F00_0000;

/// Bit pattern of the single-precision number 100.
pub const HUNDRED: u32 = 0x42C8_0000;

/// Bit pattern of the single-precision number nearest to 0.15.
pub const AMBIENT_INTENSITY: u32 = 0x3E19_999A;

/// The four numbers of `a`, four bytes each.
pub fn array4_to_bytes(a: [u32; 4], order: ByteOrder) -> (result: [u8; VEC3_UNIFORM_SIZE])
    ensures
        result@ == words_bytes(a@, order),
{
    let mut result = [0u8; VEC3_UNIFORM_SIZE];
    proof {
        lemma_words_bytes_len(a@, order);
    }
    put_words(&mut result, 0, a.as_slice(), order);
    assert(result@ =~= words_bytes(a@, order));
    result
}

/// How a light spreads.
#[derive(Clone, Copy, Debug, PartialEq, Eq)]
pub enum LightType {
    Omnidirectional,
    /// A cone around `direction`.
    Directional { direction: [u32; 3], fov: u32 },
    Diffuse,
}

/// A point light source.
#[derive(Clone, Copy, Debug, PartialEq, Eq)]
pub struct PointLight {
    pub type_: LightType,
    pub position: [u32; 3],
    pub diffuse_color: [u32; 4],
    pub specular_color: [u32; 4],
    pub diffuse_intensity: u32,
    pub specular_intensity: u32,
}

impl Default for PointLight {
    /// A white light at the origin that shines in every direction.
    fn default() -> (light: PointLight)
        ensures
            light.type_ is Omnidirectional,
            light.position@ == seq![ZERO, ZERO, ZERO],
            light.diffuse_color@ == seq![ONE, ONE, ONE, HALF],
            light.specular_color@ == seq![ONE, ONE, ONE, HALF],
            light.diffuse_intensity == HUNDRED,
            light.specular_intensity == HUNDRED,
    {
        PointLight {
            type_: LightType::Omnidirectional,
            position: [ZERO, ZERO, ZERO],
            diffuse_color: [ONE, ONE, ONE, HALF],
            specular_color: [ONE, ONE, ONE, HALF],
            diffuse_intensity: HUNDRED,
            specular_intensity: HUNDRED,
        }
    }
}

impl PointLight {
    /// What follows the intensities: for a directional light a flag byte 1
    /// with three zero bytes, the direction, the field of view and four zero
    /// bytes; for any other light zeros alone.
    pub open spec fn direction_bytes(self, order: ByteOrder) -> Seq<u8> {
        match self.type_ {
            LightType::Directional { direction, fov } => seq![1u8, 0u8, 0u8, 0u8] + words_bytes(
                direction@,
                order,
            ) + words_bytes(seq![fov], order) + zero_bytes(4),
            _ => zero_bytes(24),
        }
    }

    /// The light as the shader reads it: position padded to sixteen bytes,
    /// diffuse colour, specular colour, the two intensities, and what
    /// `direction_bytes` gives.
    pub open spec fn bytes(self, order: ByteOrder) -> Seq<u8> {
        words_bytes(self.position@, order) + zero_bytes(4) + words_bytes(
            self.diffuse_color@,
            order,
        ) + words_bytes(self.specular_color@, order) + words_bytes(
            seq![self.diffuse_intensity, self.specular_intensity],
            order,
        ) + self.direction_bytes(order)
    }

    pub fn to_bytes(&self, order: ByteOrder) -> (result: [u8; POINT_LIGHT_SIZE])
        ensures
            result@ == self.bytes(order),
    {
        let mut result = [0u8; POINT_LIGHT_SIZE];
        let intensities = [self.diffuse_intensity, self.specular_intensity];
        proof {
            lemma_words_bytes_len(self.position@, order);
            lemma_words_bytes_len(self.diffuse_color@, order);
            lemma_words_bytes_len(self.specular_color@, order);
            lemma_words_bytes_len(intensities@, order);
        }
        let mut i: usize = 0;
        put_words(&mut result, i, self.position.as_slice(), order);
        i += VEC3_UNIFORM_SIZE;
        put_words(&mut result, i, self.diffuse_color.as_slice(), order);
        i += VEC3_UNIFORM_SIZE;
        put_words(&mut result, i, self.specular_color.as_slice(), order);
        i += VEC3_UNIFORM_SIZE;
        put_words(&mut result, i, intensities.as_slice(), order);
        i += 2 * F32_SIZE;
        assert(intensities@ =~= seq![self.diffuse_intensity, self.specular_intensity]);

        // For any other light the flag, the direction and the field of view
        // stay zero.
        match self.type_ {
            LightType::Directional { direction, fov } => {
                let view = [fov];
                proof {
                    lemma_words_bytes_len(direction@, order);
                    lemma_words_bytes_len(view@, order);
                }
                result[i] = 1;
                i += F32_SIZE;
                put_words(&mut result, i, direction.as_slice(), order);
                i += VEC3_SIZE;
                put_words(&mut result, i, view.as_slice(), order);
                assert(view@ =~= seq![fov]);
                assert(result@ =~= self.bytes(order));
            },
            _ => {
                assert(result@ =~= self.bytes(order));
            },
        }
        result
    }
}

/// The light that falls on a scene.
#[derive(Clone, Debug)]
pub struct Lighting {
    pub ambient_color: [u32; 4],
    pub ambient_intensity: u32,
    pub point_lights: Vec<PointLight>,
}

/// The number of lights as the 32-bit number that the shader reads.
pub open spec fn count_word(count: nat) -> u32 {
    (count as int % 0x1_0000_0000) as u32
}

/// The records of the first `upto` lights, one behind the other.
pub open spec fn lights_bytes(lights: Seq<PointLight>, order: ByteOrder, upto: int) -> Seq<u8>
    decreases upto,
{
    if upto <= 0 {
        Seq::empty()
    } else {
        lights_bytes(lights, order, upto - 1) + lights[upto - 1].bytes(order)
    }
}

impl Default for Lighting {
    /// White ambient light, and one white light at the origin.
    fn default() -> (lighting: Lighting)
        ensures
            lighting.ambient_color@ == seq![ONE, ONE, ONE, HALF],
            lighting.ambient_intensity == AMBIENT_INTENSITY,
            lighting.point_lights@.len() == 1,
            lighting.point_lights@[0].type_ is Omnidirectional,
            lighting.point_lights@[0].position@ == seq![ZERO, ZERO, ZERO],
            lighting.point_lights@[0].diffuse_color@ == seq![ONE, ONE, ONE, HALF],
            lighting.point_lights@[0].specular_color@ == seq![ONE, ONE, ONE, HALF],
            lighting.point_lights@[0].diffuse_intensity == HUNDRED,
            lighting.point_lights@[0].specular_intensity == HUNDRED,
    {
        let mut point_lights: Vec<PointLight> = Vec::new();
        point_lights.push(
            PointLight {
                type_: LightType::Omnidirectional,
                position: [ZERO, ZERO, ZERO],
                diffuse_color: [ONE, ONE, ONE, HALF],
                specular_color: [ONE, ONE, ONE, HALF],
                diffuse_intensity: HUNDRED,
                specular_intensity: HUNDRED,
            },
        );
        Lighting {
            ambient_color: [ONE, ONE, ONE, HALF],
            ambient_intensity: AMBIENT_INTENSITY,
            point_lights,
        }
    }
}

impl Lighting {
    /// What stands before the lights: ambient colour, ambient intensity,
    /// the number of lights, eight zero bytes.
    pub open spec fn fixed_bytes(self, order: ByteOrder) -> Seq<u8> {
        words_bytes(self.ambient_color@, order) + words_bytes(
            seq![self.ambient_intensity, count_word(self.point_lights@.len())],
            order,
        ) + zero_bytes(8)
    }

    /// The contents of the lighting buffer.
    pub open spec fn bytes(self, order: ByteOrder) -> Seq<u8> {
        self.fixed_bytes(order) + lights_bytes(
            self.point_lights@,
            order,
            self.point_lights@.len() as int,
        )
    }

    /// The lighting buffer. Its size goes with the number of lights.
    pub fn to_bytes(&self, order: ByteOrder) -> (result: Vec<u8>)
        ensures
            result@ == self.bytes(order),
    {
        let mut result: Vec<u8> = Vec::new();

        let mut buf_fixed_size = [0u8; LIGHTING_SIZE_FIXED];
        let count = (self.point_lights.len() as u64 % 0x1_0000_0000) as u32;
        let head = [self.ambient_intensity, count];
        proof {
            lemma_words_bytes_len(self.ambient_color@, order);
            lemma_words_bytes_len(head@, order);
        }
        let color = array4_to_bytes(self.ambient_color, order);
        crate::bytes::put_bytes(&mut buf_fixed_size, 0, color.as_slice());
        put_words(&mut buf_fixed_size, VEC3_UNIFORM_SIZE, head.as_slice(), order);
        assert(head@ =~= seq![self.ambient_intensity, count_word(self.point_lights@.len())]);
        assert(buf_fixed_size@ =~= self.fixed_bytes(order));
        extend_from_bytes(&mut result, buf_fixed_size.as_slice());

        let mut i: usize = 0;
        while i < self.point_lights.len()
            invariant
                i <= self.point_lights@.len(),
                result@ == self.fixed_bytes(order) + lights_bytes(
                    self.point_lights@,
                    order,
                    i as int,
                ),
            decreases self.point_lights@.len() - i,
        {
            let record = self.point_lights[i].to_bytes(order);
            extend_from_bytes(&mut result, record.as_slice());
            i += 1;
            assert(result@ =~= self.fixed_bytes(order) + lights_bytes(
                self.point_lights@,
                order,
                i as int,
            ));
        }
        result
    }
}

} // verus!
