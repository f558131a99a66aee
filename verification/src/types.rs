//! The plain data of a scene and the records that go to the GPU.

use vstd::prelude::*;
use crate::bytes::{lemma_words_bytes_len, put_bytes, put_words, words_bytes, ByteOrder};

verus! {

/// Size in bytes of one single-precision number.
pub const F32_SIZE: usize = 4;

pub const VEC3_SIZE: usize = 3 * F32_SIZE;

pub const VEC4_SIZE: usize = 4 * F32_SIZE;

/// A three-vector in a uniform buffer is padded to sixteen bytes.
pub const VEC3_UNIFORM_SIZE: usize = 4 * F32_SIZE;

pub const MAT4_SIZE: usize = 16 * F32_SIZE;

pub const MAT3_SIZE: usize = 9 * F32_SIZE;

pub const VERTEX_SIZE: usize = 14 * F32_SIZE;

/// Model matrix, normal matrix, colour with opacity, shininess.
pub const INSTANCE_SIZE: usize = MAT4_SIZE + MAT3_SIZE + VEC4_SIZE + F32_SIZE;

/// Bit pattern of the single-precision number 0.
pub const ZERO: u32 = 0;

/// Bit pattern of the single-precision number 1.
pub const ONE: u32 = 0x3F80_0000;

/// One corner of a mesh.
#[derive(Clone, Copy, Debug, PartialEq, Eq)]
pub struct Vertex {
    /// Where the vertex is located in space.
    pub position: [u32; 3],
    /// Texture coordinates.
    pub tex_coords: [u32; 2],
    /// The direction the vertex normal is facing in.
    pub normal: [u32; 3],
    /// Orients normal maps: the +X texture direction.
    pub tangent: [u32; 3],
    /// Orients normal maps: the +Y texture direction.
    pub bitangent: [u32; 3],
}

impl Vertex {
    /// The vertex as the vertex shader reads it: position, texture
    /// coordinates, normal, tangent, bitangent, with no padding.
    pub open spec fn bytes(self, order: ByteOrder) -> Seq<u8> {
        words_bytes(self.position@, order) + words_bytes(self.tex_coords@, order) + words_bytes(
            self.normal@,
            order,
        ) + words_bytes(self.tangent@, order) + words_bytes(self.bitangent@, order)
    }

    /// A vertex at `position` with the given normal; texture coordinates,
    /// tangent and bitangent are zero.
    pub fn new(position: [u32; 3], normal: [u32; 3]) -> (vertex: Vertex)
        ensures
            vertex.position == position,
            vertex.normal == normal,
            vertex.tex_coords@ == seq![ZERO, ZERO],
            vertex.tangent@ == seq![ZERO, ZERO, ZERO],
            vertex.bitangent@ == seq![ZERO, ZERO, ZERO],
    {
        Vertex {
            position,
            tex_coords: [ZERO, ZERO],
            normal,
            tangent: [ZERO, ZERO, ZERO],
            bitangent: [ZERO, ZERO, ZERO],
        }
    }

    pub fn to_bytes(&self, order: ByteOrder) -> (result: [u8; VERTEX_SIZE])
        ensures
            result@ == self.bytes(order),
    {
        let mut result = [0u8; VERTEX_SIZE];
        proof {
            lemma_words_bytes_len(self.position@, order);
            lemma_words_bytes_len(self.tex_coords@, order);
            lemma_words_bytes_len(self.normal@, order);
            lemma_words_bytes_len(self.tangent@, order);
            lemma_words_bytes_len(self.bitangent@, order);
        }
        put_words(&mut result, 0, self.position.as_slice(), order);
        put_words(&mut result, 12, self.tex_coords.as_slice(), order);
        put_words(&mut result, 20, self.normal.as_slice(), order);
        put_words(&mut result, 32, self.tangent.as_slice(), order);
        put_words(&mut result, 44, self.bitangent.as_slice(), order);
        assert(result@ =~= self.bytes(order));
        result
    }
}

/// The model matrix and the normal matrix of one instance, each already
/// written out as the bytes of its sixteen or nine numbers.
#[derive(Clone, Copy, Debug, PartialEq, Eq)]
pub struct InstanceMatrices {
    /// Moving times turning times scaling.
    pub model: [u8; MAT4_SIZE],
    /// The rotation alone.
    pub normal: [u8; MAT3_SIZE],
}

/// What the GPU needs to draw one entity: where it stands, how it is turned
/// and scaled, and how it looks.
#[derive(Clone, Copy, Debug, PartialEq, Eq)]
pub struct Instance {
    pub position: [u32; 3],
    /// A quaternion, in the order w, x, y, z.
    pub orientation: [u32; 4],
    pub scale: [u32; 3],
    pub color: [u32; 3],
    pub opacity: u32,
    pub shinyness: u32,
}

impl Instance {
    /// The instance record: model matrix, normal matrix, colour, opacity,
    /// shininess.
    pub open spec fn bytes(self, matrices: InstanceMatrices, order: ByteOrder) -> Seq<u8> {
        matrices.model@ + matrices.normal@ + words_bytes(self.color@, order) + words_bytes(
            seq![self.opacity, self.shinyness],
            order,
        )
    }

    /// Lays out the record of this instance around its two matrices.
    pub fn to_bytes(&self, matrices: &InstanceMatrices, order: ByteOrder) -> (result: [
        u8;
        INSTANCE_SIZE
    ])
        ensures
            result@ == self.bytes(*matrices, order),
    {
        let mut result = [0u8; INSTANCE_SIZE];
        let tail = [self.opacity, self.shinyness];
        proof {
            lemma_words_bytes_len(self.color@, order);
            lemma_words_bytes_len(tail@, order);
        }
        put_bytes(&mut result, 0, matrices.model.as_slice());
        put_bytes(&mut result, MAT4_SIZE, matrices.normal.as_slice());
        put_words(&mut result, MAT4_SIZE + MAT3_SIZE, self.color.as_slice(), order);
        put_words(&mut result, INSTANCE_SIZE - 2 * F32_SIZE, tail.as_slice(), order);
        assert(tail@ =~= seq![self.opacity, self.shinyness]);
        assert(result@ =~= self.bytes(*matrices, order));
        result
    }
}

/// Geometry shared by every entity that refers to it.
#[derive(Clone, Debug, PartialEq, Eq)]
pub struct Mesh {
    pub vertices: Vec<Vertex>,
    /// Indices into `vertices`, three per triangle.
    pub indices: Vec<usize>,
    pub material: usize,
}

/// The instance array that an entity is drawn from.
#[derive(Clone, Copy, Debug, PartialEq, Eq, Structural)]
pub enum Bucket {
    /// Drawn without blending.
    Opaque,
    /// Drawn with alpha blending, back faces first.
    Transparent,
    /// Splats; no entity is ever placed here.
    Gaussian,
}

/// Bit pattern of 0.99, the least opacity that is drawn as opaque.
pub const OPACITY_THRESHOLD: u32 = 0x3F7D_70A4;

/// Bit pattern of positive infinity. Patterns above it with the sign bit
/// clear are not numbers; patterns with the sign bit set are negative.
pub const POSITIVE_INFINITY: u32 = 0x7F80_0000;

/// Whether the number with bit pattern `opacity` is at least 0.99. Among the
/// patterns with the sign bit clear, numbers are ordered as their patterns.
pub open spec fn is_opaque(opacity: u32) -> bool {
    OPACITY_THRESHOLD <= opacity <= POSITIVE_INFINITY
}

impl Bucket {
    /// The bucket of an entity with the given opacity.
    pub open spec fn of(opacity: u32) -> Bucket {
        if is_opaque(opacity) {
            Bucket::Opaque
        } else {
            Bucket::Transparent
        }
    }

    /// Opaque from 0.99 on, transparent below and for what is not a number.
    pub fn classify(opacity: u32) -> (bucket: Bucket)
        ensures
            bucket == Bucket::of(opacity),
            bucket == Bucket::Opaque <==> is_opaque(opacity),
            bucket != Bucket::Opaque ==> bucket == Bucket::Transparent,
    {
        if OPACITY_THRESHOLD <= opacity && opacity <= POSITIVE_INFINITY {
            Bucket::Opaque
        } else {
            Bucket::Transparent
        }
    }
}

/// One placed object.
#[derive(Clone, Copy, Debug, PartialEq, Eq)]
pub struct Entity {
    pub id: u32,
    /// Groups entities that are updated together.
    pub class: u32,
    /// Index of the mesh this entity is drawn with.
    pub mesh: usize,
    /// Position in the world, relative to world origin.
    pub position: [u32; 3],
    /// A quaternion, in the order w, x, y, z.
    pub orientation: [u32; 4],
    /// 1 is the size of the mesh.
    pub scale: u32,
    /// Scale by axis. If `Some`, overrides `scale`.
    pub scale_partial: Option<[u32; 3]>,
    pub color: (u32, u32, u32),
    /// From 0, invisible, to 1.
    pub opacity: u32,
    /// From 0 to 1.
    pub shinyness: u32,
    /// Where the last rebuild put this entity in its bucket's array.
    pub slot: Option<usize>,
    /// The bucket the last rebuild put this entity in.
    pub bucket: Bucket,
}

impl Entity {
    /// The instance that this entity is drawn as.
    pub open spec fn instance(self) -> Instance {
        Instance {
            position: self.position,
            orientation: self.orientation,
            scale: match self.scale_partial {
                Some(by_axis) => by_axis,
                None => [self.scale, self.scale, self.scale],
            },
            color: [self.color.0, self.color.1, self.color.2],
            opacity: self.opacity,
            shinyness: self.shinyness,
        }
    }

    /// An opaque entity of the given mesh that no rebuild has placed yet.
    pub fn new(
        mesh: usize,
        position: [u32; 3],
        orientation: [u32; 4],
        scale: u32,
        color: (u32, u32, u32),
        shinyness: u32,
    ) -> (entity: Entity)
        ensures
            entity == (Entity {
                id: 0,
                class: 0,
                mesh,
                position,
                orientation,
                scale,
                scale_partial: None,
                color,
                opacity: ONE,
                shinyness,
                slot: None,
                bucket: Bucket::Opaque,
            }),
    {
        Entity {
            id: 0,
            class: 0,
            mesh,
            position,
            orientation,
            scale,
            scale_partial: None,
            color,
            opacity: ONE,
            shinyness,
            slot: None,
            bucket: Bucket::Opaque,
        }
    }

    pub fn to_instance(&self) -> (instance: Instance)
        ensures
            instance == self.instance(),
    {
        let scale = match self.scale_partial {
            Some(by_axis) => by_axis,
            None => [self.scale, self.scale, self.scale],
        };
        Instance {
            position: self.position,
            orientation: self.orientation,
            scale,
            color: [self.color.0, self.color.1, self.color.2],
            opacity: self.opacity,
            shinyness: self.shinyness,
        }
    }
}

impl Default for Entity {
    /// A white, opaque, unturned entity of the first mesh at the origin.
    fn default() -> (entity: Entity)
        ensures
            entity.id == 0,
            entity.class == 0,
            entity.mesh == 0,
            entity.position@ == seq![ZERO, ZERO, ZERO],
            entity.orientation@ == seq![ONE, ZERO, ZERO, ZERO],
            entity.scale == ONE,
            entity.scale_partial is None,
            entity.color == (ONE, ONE, ONE),
            entity.opacity == ONE,
            entity.shinyness == ZERO,
            entity.slot is None,
            entity.bucket == Bucket::Opaque,
    {
        Entity {
            id: 0,
            class: 0,
            mesh: 0,
            position: [ZERO, ZERO, ZERO],
            orientation: [ONE, ZERO, ZERO, ZERO],
            scale: ONE,
            scale_partial: None,
            color: (ONE, ONE, ONE),
            opacity: ONE,
            shinyness: ZERO,
            slot: None,
            bucket: Bucket::Opaque,
        }
    }
}

#[derive(Clone, Debug)]
pub struct GraphicsSettings {
    pub msaa_samples: u32,
}

impl Default for GraphicsSettings {
    fn default() -> (settings: GraphicsSettings)
        ensures
            settings.msaa_samples == 4,
    {
        GraphicsSettings { msaa_samples: 4 }
    }
}

/// The side of the window that the GUI takes.
#[derive(Clone, Copy, Debug, PartialEq, Eq)]
pub enum UiLayout {
    Left,
    Right,
    Top,
    Bottom,
}

/// GUI settings.
#[derive(Clone, Debug)]
pub struct UiSettings {
    pub layout: UiLayout,
    pub icon_path: Option<String>,
}

impl Default for UiSettings {
    fn default() -> (settings: UiSettings)
        ensures
            settings.layout is Left,
            settings.icon_path is None,
    {
        UiSettings { layout: UiLayout::Left, icon_path: None }
    }
}

/// What a callback changed in the scene, so that the engine redoes only the
/// buffers that depend on it.
pub struct EngineUpdates {
    pub meshes: bool,
    pub entities: bool,
    pub camera: bool,
    pub lighting: bool,
}

impl Default for EngineUpdates {
    fn default() -> (updates: EngineUpdates)
        ensures
            !updates.meshes,
            !updates.entities,
            !updates.camera,
            !updates.lighting,
    {
        EngineUpdates { meshes: false, entities: false, camera: false, lighting: false }
    }
}

} // verus!
