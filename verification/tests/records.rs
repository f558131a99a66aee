use graphics::bytes::{put_bytes, put_words, word_to_bytes, ByteOrder};
use graphics::camera::{Camera, CAMERA_SIZE};
use graphics::gauss::{
    quad_vertex_data, quad_vertices, CameraBasis, Gaussian, GaussianInstance, QuadVertex,
    CAM_BASIS_SIZE, GAUSS_INSTANCE_SIZE, MINUS_ONE, QUAD_VERTEX_COUNT, QUAD_VERTEX_SIZE,
};
use graphics::graphics::{setup_instance_buf, setup_instance_buf_gauss, setup_vertices_indices};
use graphics::lighting::{
    array4_to_bytes, LightType, Lighting, PointLight, AMBIENT_INTENSITY, HALF, HUNDRED,
    LIGHTING_SIZE_FIXED, POINT_LIGHT_SIZE,
};
use graphics::types::{
    Instance, InstanceMatrices, Mesh, Vertex, F32_SIZE, INSTANCE_SIZE, MAT3_SIZE, MAT4_SIZE, ONE,
    VEC3_SIZE, VEC3_UNIFORM_SIZE, VEC4_SIZE, VERTEX_SIZE, ZERO,
};

fn w(x: f32) -> u32 {
    x.to_bits()
}

/// The bytes of the numbers, least significant byte first.
fn le(numbers: &[f32]) -> Vec<u8> {
    numbers.iter().flat_map(|x| x.to_le_bytes()).collect()
}

/// The bytes of the numbers, most significant byte first.
fn be(numbers: &[f32]) -> Vec<u8> {
    numbers.iter().flat_map(|x| x.to_be_bytes()).collect()
}

#[test]
fn sizes_are_counted_in_bytes() {
    assert_eq!(F32_SIZE, 4);
    assert_eq!(VEC3_SIZE, 12);
    assert_eq!(VEC4_SIZE, 16);
    assert_eq!(VEC3_UNIFORM_SIZE, 16);
    assert_eq!(MAT4_SIZE, 64);
    assert_eq!(MAT3_SIZE, 36);
    assert_eq!(VERTEX_SIZE, 56);
    assert_eq!(INSTANCE_SIZE, 120);
    assert_eq!(CAMERA_SIZE, 128);
    assert_eq!(CAM_BASIS_SIZE, 32);
    assert_eq!(QUAD_VERTEX_SIZE, 8);
    assert_eq!(GAUSS_INSTANCE_SIZE, 48);
    assert_eq!(LIGHTING_SIZE_FIXED, 32);
    assert_eq!(POINT_LIGHT_SIZE, 80);
    assert_eq!(QUAD_VERTEX_COUNT, 6);
}

#[test]
fn number_constants_are_bit_patterns() {
    assert_eq!(MINUS_ONE, w(-1.0));
    assert_eq!(HALF, w(0.5));
    assert_eq!(HUNDRED, w(100.0));
    assert_eq!(AMBIENT_INTENSITY, w(0.15));
}

#[test]
fn a_word_is_written_in_either_byte_order() {
    assert_eq!(word_to_bytes(0x1234_5678, ByteOrder::Little), [0x78, 0x56, 0x34, 0x12]);
    assert_eq!(word_to_bytes(0x1234_5678, ByteOrder::Big), [0x12, 0x34, 0x56, 0x78]);
    for word in [0u32, 1, 0xFF, 0x100, 0xFFFF_FFFF, 0x8000_0000, 0x3F7D_70A4, 0xDEAD_BEEF] {
        assert_eq!(word_to_bytes(word, ByteOrder::Little), word.to_le_bytes());
        assert_eq!(word_to_bytes(word, ByteOrder::Big), word.to_be_bytes());
    }
    for x in [0.99f32, -2.5, 1e-20, f32::MAX] {
        assert_eq!(word_to_bytes(w(x), ByteOrder::Little), x.to_le_bytes());
        assert_eq!(word_to_bytes(w(x), ByteOrder::Big), x.to_be_bytes());
    }
}

#[test]
fn bytes_and_words_overwrite_a_part_of_a_record() {
    let mut record = [0xAAu8; 12];
    put_bytes(&mut record, 3, &[1, 2, 3]);
    assert_eq!(record, [0xAA, 0xAA, 0xAA, 1, 2, 3, 0xAA, 0xAA, 0xAA, 0xAA, 0xAA, 0xAA]);
    put_words(&mut record, 4, &[0x0102_0304, 0x0506_0708], ByteOrder::Big);
    assert_eq!(record, [0xAA, 0xAA, 0xAA, 1, 1, 2, 3, 4, 5, 6, 7, 8]);
    put_words(&mut record, 0, &[0x0102_0304], ByteOrder::Little);
    assert_eq!(record, [4, 3, 2, 1, 1, 2, 3, 4, 5, 6, 7, 8]);
    put_bytes(&mut record, 12, &[]);
    put_words(&mut record, 12, &[], ByteOrder::Little);
    assert_eq!(record, [4, 3, 2, 1, 1, 2, 3, 4, 5, 6, 7, 8]);
}

#[test]
fn a_new_vertex_has_position_and_normal_and_zeros() {
    let vertex = Vertex::new([w(1.0), w(2.0), w(3.0)], [w(0.0), w(1.0), w(0.0)]);
    assert_eq!(vertex.position, [w(1.0), w(2.0), w(3.0)]);
    assert_eq!(vertex.normal, [w(0.0), w(1.0), w(0.0)]);
    assert_eq!(vertex.tex_coords, [w(0.0); 2]);
    assert_eq!(vertex.tangent, [w(0.0); 3]);
    assert_eq!(vertex.bitangent, [w(0.0); 3]);
}

#[test]
fn a_vertex_is_fourteen_numbers_in_field_order() {
    let vertex = Vertex {
        position: [w(1.0), w(2.0), w(3.0)],
        tex_coords: [w(0.25), w(0.75)],
        normal: [w(4.0), w(5.0), w(6.0)],
        tangent: [w(7.0), w(8.0), w(9.0)],
        bitangent: [w(10.0), w(11.0), w(12.0)],
    };
    let numbers =
        [1.0, 2.0, 3.0, 0.25, 0.75, 4.0, 5.0, 6.0, 7.0, 8.0, 9.0, 10.0, 11.0, 12.0];
    assert_eq!(vertex.to_bytes(ByteOrder::Little).to_vec(), le(&numbers));
    assert_eq!(vertex.to_bytes(ByteOrder::Big).to_vec(), be(&numbers));
}

#[test]
fn an_instance_record_is_matrices_colour_opacity_shininess() {
    let instance = Instance {
        position: [w(1.0), w(2.0), w(3.0)],
        orientation: [w(1.0), w(0.0), w(0.0), w(0.0)],
        scale: [w(2.0); 3],
        color: [w(0.1), w(0.2), w(0.3)],
        opacity: w(0.4),
        shinyness: w(0.5),
    };
    let mut model = [0u8; MAT4_SIZE];
    let mut normal = [0u8; MAT3_SIZE];
    for i in 0..MAT4_SIZE {
        model[i] = i as u8 + 1;
    }
    for i in 0..MAT3_SIZE {
        normal[i] = 200 - i as u8;
    }
    let matrices = InstanceMatrices { model, normal };
    let record = instance.to_bytes(&matrices, ByteOrder::Little);
    assert_eq!(&record[0..64], &model[..]);
    assert_eq!(&record[64..100], &normal[..]);
    assert_eq!(&record[100..116], &le(&[0.1, 0.2, 0.3, 0.4])[..]);
    assert_eq!(&record[116..120], &le(&[0.5])[..]);
    let swapped = instance.to_bytes(&matrices, ByteOrder::Big);
    assert_eq!(&swapped[0..100], &record[0..100]);
    assert_eq!(&swapped[100..120], &be(&[0.1, 0.2, 0.3, 0.4, 0.5])[..]);
}

#[test]
fn an_instance_buffer_holds_one_record_behind_the_other() {
    let instances: Vec<Instance> = (0..4)
        .map(|i| Instance {
            position: [w(i as f32); 3],
            orientation: [ONE, ZERO, ZERO, ZERO],
            scale: [ONE; 3],
            color: [w(0.5 * i as f32); 3],
            opacity: ONE,
            shinyness: w(i as f32),
        })
        .collect();
    let matrices: Vec<InstanceMatrices> = (0..4u8)
        .map(|i| InstanceMatrices { model: [i; MAT4_SIZE], normal: [i + 10; MAT3_SIZE] })
        .collect();
    let contents = setup_instance_buf(&instances, &matrices, ByteOrder::Little);
    assert_eq!(contents.len(), 4 * INSTANCE_SIZE);
    for slot in 0..4 {
        let record = instances[slot].to_bytes(&matrices[slot], ByteOrder::Little);
        assert_eq!(&contents[slot * INSTANCE_SIZE..(slot + 1) * INSTANCE_SIZE], &record[..]);
    }
    assert!(setup_instance_buf(&[], &[], ByteOrder::Little).is_empty());
}

#[test]
fn vertices_and_indices_are_flattened_in_table_order() {
    let corner = |x: f32| Vertex::new([w(x), w(x + 0.5), w(-x)], [ZERO, ONE, ZERO]);
    let meshes = vec![
        Mesh { vertices: vec![corner(1.0), corner(2.0), corner(3.0)], indices: vec![0, 1, 2], material: 0 },
        Mesh { vertices: Vec::new(), indices: Vec::new(), material: 0 },
        Mesh {
            vertices: vec![corner(4.0), corner(5.0), corner(6.0), corner(7.0)],
            indices: vec![0, 1, 2, 2, 3, 0],
            material: 1,
        },
    ];
    let geometry = setup_vertices_indices(&meshes, ByteOrder::Little);
    assert_eq!(geometry.vertex_data.len(), 7 * VERTEX_SIZE);
    let all: Vec<Vertex> = meshes.iter().flat_map(|m| m.vertices.clone()).collect();
    for (i, vertex) in all.iter().enumerate() {
        assert_eq!(
            &geometry.vertex_data[i * VERTEX_SIZE..(i + 1) * VERTEX_SIZE],
            &vertex.to_bytes(ByteOrder::Little)[..]
        );
    }
    let indices: Vec<u8> =
        [0u32, 1, 2, 0, 1, 2, 2, 3, 0].iter().flat_map(|i| i.to_le_bytes()).collect();
    assert_eq!(geometry.index_data, indices);
    let swapped = setup_vertices_indices(&meshes, ByteOrder::Big);
    let indices: Vec<u8> =
        [0u32, 1, 2, 0, 1, 2, 2, 3, 0].iter().flat_map(|i| i.to_be_bytes()).collect();
    assert_eq!(swapped.index_data, indices);
    assert_eq!(&swapped.vertex_data[0..4], &1.0f32.to_be_bytes()[..]);
}

#[test]
fn an_index_is_written_as_its_low_thirty_two_bits() {
    let meshes = vec![Mesh { vertices: Vec::new(), indices: vec![0x0102_0304, 70_000], material: 0 }];
    let geometry = setup_vertices_indices(&meshes, ByteOrder::Little);
    assert_eq!(geometry.index_data, vec![4, 3, 2, 1, 0x70, 0x11, 0x01, 0x00]);
    assert!(geometry.vertex_data.is_empty());
    if usize::BITS == 64 {
        let wide = vec![Mesh { vertices: Vec::new(), indices: vec![(1usize << 40) + 5], material: 0 }];
        assert_eq!(setup_vertices_indices(&wide, ByteOrder::Little).index_data, vec![5, 0, 0, 0]);
    }
}

#[test]
fn no_mesh_gives_empty_buffers() {
    let geometry = setup_vertices_indices(&Vec::new(), ByteOrder::Little);
    assert!(geometry.vertex_data.is_empty());
    assert!(geometry.index_data.is_empty());
}

#[test]
fn a_splat_instance_is_nine_numbers_and_padding() {
    let gauss = Gaussian {
        center: [w(1.0), w(-2.0), w(3.5)],
        amplitude: w(0.8),
        width: w(1.25),
        color: [w(0.1), w(0.2), w(0.3), w(0.9)],
    };
    let mut instance: GaussianInstance = gauss.to_instance();
    let numbers = [1.0, -2.0, 3.5, 0.8, 1.25, 0.1, 0.2, 0.3, 0.9, 0.0, 0.0, 0.0];
    assert_eq!(instance.to_bytes(ByteOrder::Little).to_vec(), le(&numbers));
    assert_eq!(instance.to_bytes(ByteOrder::Big).to_vec(), be(&numbers));
    instance._pad = [w(7.0); 3];
    assert_eq!(instance.to_bytes(ByteOrder::Little).to_vec(), le(&numbers));
    let contents = setup_instance_buf_gauss(&[instance, gauss.to_instance()], ByteOrder::Little);
    assert_eq!(contents, [le(&numbers), le(&numbers)].concat());
    assert!(setup_instance_buf_gauss(&[], ByteOrder::Big).is_empty());
}

#[test]
fn the_quad_is_two_triangles_over_the_unit_square() {
    let corners = quad_vertices();
    let expected = [[-1.0f32, -1.0], [1.0, -1.0], [1.0, 1.0], [-1.0, -1.0], [1.0, 1.0], [-1.0, 1.0]];
    assert_eq!(corners.len(), QUAD_VERTEX_COUNT as usize);
    for (corner, pos) in corners.iter().zip(expected) {
        assert_eq!(corner.pos, [w(pos[0]), w(pos[1])]);
    }
    let flat: Vec<f32> = expected.iter().flatten().copied().collect();
    assert_eq!(quad_vertex_data(ByteOrder::Little), le(&flat));
    assert_eq!(quad_vertex_data(ByteOrder::Big), be(&flat));
    let corner = QuadVertex { pos: [w(0.5), w(-0.25)] };
    assert_eq!(corner.to_bytes(ByteOrder::Little).to_vec(), le(&[0.5, -0.25]));
}

#[test]
fn a_camera_basis_is_two_padded_vectors() {
    let basis = CameraBasis {
        right: [w(1.0), w(2.0), w(3.0)],
        _pad0: w(9.0),
        up: [w(4.0), w(5.0), w(6.0)],
        _pad1: w(9.0),
    };
    assert_eq!(
        basis.to_bytes(ByteOrder::Little).to_vec(),
        le(&[1.0, 2.0, 3.0, 0.0, 4.0, 5.0, 6.0, 0.0])
    );
    assert_eq!(
        basis.to_bytes(ByteOrder::Big).to_vec(),
        be(&[1.0, 2.0, 3.0, 0.0, 4.0, 5.0, 6.0, 0.0])
    );
}

#[test]
fn four_numbers_are_sixteen_bytes() {
    let a = [w(1.0), w(0.5), w(-3.0), w(8.0)];
    assert_eq!(array4_to_bytes(a, ByteOrder::Little).to_vec(), le(&[1.0, 0.5, -3.0, 8.0]));
    assert_eq!(array4_to_bytes(a, ByteOrder::Big).to_vec(), be(&[1.0, 0.5, -3.0, 8.0]));
}

fn light(type_: LightType) -> PointLight {
    PointLight {
        type_,
        position: [w(1.0), w(2.0), w(3.0)],
        diffuse_color: [w(0.1), w(0.2), w(0.3), w(0.4)],
        specular_color: [w(0.5), w(0.6), w(0.7), w(0.8)],
        diffuse_intensity: w(50.0),
        specular_intensity: w(75.0),
    }
}

#[test]
fn a_light_that_shines_everywhere_ends_in_zeros() {
    let mut numbers =
        vec![1.0, 2.0, 3.0, 0.0, 0.1, 0.2, 0.3, 0.4, 0.5, 0.6, 0.7, 0.8, 50.0, 75.0];
    numbers.extend([0.0; 6]);
    for type_ in [LightType::Omnidirectional, LightType::Diffuse] {
        assert_eq!(light(type_).to_bytes(ByteOrder::Little).to_vec(), le(&numbers));
        assert_eq!(light(type_).to_bytes(ByteOrder::Big).to_vec(), be(&numbers));
    }
}

#[test]
fn a_directional_light_carries_a_flag_its_direction_and_field_of_view() {
    let directional =
        light(LightType::Directional { direction: [w(0.0), w(-1.0), w(0.5)], fov: w(1.5) });
    for (order, bytes_of) in
        [(ByteOrder::Little, le as fn(&[f32]) -> Vec<u8>), (ByteOrder::Big, be)]
    {
        let record = directional.to_bytes(order);
        let head =
            [1.0, 2.0, 3.0, 0.0, 0.1, 0.2, 0.3, 0.4, 0.5, 0.6, 0.7, 0.8, 50.0, 75.0];
        assert_eq!(&record[0..56], &bytes_of(&head)[..]);
        assert_eq!(&record[56..60], &[1, 0, 0, 0]);
        assert_eq!(&record[60..72], &bytes_of(&[0.0, -1.0, 0.5])[..]);
        assert_eq!(&record[72..76], &bytes_of(&[1.5])[..]);
        assert_eq!(&record[76..80], &[0, 0, 0, 0]);
    }
}

#[test]
fn the_lighting_buffer_is_a_fixed_part_and_the_lights() {
    let lighting = Lighting {
        ambient_color: [w(0.9), w(0.8), w(0.7), w(0.6)],
        ambient_intensity: w(0.25),
        point_lights: vec![
            light(LightType::Omnidirectional),
            light(LightType::Directional { direction: [w(1.0), w(0.0), w(0.0)], fov: w(0.5) }),
            light(LightType::Diffuse),
        ],
    };
    let contents = lighting.to_bytes(ByteOrder::Little);
    assert_eq!(contents.len(), LIGHTING_SIZE_FIXED + 3 * POINT_LIGHT_SIZE);
    assert_eq!(&contents[0..20], &le(&[0.9, 0.8, 0.7, 0.6, 0.25])[..]);
    assert_eq!(&contents[20..24], &3i32.to_le_bytes());
    assert_eq!(&contents[24..32], &[0u8; 8]);
    for (i, l) in lighting.point_lights.iter().enumerate() {
        let start = LIGHTING_SIZE_FIXED + i * POINT_LIGHT_SIZE;
        assert_eq!(&contents[start..start + POINT_LIGHT_SIZE], &l.to_bytes(ByteOrder::Little)[..]);
    }
    let swapped = lighting.to_bytes(ByteOrder::Big);
    assert_eq!(&swapped[20..24], &3i32.to_be_bytes());
    let dark = Lighting { ambient_color: [ZERO; 4], ambient_intensity: ZERO, point_lights: Vec::new() };
    assert_eq!(dark.to_bytes(ByteOrder::Little), vec![0u8; LIGHTING_SIZE_FIXED]);
}

#[test]
fn default_lighting_is_white_with_one_light_at_the_origin() {
    let lighting = Lighting::default();
    assert_eq!(lighting.ambient_color, [w(1.0), w(1.0), w(1.0), w(0.5)]);
    assert_eq!(lighting.ambient_intensity, w(0.15));
    assert_eq!(lighting.point_lights, vec![PointLight::default()]);
    let light = PointLight::default();
    assert_eq!(light.type_, LightType::Omnidirectional);
    assert_eq!(light.position, [w(0.0); 3]);
    assert_eq!(light.diffuse_color, [w(1.0), w(1.0), w(1.0), w(0.5)]);
    assert_eq!(light.specular_color, [w(1.0), w(1.0), w(1.0), w(0.5)]);
    assert_eq!(light.diffuse_intensity, w(100.0));
    assert_eq!(light.specular_intensity, w(100.0));
}

#[test]
fn the_camera_buffer_is_matrix_position_and_fog() {
    let camera = Camera {
        fov_y: w(1.0),
        aspect: w(1.5),
        near: w(0.5),
        far: w(60.0),
        position: [w(1.0), w(2.0), w(3.0)],
        orientation: [ONE, ZERO, ZERO, ZERO],
        proj_mat: [w(7.0); 16],
        fog_density: w(0.1),
        fog_power: w(6.0),
        fog_start: w(10.0),
        fog_end: w(50.0),
        fog_color: [w(0.2), w(0.3), w(0.4)],
    };
    let mut proj_view = [0u8; MAT4_SIZE];
    for i in 0..MAT4_SIZE {
        proj_view[i] = 255 - i as u8;
    }
    for (order, bytes_of) in
        [(ByteOrder::Little, le as fn(&[f32]) -> Vec<u8>), (ByteOrder::Big, be)]
    {
        let contents = camera.to_bytes(&proj_view, order);
        assert_eq!(&contents[0..64], &proj_view[..]);
        assert_eq!(&contents[64..80], &bytes_of(&[1.0, 2.0, 3.0, 0.0])[..]);
        assert_eq!(&contents[80..96], &bytes_of(&[0.1, 6.0, 10.0, 50.0])[..]);
        assert_eq!(&contents[96..108], &bytes_of(&[0.2, 0.3, 0.3])[..]);
        assert_eq!(&contents[108..128], &[0u8; 20]);
    }
}
