use azalea::encoder::{encode_dom_into_writer, encode_instance, write_variant, EncodeError, ReferentTable};
use azalea::model::{narrow_int64, Frame, Node, Value};

fn written(value: &Value) -> Vec<u8> {
    let mut out = Vec::new();
    let mut table = ReferentTable::new();
    write_variant(&mut out, value, &mut table);
    out
}

fn frame(rotation_id: u8) -> Frame {
    Frame {
        rotation_id,
        rotation: [
            1.0f32.to_bits(), 0, 0,
            0, 1.0f32.to_bits(), 0,
            0, 0, 1.0f32.to_bits(),
        ],
        position: [1.0f32.to_bits(), 2.0f32.to_bits(), 3.0f32.to_bits()],
    }
}

fn leaf(referent: u128, class: &str, name: &str, parent: Option<u128>) -> Node {
    Node {
        referent,
        class: class.to_string(),
        name: name.to_string(),
        parent,
        properties: vec![],
        children: vec![],
    }
}

#[test]
fn bool_is_tag_then_byte() {
    assert_eq!(written(&Value::Bool(true)), vec![3, 1]);
    assert_eq!(written(&Value::Bool(false)), vec![3, 0]);
}

#[test]
fn string_is_length_prefixed() {
    assert_eq!(written(&Value::String("hi".to_string())), vec![0, 2, b'h', b'i']);
}

#[test]
fn long_string_uses_multi_byte_length() {
    let text = "a".repeat(200);
    let out = written(&Value::String(text));
    assert_eq!(&out[..3], &[0, 200, 1]);
    assert_eq!(out.len(), 3 + 200);
}

#[test]
fn binary_string_shares_the_varstring_form() {
    assert_eq!(written(&Value::BinaryString(vec![9, 8])), vec![26, 2, 9, 8]);
}

#[test]
fn int32_is_little_endian() {
    assert_eq!(written(&Value::Int32(-1)), vec![13, 255, 255, 255, 255]);
    assert_eq!(written(&Value::Int32(0x01020304)), vec![13, 4, 3, 2, 1]);
}

#[test]
fn float_bits_are_written_little_endian() {
    assert_eq!(written(&Value::Float32(1.5f32.to_bits())), vec![11, 0, 0, 0xc0, 0x3f]);
    assert_eq!(
        written(&Value::Float64(1.0f64.to_bits())),
        vec![12, 0, 0, 0, 0, 0, 0, 0xf0, 0x3f]
    );
}

#[test]
fn enum_is_leb128() {
    assert_eq!(written(&Value::Enum(300)), vec![9, 0xac, 0x02]);
    assert_eq!(written(&Value::Enum(5)), vec![9, 5]);
}

#[test]
fn udim_writes_offset_then_scale() {
    assert_eq!(
        written(&Value::UDim(-2, 1.0f32.to_bits())),
        vec![28, 0xfe, 0xff, 0xff, 0xff, 0, 0, 0x80, 0x3f]
    );
}

#[test]
fn udim2_writes_offsets_then_scales() {
    assert_eq!(
        written(&Value::UDim2(1, 2, 0, 0)),
        vec![29, 1, 0, 0, 0, 2, 0, 0, 0, 0, 0, 0, 0, 0, 0, 0, 0]
    );
}

#[test]
fn attributes_nest_named_values() {
    let v = Value::Attributes(vec![("a".to_string(), Value::Bool(false))]);
    assert_eq!(written(&v), vec![1, 1, b'a', 0, 3, 0]);
}

#[test]
fn tags_are_counted_null_strings() {
    let v = Value::Tags(vec!["x".to_string(), "yz".to_string()]);
    assert_eq!(written(&v), vec![27, 2, b'x', 0, b'y', b'z', 0]);
}

#[test]
fn font_is_family_weight_style() {
    let v = Value::Font("F".to_string(), 400, 1);
    assert_eq!(written(&v), vec![34, b'F', 0, 0x90, 0x01, 1]);
}

#[test]
fn brick_color_is_its_name() {
    assert_eq!(
        written(&Value::BrickColor("Red".to_string())),
        vec![4, b'R', b'e', b'd', 0]
    );
}

#[test]
fn vector3int16_is_three_halves() {
    assert_eq!(written(&Value::Vector3int16([1, -1, 2])), vec![33, 1, 0, 0xff, 0xff, 2, 0]);
}

#[test]
fn material_colors_are_copied() {
    let out = written(&Value::MaterialColors([7; 69]));
    assert_eq!(out.len(), 70);
    assert_eq!(out[0], 14);
    assert!(out[1..].iter().all(|b| *b == 7));
}

#[test]
fn color_sequence_is_counted_records() {
    let out = written(&Value::ColorSequence(vec![[0, 0, 0, 0], [1, 2, 3, 4]]));
    assert_eq!(out.len(), 1 + 1 + 32);
    assert_eq!(&out[..2], &[8, 2]);
    assert_eq!(&out[18..22], &[1, 0, 0, 0]);
}

#[test]
fn physical_properties_variants() {
    assert_eq!(written(&Value::DefaultPhysicalProperties), vec![18]);
    assert_eq!(written(&Value::CustomPhysicalProperties([0; 5])).len(), 21);
}

#[test]
fn canonical_rotation_frame_takes_fourteen_bytes() {
    let out = written(&Value::CFrame(frame(2)));
    assert_eq!(out.len(), 14);
    assert_eq!(&out[..2], &[5, 2]);
    assert_eq!(&out[2..6], &1.0f32.to_le_bytes());
}

#[test]
fn arbitrary_rotation_frame_takes_fifty_bytes() {
    let out = written(&Value::CFrame(frame(0)));
    assert_eq!(out.len(), 50);
    assert_eq!(&out[..2], &[5, 0]);
    assert_eq!(&out[2..6], &1.0f32.to_le_bytes());
    assert_eq!(&out[38..42], &1.0f32.to_le_bytes());
}

#[test]
fn optional_frame_absent_is_the_none_tag() {
    assert_eq!(written(&Value::OptionalCFrame(None)), vec![17]);
    assert_eq!(written(&Value::OptionalCFrame(Some(frame(2)))).len(), 14);
}

#[test]
fn references_get_dense_indices_in_first_use_order() {
    let mut out = Vec::new();
    let mut table = ReferentTable::new();
    write_variant(&mut out, &Value::Ref(Some(42)), &mut table);
    write_variant(&mut out, &Value::Ref(Some(7)), &mut table);
    write_variant(&mut out, &Value::Ref(Some(42)), &mut table);
    write_variant(&mut out, &Value::Ref(None), &mut table);
    write_variant(&mut out, &Value::ContentObject(99), &mut table);
    assert_eq!(out, vec![22, 0, 22, 1, 22, 0, 17, 36, 2]);
    assert_eq!(table.len(), 3);
}

#[test]
fn referent_table_is_injective_and_dense() {
    let mut table = ReferentTable::new();
    let ids: Vec<u128> = vec![500, 3, 500, u128::MAX, 3, 0, 77];
    let got: Vec<usize> = ids.iter().map(|id| table.resolve(*id)).collect();
    assert_eq!(got, vec![0, 1, 0, 2, 1, 3, 4]);
    assert_eq!(table.len(), 5);
    assert_eq!(table.get(u128::MAX), Some(2));
    assert_eq!(table.get(12345), None);
}

#[test]
fn node_tree_is_written_depth_first() {
    let mut root = leaf(1, "Folder", "A", None);
    root.properties.push(("Archivable".to_string(), Value::Bool(true)));
    root.children.push(leaf(2, "Part", "B", Some(1)));
    let mut out = Vec::new();
    let table = encode_dom_into_writer(&root, &mut out).unwrap();
    let mut expected = vec![0, 1, b'A'];
    expected.extend_from_slice(b"Folder\0");
    expected.extend_from_slice(&[22, 0, 17, 1, 0]);
    expected.extend_from_slice(b"Archivable\0");
    expected.extend_from_slice(&[3, 1, 0, 1, b'B']);
    expected.extend_from_slice(b"Part\0");
    expected.extend_from_slice(&[22, 1, 22, 0, 0, 0]);
    assert_eq!(out, expected);
    assert_eq!(table.len(), 2);
}

#[test]
fn encode_instance_continues_a_shared_table() {
    let mut table = ReferentTable::new();
    table.resolve(9);
    let node = leaf(4, "Model", "", Some(9));
    let mut out = Vec::new();
    assert_eq!(encode_instance(&node, &mut table, &mut out), Ok(()));
    let mut expected = vec![0, 0];
    expected.extend_from_slice(b"Model\0");
    expected.extend_from_slice(&[22, 1, 22, 0, 0, 0]);
    assert_eq!(out, expected);
}

#[test]
fn too_many_properties_is_a_capacity_error() {
    let mut node = leaf(1, "Folder", "x", None);
    for i in 0..65536u32 {
        node.properties.push((format!("p{i}"), Value::Bool(true)));
    }
    let mut out = Vec::new();
    assert_eq!(encode_dom_into_writer(&node, &mut out).err(), Some(EncodeError::TooManyProperties));
    assert!(out.is_empty());
}

#[test]
fn deep_child_with_too_many_properties_fails_the_whole_encode() {
    let mut child = leaf(2, "Folder", "x", Some(1));
    for i in 0..65536u32 {
        child.properties.push((format!("p{i}"), Value::Bool(true)));
    }
    let mut root = leaf(1, "Folder", "r", None);
    root.children.push(child);
    let mut table = ReferentTable::new();
    table.resolve(77);
    let mut out = vec![9, 9];
    assert_eq!(encode_instance(&root, &mut table, &mut out), Err(EncodeError::TooManyProperties));
    assert_eq!(out, vec![9, 9]);
    assert_eq!(table.len(), 1);
}

#[test]
fn int64_narrows_only_when_it_fits() {
    assert_eq!(narrow_int64(5), Some(5));
    assert_eq!(narrow_int64(-2147483648), Some(i32::MIN));
    assert_eq!(narrow_int64(2147483647), Some(i32::MAX));
    assert_eq!(narrow_int64(2147483648), None);
    assert_eq!(narrow_int64(i64::MIN), None);
}

#[test]
fn fixed_kinds_write_the_sizes_their_fragments_read() {
    let cases: Vec<(Value, usize)> = vec![
        (Value::Axes(5), 1),
        (Value::Faces(63), 1),
        (Value::Bool(true), 1),
        (Value::Color3([0; 3]), 12),
        (Value::Color3uint8([1, 2, 3]), 3),
        (Value::Float32(0), 4),
        (Value::Float64(0), 8),
        (Value::Int32(0), 4),
        (Value::NumberRange([0; 2]), 8),
        (Value::Ray([0; 6]), 24),
        (Value::Rect([0; 4]), 16),
        (Value::Region3([0; 6]), 24),
        (Value::Region3int16([0; 6]), 12),
        (Value::SecurityCapabilities(u64::MAX), 8),
        (Value::UDim(0, 0), 8),
        (Value::UDim2(0, 0, 0, 0), 16),
        (Value::Vector2([0; 2]), 8),
        (Value::Vector2int16([0; 2]), 4),
        (Value::Vector3([0; 3]), 12),
        (Value::Vector3int16([0; 3]), 6),
        (Value::ContentNone, 0),
        (Value::DefaultPhysicalProperties, 0),
        (Value::CustomPhysicalProperties([0; 5]), 20),
        (Value::MaterialColors([0; 69]), 69),
    ];
    for (value, payload) in cases {
        assert_eq!(written(&value).len(), 1 + payload, "{:?}", value);
    }
}
