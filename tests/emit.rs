use azalea::emit::{LEGACY_NORMAL_REQUIRE, REGISTER_MODULE_SCRIPT, analyze, decimal_string, variant_to_type_id, encode_for_decoder, generate_full_decoder, generate_with_options, Options, Requirements};
use azalea::encoder::ReferentTable;
use azalea::model::{Node, Value};
use azalea::spec::{get_luau_for_type_ids, get_luau_variant_decoder_for_ids, TypeId, TypeIdSet, FRAGMENT_BOOL};

fn leaf(referent: u128, class: &str, name: &str, parent: Option<u128>) -> Node {
    Node {
        referent,
        class: class.to_string(),
        name: name.to_string(),
        parent,
        properties: vec![],
        children: vec![],
    }
}

fn set_of(ids: &[TypeId]) -> TypeIdSet {
    let mut set = TypeIdSet::new();
    for id in ids {
        set.insert(*id);
    }
    set
}

fn all_ids() -> Vec<TypeId> {
    (0..38u8).map(|k| TypeId::from_u8(k).unwrap()).collect()
}

fn bool_and_string_tree() -> Node {
    let mut root = leaf(1, "Folder", "root", None);
    root.properties.push(("Archivable".to_string(), Value::Bool(true)));
    let mut child = leaf(2, "Part", "child", Some(1));
    child.properties.push(("Label".to_string(), Value::String("x".to_string())));
    root.children.push(child);
    root
}

#[test]
fn tags_are_positions_in_the_table() {
    assert_eq!(TypeId::String.as_u8(), 0);
    assert_eq!(TypeId::Nil.as_u8(), 17);
    assert_eq!(TypeId::Ref.as_u8(), 22);
    assert_eq!(TypeId::ContentUri.as_u8(), 37);
    assert_eq!(TypeId::from_u8(5), Some(TypeId::CFrame));
    assert_eq!(TypeId::from_u8(38), None);
    for id in all_ids() {
        assert_eq!(TypeId::from_u8(id.as_u8()), Some(id));
    }
}

#[test]
fn names_and_tag_text() {
    assert_eq!(TypeId::Nil.name(), "None");
    assert_eq!(TypeId::Vector3int16.name(), "Vector3int16");
    assert_eq!(TypeId::Vector3int16.tag_string(), "33");
}

#[test]
fn type_id_set_membership() {
    let set = set_of(&[TypeId::Bool, TypeId::ContentUri]);
    assert!(set.contains(TypeId::Bool));
    assert!(set.contains(TypeId::ContentUri));
    assert!(!set.contains(TypeId::String));
    let all = TypeIdSet::all();
    for id in all_ids() {
        assert!(all.contains(id));
    }
}

#[test]
fn type_id_table_lists_chosen_kinds_in_tag_order() {
    let set = set_of(&[TypeId::Ref, TypeId::Bool, TypeId::String, TypeId::Nil]);
    assert_eq!(
        get_luau_for_type_ids(&set),
        "local TYPE_ID = table.freeze({\nString = 0,Bool = 3,None = 17,Ref = 22,\n})"
    );
}

#[test]
fn variant_decoder_wraps_each_fragment() {
    let set = set_of(&[TypeId::Bool]);
    assert_eq!(
        get_luau_variant_decoder_for_ids(&set),
        format!("-- @generated\nVARIANT_DECODER = table.freeze({{\n[TYPE_ID.Bool] = function()\n{FRAGMENT_BOOL}\nend,\n\n}})")
    );
}

#[test]
fn requirement_minimality_for_bool_and_string_tree() {
    let (ids, requirements) = analyze(&bool_and_string_tree());
    let expected = [TypeId::String, TypeId::Ref, TypeId::Nil, TypeId::Bool];
    for id in all_ids() {
        assert_eq!(ids.contains(id), expected.contains(&id), "{:?}", id);
    }
    assert!(!requirements.contains(Requirements::NEW_SCRIPT_FUNCTION));
    assert!(!requirements.contains(Requirements::NEW_LOCAL_SCRIPT_FUNCTION));
    assert!(!requirements.contains(Requirements::NEW_MODULE_SCRIPT_FUNCTION));
    assert!(!requirements.contains(Requirements::CFRAME_LOOKUP_TABLE));
    assert_eq!(requirements.bits, 0);
}

#[test]
fn analyzer_sees_nested_attribute_kinds_and_script_classes() {
    let mut root = leaf(1, "Folder", "root", None);
    root.properties.push((
        "Attributes".to_string(),
        Value::Attributes(vec![("v".to_string(), Value::Vector3([0, 0, 0]))]),
    ));
    let mut script = leaf(2, "LocalScript", "s", Some(1));
    script.properties.push(("Transform".to_string(), Value::OptionalCFrame(None)));
    let mut module = leaf(3, "ModuleScript", "m", Some(1));
    module.children.push(leaf(4, "MeshPart", "p", Some(3)));
    root.children.push(script);
    root.children.push(module);
    let (ids, requirements) = analyze(&root);
    assert!(ids.contains(TypeId::Attributes));
    assert!(ids.contains(TypeId::Vector3));
    assert!(!ids.contains(TypeId::CFrame));
    assert_eq!(
        requirements.bits,
        Requirements::NEW_LOCAL_SCRIPT_FUNCTION | Requirements::NEW_MODULE_SCRIPT_FUNCTION | Requirements::MESH_PART_SUPPORT
    );
}

#[test]
fn a_frame_implies_the_rotation_table() {
    let mut root = leaf(1, "Part", "p", None);
    root.properties.push((
        "CFrame".to_string(),
        Value::CFrame(azalea::model::Frame { rotation_id: 2, rotation: [0; 9], position: [0; 3] }),
    ));
    let (ids, requirements) = analyze(&root);
    assert!(ids.contains(TypeId::CFrame));
    assert!(requirements.contains(Requirements::CFRAME_LOOKUP_TABLE));
}

#[test]
fn specialised_decoder_holds_only_used_fragments() {
    let mut out = Vec::new();
    let options = encode_for_decoder(&bool_and_string_tree(), &mut out, Requirements { bits: Requirements::RETURN_DECODE }).unwrap();
    let source = generate_with_options(&options);
    assert!(source.contains("[TYPE_ID.Bool] = function()"));
    assert!(source.contains("[TYPE_ID.String] = function()"));
    assert!(!source.contains("[TYPE_ID.CFrame]"));
    assert!(!source.contains("CFRAME_ID_LOOKUP_TABLE = {}"));
    assert!(!source.contains("local NewScript"));
    assert!(source.ends_with("\nreturn decode\n"));
}

#[test]
fn full_decoder_covers_every_kind() {
    let source = generate_full_decoder();
    for id in all_ids() {
        assert!(source.contains(&format!("[TYPE_ID.{}] = function()", id.name())));
    }
    assert!(source.contains("CFRAME_ID_LOOKUP_TABLE = {}"));
    assert!(source.contains("local NewScript: (code: string, parent: Instance?) -> Script = NewScript or (game:GetService"));
    assert!(source.contains("local NewModuleScript: (code: string, parent: Instance?) -> ModuleScript = NewModuleScript or"));
    assert!(!source.contains("INLINED_MODULES"));
    assert!(source.ends_with("\nreturn decode\n"));
}

#[test]
fn novel_inlining_splices_module_sources() {
    let mut module = leaf(5, "ModuleScript", "m", None);
    module.properties.push(("Source".to_string(), Value::String("return 1".to_string())));
    let mut out = Vec::new();
    let base = Requirements { bits: Requirements::LEGACY_SUPPORT | Requirements::USE_NOVEL_INLINING };
    let options = encode_for_decoder(&module, &mut out, base).unwrap();
    assert_eq!(options.module_script_sources, vec![(0usize, "return 1".to_string())]);
    let source = generate_with_options(&options);
    assert!(source.contains("[0] = { cache = MODULE_UNCACHED_LVALUE, load = function(script: ModuleScript, require: typeof(require)) return function()\nreturn 1\nend end },\n"));
    assert!(!source.contains("local NewModuleScript: (code: string, parent: Instance?) -> ModuleScript = NewModuleScript"));
}

#[test]
fn legacy_only_script_glue() {
    let options = Options {
        generation_requirements: Requirements {
            bits: Requirements::NEW_SCRIPT_FUNCTION | Requirements::LEGACY_SUPPORT,
        },
        known_needed_type_ids: TypeIdSet::new(),
        module_script_sources: vec![],
        referent_map: ReferentTable::new(),
    };
    let source = generate_with_options(&options);
    assert!(source.contains("local NewScript: (code: string, parent: Instance?) -> Script = NewScript\n"));
    assert!(!source.ends_with("return decode\n"));
}

#[test]
fn decimal_text() {
    assert_eq!(decimal_string(0), "0");
    assert_eq!(decimal_string(7), "7");
    assert_eq!(decimal_string(1234), "1234");
    assert_eq!(decimal_string(usize::MAX), usize::MAX.to_string());
}

#[test]
fn requirement_flag_operations() {
    let mut r = Requirements::empty();
    assert!(!r.contains(Requirements::STUDIO_SUPPORT));
    r.insert(Requirements::STUDIO_SUPPORT | Requirements::RETURN_DECODE);
    assert!(r.contains(Requirements::STUDIO_SUPPORT));
    assert!(r.contains(Requirements::RETURN_DECODE));
    let all = Requirements::all();
    assert_eq!(all.difference(Requirements::USE_NOVEL_INLINING).bits, 1023 - 256);
}

#[test]
fn environment_flags() {
    assert_eq!(Requirements::from_environment(true, false, true, false).bits, 128 + 64);
    assert_eq!(Requirements::from_environment(false, true, false, true).bits, 32 + 256);
    assert_eq!(Requirements::from_environment(false, false, false, false).bits, 0);
}

#[test]
fn variant_type_ids_list_nested_kinds_first() {
    let v = Value::Attributes(vec![
        ("a".to_string(), Value::Bool(true)),
        (
            "b".to_string(),
            Value::Attributes(vec![("c".to_string(), Value::Vector3([0, 0, 0]))]),
        ),
    ]);
    assert_eq!(
        variant_to_type_id(&v),
        vec![TypeId::Bool, TypeId::Vector3, TypeId::Attributes, TypeId::Attributes]
    );
    assert_eq!(variant_to_type_id(&Value::Int32(4)), vec![TypeId::Int32]);
    assert_eq!(variant_to_type_id(&Value::Ref(None)), vec![TypeId::Nil]);
    assert_eq!(variant_to_type_id(&Value::Ref(Some(3))), vec![TypeId::Ref]);
}

#[test]
fn legacy_module_binding_ends_with_the_shim_alternative() {
    let options = Options {
        generation_requirements: Requirements {
            bits: Requirements::NEW_MODULE_SCRIPT_FUNCTION | Requirements::LEGACY_SUPPORT | Requirements::OPENSB_SUPPORT,
        },
        known_needed_type_ids: TypeIdSet::new(),
        module_script_sources: vec![],
        referent_map: ReferentTable::new(),
    };
    let source = generate_with_options(&options);
    let expected = format!(
        "local NewModuleScript: (code: string, parent: Instance?) -> ModuleScript = NewModuleScript or nil\n{LEGACY_NORMAL_REQUIRE};{REGISTER_MODULE_SCRIPT}"
    );
    assert!(source.contains(&expected));
}
