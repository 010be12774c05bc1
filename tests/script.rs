use azalea::base122::decode;
use azalea::emit::{encode_for_decoder, generate_with_options, Requirements};
use azalea::encoder::encode_dom_into_writer;
use azalea::model::{Node, Value};
use azalea::script::{
    generate_embeddable_script, generate_full_script, script_from_compressed, ScriptError, COMBINATOR_HEAD,
    COMBINATOR_TAIL, EMBEDDABLE_TAIL, FULL_SCRIPT_TAIL,
};

fn leaf(referent: u128, class: &str, name: &str, parent: Option<u128>) -> Node {
    Node {
        referent,
        class: class.to_string(),
        name: name.to_string(),
        parent,
        properties: vec![],
        children: vec![],
    }
}

fn model() -> Node {
    let mut root = leaf(1, "DataModel", "root", None);
    let mut part = leaf(2, "Part", "Part", Some(1));
    part.properties.push(("Anchored".to_string(), Value::Bool(true)));
    part.properties.push(("Color".to_string(), Value::Color3uint8([255, 0, 0])));
    root.children.push(part);
    root
}

fn packed_payload(script: &str) -> &str {
    let start = script.find(COMBINATOR_HEAD).unwrap() + COMBINATOR_HEAD.len();
    let end = script.find(COMBINATOR_TAIL).unwrap();
    &script[start..end]
}

#[test]
fn script_from_given_compressed_bytes() {
    let mut bytes = Vec::new();
    let options = encode_for_decoder(&model(), &mut bytes, Requirements::empty()).unwrap();
    let script = script_from_compressed(&options, &[0, 0]);
    let decoder = generate_with_options(&options);
    assert_eq!(script, format!("{decoder}{COMBINATOR_HEAD}\u{80}\u{780}{COMBINATOR_TAIL}"));
}

#[test]
fn embeddable_script_carries_the_compressed_payload() {
    let root = model();
    let script = generate_embeddable_script(&root, Requirements::empty(), 3).unwrap();
    assert!(script.ends_with(EMBEDDABLE_TAIL));
    let packed = packed_payload(&script);
    let compressed = decode(packed.as_bytes()).unwrap();
    assert_eq!(&compressed[..4], &[0x28, 0xb5, 0x2f, 0xfd]);
    let mut expected = Vec::new();
    encode_dom_into_writer(&root, &mut expected).unwrap();
    assert_ne!(compressed, expected);
    assert_eq!(zstd::decode_all(&compressed[..]).unwrap(), expected);
}

#[test]
fn full_script_needs_a_single_module_child() {
    assert_eq!(
        generate_full_script(&model(), Requirements::empty(), 3),
        Err(ScriptError::RootNotSingleModule)
    );
    let mut root = leaf(1, "DataModel", "root", None);
    let mut module = leaf(2, "ModuleScript", "Main", Some(1));
    module.properties.push(("Source".to_string(), Value::String("return 42".to_string())));
    root.children.push(module);
    let script = generate_full_script(&root, Requirements { bits: Requirements::OPENSB_SUPPORT }, 3).unwrap();
    assert!(script.ends_with(FULL_SCRIPT_TAIL));
    assert!(script.contains("local NewModuleScript: (code: string, parent: Instance?) -> ModuleScript = NewModuleScript\n"));
}

#[test]
fn script_with_oversized_node_fails() {
    let mut root = leaf(1, "DataModel", "root", None);
    for i in 0..65536u32 {
        root.properties.push((format!("p{i}"), Value::Bool(false)));
    }
    assert_eq!(
        generate_embeddable_script(&root, Requirements::empty(), 1),
        Err(ScriptError::TooManyProperties)
    );
}
