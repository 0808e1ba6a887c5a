use hook_notify::json::JsonNumber;
use hook_notify::yaml::{deep_merge_yaml, merge_layers, yaml_eq, Yaml};

fn s(x: &str) -> Yaml {
    Yaml::String(x.to_string())
}

fn n(x: u64) -> Yaml {
    Yaml::Number(JsonNumber::PosInt(x))
}

fn get<'a>(m: &'a Yaml, key: &str) -> Option<&'a Yaml> {
    match m {
        Yaml::Mapping(es) => es.iter().find(|(k, _)| yaml_eq(k, &s(key))).map(|(_, v)| v),
        _ => None,
    }
}

#[test]
fn deep_merge_yaml_scalar_override() {
    let base = Yaml::Mapping(vec![(s("x"), n(1)), (s("y"), n(2))]);
    let overlay = Yaml::Mapping(vec![(s("x"), n(99))]);
    let merged = deep_merge_yaml(base, overlay);
    assert!(yaml_eq(get(&merged, "x").unwrap(), &n(99)));
    assert!(yaml_eq(get(&merged, "y").unwrap(), &n(2)));
}

#[test]
fn deep_merge_yaml_null_overlay_keeps_base() {
    let base = Yaml::Mapping(vec![(s("x"), n(42))]);
    let merged = deep_merge_yaml(base, Yaml::Null);
    assert!(yaml_eq(get(&merged, "x").unwrap(), &n(42)));
}

#[test]
fn nested_mappings_merge_and_order_follows_swap_remove() {
    let base = Yaml::Mapping(vec![
        (s("a"), Yaml::Mapping(vec![(s("p"), n(1)), (s("q"), n(2))])),
        (s("b"), n(3)),
        (s("c"), n(4)),
    ]);
    let overlay = Yaml::Mapping(vec![
        (s("a"), Yaml::Mapping(vec![(s("q"), n(20)), (s("r"), Yaml::Null)])),
        (s("d"), Yaml::Sequence(vec![n(5)])),
    ]);
    let merged = deep_merge_yaml(base, overlay);
    let expected = Yaml::Mapping(vec![
        (s("c"), n(4)),
        (s("b"), n(3)),
        (s("a"), Yaml::Mapping(vec![(s("p"), n(1)), (s("q"), n(20)), (s("r"), Yaml::Null)])),
        (s("d"), Yaml::Sequence(vec![n(5)])),
    ]);
    assert!(yaml_eq(&merged, &expected), "got {merged:?}");
}

#[test]
fn non_mapping_overlay_replaces() {
    let merged = deep_merge_yaml(Yaml::Mapping(vec![(s("x"), n(1))]), s("flat"));
    assert!(yaml_eq(&merged, &s("flat")));
    let merged = deep_merge_yaml(Yaml::Bool(true), Yaml::Mapping(vec![(s("k"), n(1))]));
    assert!(yaml_eq(&merged, &Yaml::Mapping(vec![(s("k"), n(1))])));
}

#[test]
fn yaml_equality_is_structural() {
    assert!(yaml_eq(&Yaml::Tagged("t".to_string(), Box::new(n(1))), &Yaml::Tagged("t".to_string(), Box::new(n(1)))));
    assert!(!yaml_eq(&Yaml::Tagged("t".to_string(), Box::new(n(1))), &Yaml::Tagged("u".to_string(), Box::new(n(1)))));
    assert!(!yaml_eq(&Yaml::Sequence(vec![n(1)]), &Yaml::Sequence(vec![n(1), n(2)])));
    assert!(!yaml_eq(&n(1), &Yaml::Number(JsonNumber::NegInt(-1))));
}

#[test]
fn layers_apply_in_order() {
    let base = Yaml::Mapping(vec![(s("a"), n(1)), (s("b"), n(2))]);
    let layers = vec![
        Yaml::Mapping(vec![(s("a"), n(10))]),
        Yaml::Null,
        Yaml::Mapping(vec![(s("a"), n(100)), (s("c"), n(3))]),
    ];
    let merged = merge_layers(base, layers);
    assert!(yaml_eq(get(&merged, "a").unwrap(), &n(100)));
    assert!(yaml_eq(get(&merged, "b").unwrap(), &n(2)));
    assert!(yaml_eq(get(&merged, "c").unwrap(), &n(3)));
    let unchanged = merge_layers(s("x"), Vec::new());
    assert!(yaml_eq(&unchanged, &s("x")));
}
