use elementary::identity::{source_digest, ComponentId, ExpressionId};

#[test]
fn digest_of_empty_text_is_the_offset_basis() {
    assert_eq!(source_digest(""), 0xcbf2_9ce4_8422_2325);
}

#[test]
fn digest_matches_known_fnv1a_values() {
    assert_eq!(source_digest("a"), 0xaf63_dc4c_8601_ec8c);
    assert_eq!(source_digest("foobar"), 0x8594_4171_f739_67e8);
}

#[test]
fn expression_ids_are_deterministic() {
    let a = ExpressionId::derive(7, "self.name");
    let b = ExpressionId::derive(7, "self.name");
    assert_eq!(a, b);
    assert_eq!(a.context, 7);
    assert_eq!(a.digest, source_digest("self.name"));
}

#[test]
fn identical_expressions_at_two_positions_get_two_ids() {
    let first = ExpressionId::derive(1, "{{ x }}");
    let second = ExpressionId::derive(2, "{{ x }}");
    assert_ne!(first, second);
    assert_eq!(first.digest, second.digest);
}

#[test]
fn different_sources_at_one_position_get_different_ids() {
    assert_ne!(ExpressionId::derive(3, "x"), ExpressionId::derive(3, "y"));
}

#[test]
fn component_ids_tell_positions_and_kinds_apart() {
    let a = ComponentId::derive("Greeter", 1);
    assert_eq!(a, ComponentId::derive("Greeter", 1));
    assert_ne!(a, ComponentId::derive("Greeter", 2));
    assert_ne!(a, ComponentId::derive("Farewell", 1));
    assert_eq!(a.kind, source_digest("Greeter"));
}
