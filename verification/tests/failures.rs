use serde_kdl::decode::decode_children;
use serde_kdl::parts::{decode_properties, decode_text, decode_values};
use serde_kdl::{Datum, DecodeError, Expected, Field, Kind, Node};

fn text(s: &str) -> Datum {
    Datum::Str(s.to_string())
}

fn four_items() -> Vec<Datum> {
    vec![text("n"), Datum::Sequence(vec![]), Datum::Mapping(vec![]), Datum::Sequence(vec![])]
}

fn four_pairs() -> Vec<(Datum, Datum)> {
    vec![
        (text("name"), text("n")),
        (text("values"), Datum::Sequence(vec![])),
        (text("properties"), Datum::Mapping(vec![])),
        (text("children"), Datum::Sequence(vec![])),
    ]
}

fn mismatch(found: Kind, expected: Expected) -> DecodeError {
    DecodeError::TypeMismatch { found, expected }
}

fn unknown(key: &str) -> DecodeError {
    DecodeError::UnknownField { key: key.to_string(), valid: Field::all() }
}

#[test]
fn a_short_sequence_fails_with_the_first_absent_position() {
    for length in 0..4 {
        let mut items = four_items();
        items.truncate(length);
        assert_eq!(Node::decode_positional(&items), Err(DecodeError::Arity { position: length }));
        assert_eq!(
            Node::decode(&Datum::Sequence(items)),
            Err(DecodeError::Arity { position: length })
        );
    }
}

#[test]
fn a_short_sequence_fails_whatever_its_items_are() {
    let items = vec![Datum::I64(1)];
    assert_eq!(Node::decode_positional(&items), Err(DecodeError::Arity { position: 1 }));
    let items = vec![text("n"), Datum::Unit];
    assert_eq!(Node::decode_positional(&items), Err(DecodeError::Arity { position: 2 }));
    let items = vec![Datum::Absent, Datum::Bytes(vec![]), Datum::Sequence(vec![])];
    assert_eq!(Node::decode_positional(&items), Err(DecodeError::Arity { position: 3 }));
}

#[test]
fn the_items_of_a_full_sequence_are_read_in_order() {
    let items = vec![Datum::I64(1), Datum::Unit, Datum::Unit, Datum::Unit];
    assert_eq!(Node::decode_positional(&items), Err(mismatch(Kind::I64, Expected::Text)));
    let items = vec![text("n"), Datum::Unit, Datum::Unit, Datum::Unit];
    assert_eq!(Node::decode_positional(&items), Err(mismatch(Kind::Unit, Expected::Sequence)));
    let items = vec![text("n"), Datum::Sequence(vec![]), Datum::Sequence(vec![]), Datum::Unit];
    assert_eq!(Node::decode_positional(&items), Err(mismatch(Kind::Sequence, Expected::Mapping)));
    let items = vec![text("n"), Datum::Sequence(vec![]), Datum::Mapping(vec![]), Datum::Unit];
    assert_eq!(Node::decode_positional(&items), Err(mismatch(Kind::Unit, Expected::Sequence)));
}

#[test]
fn an_unknown_key_fails_and_is_named() {
    let mut pairs = four_pairs();
    pairs.push((text("extra"), Datum::Unit));
    assert_eq!(Node::decode_keyed(&pairs), Err(unknown("extra")));
    let only = vec![(text("extra"), Datum::I64(1))];
    assert_eq!(Node::decode(&Datum::Mapping(only)), Err(unknown("extra")));
}

#[test]
fn an_unknown_key_fails_whatever_the_values_are() {
    let pairs = vec![
        (text("name"), Datum::I64(5)),
        (text("values"), Datum::Unit),
        (text("extra"), Datum::Unit),
    ];
    assert_eq!(Node::decode_keyed(&pairs), Err(unknown("extra")));
}

#[test]
fn the_unknown_field_error_lists_the_four_fields() {
    match Field::from_key("extra") {
        Err(DecodeError::UnknownField { key, valid }) => {
            assert_eq!(key, "extra");
            assert_eq!(valid.map(Field::name), ["name", "values", "properties", "children"]);
        }
        _ => panic!("an unknown key was accepted"),
    }
}

#[test]
fn field_names_are_matched_exactly() {
    for key in ["Name", "name ", "", "nam", "names", "childre", "propertie", "value"] {
        assert_eq!(Field::from_key(key), Err(unknown(key)));
    }
}

#[test]
fn a_key_that_is_no_string_is_a_type_mismatch() {
    let pairs = vec![(Datum::I64(0), text("n"))];
    assert_eq!(Node::decode_keyed(&pairs), Err(mismatch(Kind::I64, Expected::FieldName)));
}

#[test]
fn a_repeated_name_fails_whatever_the_values() {
    for second in [text("other"), Datum::I64(3), Datum::Unit, Datum::Sequence(vec![])] {
        let pairs = vec![(text("name"), Datum::U8(0)), (text("name"), second)];
        assert_eq!(
            Node::decode_keyed(&pairs),
            Err(DecodeError::DuplicateField { field: Field::Name })
        );
    }
}

#[test]
fn each_field_may_come_only_once() {
    for (at, field) in Field::all().into_iter().enumerate() {
        let mut pairs = four_pairs();
        let again = (pairs[at].0.keyed(), pairs[at].1.keyed());
        pairs.push(again);
        assert_eq!(Node::decode_keyed(&pairs), Err(DecodeError::DuplicateField { field }));
    }
}

#[test]
fn a_mapping_without_children_misses_children() {
    let mut pairs = four_pairs();
    pairs.truncate(3);
    assert_eq!(
        Node::decode_keyed(&pairs),
        Err(DecodeError::MissingField { field: Field::Children })
    );
}

#[test]
fn each_field_is_required() {
    for (at, field) in Field::all().into_iter().enumerate() {
        let mut pairs = four_pairs();
        pairs.remove(at);
        assert_eq!(Node::decode_keyed(&pairs), Err(DecodeError::MissingField { field }));
    }
}

#[test]
fn the_first_missing_field_in_the_fixed_order_is_reported() {
    assert_eq!(Node::decode_keyed(&vec![]), Err(DecodeError::MissingField { field: Field::Name }));
    let pairs = vec![(text("children"), Datum::Sequence(vec![])), (text("name"), text("n"))];
    assert_eq!(
        Node::decode_keyed(&pairs),
        Err(DecodeError::MissingField { field: Field::Values })
    );
}

#[test]
fn a_failure_in_a_child_is_passed_on_unchanged() {
    let bad_child = Datum::Sequence(vec![text("child"), Datum::Sequence(vec![])]);
    let mut items = four_items();
    items[3] = Datum::Sequence(vec![bad_child]);
    assert_eq!(Node::decode_positional(&items), Err(DecodeError::Arity { position: 2 }));
    let mut pairs = four_pairs();
    pairs[3].1 = Datum::Sequence(vec![Datum::Mapping(vec![(text("extra"), Datum::Unit)])]);
    assert_eq!(Node::decode_keyed(&pairs), Err(unknown("extra")));
}

#[test]
fn a_missing_field_is_found_before_any_value_is_read() {
    let pairs = vec![
        (text("children"), Datum::Unit),
        (text("name"), Datum::I64(1)),
        (text("values"), Datum::Unit),
    ];
    assert_eq!(
        Node::decode_keyed(&pairs),
        Err(DecodeError::MissingField { field: Field::Properties })
    );
}

#[test]
fn the_values_of_a_mapping_are_read_in_the_order_of_the_fields() {
    let pairs = vec![
        (text("children"), Datum::Unit),
        (text("properties"), Datum::Unit),
        (text("values"), Datum::Unit),
        (text("name"), Datum::I64(1)),
    ];
    assert_eq!(Node::decode_keyed(&pairs), Err(mismatch(Kind::I64, Expected::Text)));
    let pairs = vec![
        (text("children"), Datum::Unit),
        (text("properties"), Datum::Unit),
        (text("values"), Datum::Sequence(vec![])),
        (text("name"), text("n")),
    ];
    assert_eq!(Node::decode_keyed(&pairs), Err(mismatch(Kind::Unit, Expected::Mapping)));
}

#[test]
fn the_first_fault_among_the_keys_decides() {
    let pairs = vec![
        (text("name"), text("n")),
        (text("name"), text("n")),
        (text("extra"), Datum::Unit),
    ];
    assert_eq!(
        Node::decode_keyed(&pairs),
        Err(DecodeError::DuplicateField { field: Field::Name })
    );
    let pairs = vec![
        (text("extra"), Datum::Unit),
        (text("name"), text("n")),
        (text("name"), text("n")),
    ];
    assert_eq!(Node::decode_keyed(&pairs), Err(unknown("extra")));
    let pairs = vec![(Datum::Unit, Datum::Unit), (text("extra"), Datum::Unit)];
    assert_eq!(Node::decode_keyed(&pairs), Err(mismatch(Kind::Unit, Expected::FieldName)));
}

#[test]
fn the_first_failing_child_decides() {
    let children = Datum::Sequence(vec![
        Datum::Sequence(four_items()),
        Datum::Boolean(true),
        Datum::Sequence(vec![]),
    ]);
    assert_eq!(decode_children(&children), Err(mismatch(Kind::Boolean, Expected::Node)));
}

#[test]
fn a_value_that_is_no_scalar_fails_inside_a_node() {
    let mut items = four_items();
    items[1] = Datum::Sequence(vec![Datum::I64(1), Datum::U16(2), Datum::I8(3)]);
    assert_eq!(Node::decode_positional(&items), Err(mismatch(Kind::U16, Expected::Value)));
    let mut pairs = four_pairs();
    pairs[2].1 = Datum::Mapping(vec![(text("k"), Datum::Bytes(vec![]))]);
    assert_eq!(Node::decode_keyed(&pairs), Err(mismatch(Kind::Bytes, Expected::Value)));
}

#[test]
fn a_property_key_has_to_be_a_string() {
    let mapping = Datum::Mapping(vec![(Datum::I64(1), Datum::I64(2))]);
    assert_eq!(decode_properties(&mapping), Err(mismatch(Kind::I64, Expected::Text)));
}

#[test]
fn in_a_property_the_key_is_read_before_the_value() {
    let mapping = Datum::Mapping(vec![(Datum::U8(1), Datum::Bytes(vec![]))]);
    assert_eq!(decode_properties(&mapping), Err(mismatch(Kind::U8, Expected::Text)));
}

#[test]
fn the_parts_refuse_other_shapes() {
    assert_eq!(decode_text(&Datum::Unit), Err(mismatch(Kind::Unit, Expected::Text)));
    assert_eq!(decode_values(&Datum::Mapping(vec![])), Err(mismatch(Kind::Mapping, Expected::Sequence)));
    assert_eq!(decode_properties(&Datum::Absent), Err(mismatch(Kind::Absent, Expected::Mapping)));
    assert_eq!(decode_children(&text("x")), Err(mismatch(Kind::Str, Expected::Sequence)));
}

#[test]
fn nothing_but_a_sequence_or_a_mapping_is_a_node() {
    assert_eq!(Node::decode(&Datum::Unit), Err(mismatch(Kind::Unit, Expected::Node)));
    assert_eq!(Node::decode(&text("n")), Err(mismatch(Kind::Str, Expected::Node)));
    let record = Node::default().encode();
    assert_eq!(Node::decode(&record), Err(mismatch(Kind::Record, Expected::Node)));
    let held = Datum::Present(Box::new(Datum::Sequence(four_items())));
    assert_eq!(Node::decode(&held), Err(mismatch(Kind::Present, Expected::Node)));
}

#[test]
fn a_duplicate_is_found_before_its_value_is_read() {
    let pairs = vec![(text("values"), Datum::Sequence(vec![])), (text("values"), Datum::Unit)];
    assert_eq!(
        Node::decode_keyed(&pairs),
        Err(DecodeError::DuplicateField { field: Field::Values })
    );
}

#[test]
fn a_cloned_error_is_equal() {
    let error = unknown("extra");
    assert_eq!(error.clone(), error);
    let error = mismatch(Kind::Bytes, Expected::Value);
    assert_eq!(error.clone(), error);
}
