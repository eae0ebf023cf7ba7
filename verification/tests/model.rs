use serde_kdl::decode::collect;
use serde_kdl::{Datum, DecodeError, Expected, Field, Kind, Node, Places, Value};

fn text(s: &str) -> Datum {
    Datum::Str(s.to_string())
}

#[test]
fn the_fields_have_a_fixed_order() {
    assert_eq!(Field::all(), [Field::Name, Field::Values, Field::Properties, Field::Children]);
    assert_eq!(Field::Name.position(), 0);
    assert_eq!(Field::Values.position(), 1);
    assert_eq!(Field::Properties.position(), 2);
    assert_eq!(Field::Children.position(), 3);
}

#[test]
fn the_fields_have_their_names() {
    assert_eq!(Field::Name.name(), "name");
    assert_eq!(Field::Values.name(), "values");
    assert_eq!(Field::Properties.name(), "properties");
    assert_eq!(Field::Children.name(), "children");
}

#[test]
fn a_name_leads_back_to_its_field() {
    for field in Field::all() {
        assert_eq!(Field::from_key(field.name()), Ok(field));
        assert_eq!(Field::from_datum(&text(field.name())), Ok(field));
    }
}

#[test]
fn every_datum_has_its_kind() {
    assert_eq!(Datum::Unit.kind(), Kind::Unit);
    assert_eq!(Datum::Boolean(true).kind(), Kind::Boolean);
    assert_eq!(Datum::I8(0).kind(), Kind::I8);
    assert_eq!(Datum::I16(0).kind(), Kind::I16);
    assert_eq!(Datum::I32(0).kind(), Kind::I32);
    assert_eq!(Datum::I64(0).kind(), Kind::I64);
    assert_eq!(Datum::U8(0).kind(), Kind::U8);
    assert_eq!(Datum::U16(0).kind(), Kind::U16);
    assert_eq!(Datum::U32(0).kind(), Kind::U32);
    assert_eq!(Datum::U64(0).kind(), Kind::U64);
    assert_eq!(Datum::F64(0).kind(), Kind::F64);
    assert_eq!(text("").kind(), Kind::Str);
    assert_eq!(Datum::Bytes(vec![]).kind(), Kind::Bytes);
    assert_eq!(Datum::Absent.kind(), Kind::Absent);
    assert_eq!(Datum::Present(Box::new(Datum::Unit)).kind(), Kind::Present);
    assert_eq!(Datum::Sequence(vec![]).kind(), Kind::Sequence);
    assert_eq!(Datum::Mapping(vec![]).kind(), Kind::Mapping);
    assert_eq!(Datum::Record { name: "R", fields: vec![] }.kind(), Kind::Record);
}

#[test]
fn presenting_leaves_primitives_as_they_are() {
    let data = vec![
        Datum::Unit,
        Datum::Boolean(true),
        Datum::I8(-1),
        Datum::I16(-2),
        Datum::I32(-3),
        Datum::I64(-4),
        Datum::U8(1),
        Datum::U16(2),
        Datum::U32(3),
        Datum::U64(4),
        Datum::F64(5),
        text("six"),
        Datum::Bytes(vec![7, 8]),
        Datum::Absent,
        Datum::Present(Box::new(Datum::I64(9))),
    ];
    for datum in &data {
        assert_eq!(&datum.positional(), datum);
        assert_eq!(&datum.keyed(), datum);
    }
}

#[test]
fn presenting_reaches_records_at_any_depth() {
    let record = Datum::Record { name: "R", fields: vec![("a", Datum::I64(1)), ("b", Datum::Unit)] };
    let nested = Datum::Present(Box::new(Datum::Mapping(vec![(
        text("k"),
        Datum::Sequence(vec![record]),
    )])));
    let positional = Datum::Present(Box::new(Datum::Mapping(vec![(
        text("k"),
        Datum::Sequence(vec![Datum::Sequence(vec![Datum::I64(1), Datum::Unit])]),
    )])));
    let keyed = Datum::Present(Box::new(Datum::Mapping(vec![(
        text("k"),
        Datum::Sequence(vec![Datum::Mapping(vec![
            (text("a"), Datum::I64(1)),
            (text("b"), Datum::Unit),
        ])]),
    )])));
    assert_eq!(nested.positional(), positional);
    assert_eq!(nested.keyed(), keyed);
}

#[test]
fn new_places_hold_nothing() {
    let places = Places::new();
    for field in Field::all() {
        assert!(!places.holds(field));
        assert_eq!(places.of(field), None);
    }
    assert_eq!(places.first_missing(4), Some(Field::Name));
}

#[test]
fn noting_a_field_records_its_place() {
    let places = Places::new().note(Field::Children, 0).unwrap();
    assert_eq!(places.of(Field::Children), Some(0));
    assert!(places.holds(Field::Children));
    assert!(!places.holds(Field::Name));
    let places = places.note(Field::Name, 1).unwrap();
    assert_eq!(
        places,
        Places { name: Some(1), values: None, properties: None, children: Some(0) }
    );
    assert_eq!(places.first_missing(2), Some(Field::Values));
}

#[test]
fn noting_a_field_again_is_a_duplicate() {
    for field in Field::all() {
        let places = Places::new().note(field, 0).unwrap();
        assert_eq!(places.note(field, 1), Err(DecodeError::DuplicateField { field }));
    }
}

#[test]
fn the_first_missing_field_follows_the_fixed_order() {
    let places = Places { name: Some(3), values: None, properties: Some(0), children: None };
    assert_eq!(places.first_missing(4), Some(Field::Values));
    let places = Places { name: Some(3), values: Some(1), properties: Some(0), children: None };
    assert_eq!(places.first_missing(4), Some(Field::Children));
    let places = Places { name: Some(3), values: Some(1), properties: Some(0), children: Some(2) };
    assert_eq!(places.first_missing(4), None);
}

#[test]
fn a_place_beyond_the_mapping_supplies_nothing() {
    let places = Places { name: Some(0), values: Some(1), properties: Some(2), children: Some(3) };
    assert_eq!(places.first_missing(3), Some(Field::Children));
    assert_eq!(places.first_missing(0), Some(Field::Name));
}

#[test]
fn collecting_notes_where_each_field_stands() {
    let pairs = vec![
        (text("values"), Datum::Unit),
        (text("name"), Datum::Unit),
        (text("children"), Datum::Unit),
    ];
    assert_eq!(
        collect(&pairs),
        Ok(Places { name: Some(1), values: Some(0), properties: None, children: Some(2) })
    );
    assert_eq!(collect(&vec![]), Ok(Places::new()));
}

#[test]
fn the_four_raw_fields_are_read_in_their_order() {
    let expected = Node {
        name: "n".to_string(),
        values: vec![Value::Null],
        properties: vec![("k".to_string(), Value::Int(1))],
        children: vec![Node::default()],
    };
    let child = Node::default().encode().positional();
    assert_eq!(
        Node::from_parts(
            &text("n"),
            &Datum::Sequence(vec![Datum::Unit]),
            &Datum::Mapping(vec![(text("k"), Datum::I64(1))]),
            &Datum::Sequence(vec![child]),
        ),
        Ok(expected)
    );
    assert_eq!(
        Node::from_parts(&Datum::Unit, &Datum::Unit, &Datum::Unit, &Datum::Unit),
        Err(DecodeError::TypeMismatch { found: Kind::Unit, expected: Expected::Text })
    );
}
