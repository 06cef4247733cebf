use gcs::component_data::ComponentData;
use gcs::component_definition::{create_component_definition, create_component_field_definition};
use gcs::component_info::ComponentInfo;
use gcs::component_value::{real_bits_to_i64, ComponentValue};
use gcs::entity::{entity_id_from_string, EntityId};
use gcs::variant::VariantType;

#[test]
fn nil_reads_as_zero_empty_and_false() {
    let v = ComponentValue::Nil;
    assert_eq!(0, v.get_int());
    assert_eq!("", v.get_string());
    assert!(!v.get_bool());
    assert_eq!(VariantType::Nil, v.get_type());
}

#[test]
fn bool_reads_as_integer_and_text() {
    assert_eq!(1, ComponentValue::Bool(true).get_int());
    assert_eq!(0, ComponentValue::Bool(false).get_int());
    assert_eq!("true", ComponentValue::Bool(true).get_string());
    assert_eq!("false", ComponentValue::Bool(false).get_string());
}

#[test]
fn text_reads_as_integer_or_zero() {
    assert_eq!(5, ComponentValue::String("5".to_string()).get_int());
    assert_eq!(0, ComponentValue::String("abc".to_string()).get_int());
    assert_eq!(-12, ComponentValue::String("-12".to_string()).get_int());
    assert_eq!(7, ComponentValue::String("+7".to_string()).get_int());
    assert_eq!(0, ComponentValue::String("".to_string()).get_int());
    assert_eq!(0, ComponentValue::String(" 5".to_string()).get_int());
    assert_eq!(0, ComponentValue::String("9223372036854775808".to_string()).get_int());
    assert_eq!(
        i64::MIN,
        ComponentValue::String("-9223372036854775808".to_string()).get_int()
    );
}

#[test]
fn text_reads_as_bool_where_empty() {
    assert!(ComponentValue::String("".to_string()).get_bool());
    assert!(!ComponentValue::String("x".to_string()).get_bool());
}

#[test]
fn integer_reads_as_text_and_bool() {
    assert_eq!("-42", ComponentValue::Int(-42).get_string());
    assert_eq!("0", ComponentValue::Int(0).get_string());
    assert_eq!("9223372036854775807", ComponentValue::Int(i64::MAX).get_string());
    assert!(ComponentValue::Int(3).get_bool());
    assert!(!ComponentValue::Int(0).get_bool());
}

#[test]
fn real_reads_as_integer_toward_zero() {
    let r = |x: f64| ComponentValue::Real(x.to_bits()).get_int();
    assert_eq!(1, r(1.9));
    assert_eq!(-1, r(-1.9));
    assert_eq!(0, r(0.5));
    assert_eq!(0, r(-0.0));
    assert_eq!(0, r(f64::NAN));
    assert_eq!(i64::MAX, r(f64::INFINITY));
    assert_eq!(i64::MIN, r(f64::NEG_INFINITY));
    assert_eq!(i64::MAX, r(1e300));
    assert_eq!(i64::MIN, r(-1e300));
    assert_eq!(4503599627370497, r(4503599627370497.0));
    assert_eq!(1 << 60, r((1u64 << 60) as f64));
    assert_eq!(i64::MIN, r(-9223372036854775808.0));
}

#[test]
fn real_bits_convert_as_rust_does() {
    for x in [0.0f64, 1.0, -2.5, 123456.789, -9.99e18, 9.3e18, 5e-324, 2.2e-308, 1e19] {
        assert_eq!(x as i64, real_bits_to_i64(x.to_bits()));
    }
}

#[test]
fn real_reads_as_bool_where_not_zero() {
    assert!(!ComponentValue::Real(0.0f64.to_bits()).get_bool());
    assert!(!ComponentValue::Real((-0.0f64).to_bits()).get_bool());
    assert!(ComponentValue::Real(0.1f64.to_bits()).get_bool());
    assert!(ComponentValue::Real(f64::NAN.to_bits()).get_bool());
}

#[test]
fn setters_replace_the_value() {
    let mut v = ComponentValue::default();
    v.set_int(3);
    assert_eq!(ComponentValue::Int(3), v);
    v.set_string("s".to_string());
    assert_eq!(VariantType::String, v.get_type());
    v.set_bool(true);
    assert_eq!(ComponentValue::Bool(true), v);
    v.set_real(2.0f64.to_bits());
    assert_eq!(VariantType::Real, v.get_type());
    v.set_nil();
    assert_eq!(ComponentValue::Nil, v);
}

#[test]
fn data_reads_missing_fields_as_nil() {
    let mut data = ComponentData::new(EntityId { id: 9 });
    assert_eq!(ComponentValue::Nil, data.get_field("a".to_string()));
    data.set_field("a".to_string(), &ComponentValue::Int(1));
    data.set_field("a".to_string(), &ComponentValue::Int(2));
    assert_eq!(ComponentValue::Int(2), data.get_field("a".to_string()));
    assert_eq!(1, data.fields.len());
    assert_eq!(EntityId { id: 9 }, data.get_entity());
}

#[test]
fn definitions_are_built_field_by_field() {
    let mut d = create_component_definition();
    d.add_field(create_component_field_definition("x".to_string(), VariantType::Real));
    let fields = d.get_fields();
    assert_eq!(1, fields.len());
    assert_eq!("x", fields[0].get_name());
    assert_eq!(VariantType::Real, fields[0].get_type());
    assert_eq!(7, ComponentInfo::create(7).get_hash());
}

#[test]
fn entity_text_is_lower_case_hyphenated() {
    let id = EntityId { id: 0x936DA01F9ABD4D9D80C702AF85C822A8 };
    assert_eq!("936da01f-9abd-4d9d-80c7-02af85c822a8", id.as_string());
    assert_eq!("00000000-0000-0000-0000-000000000000", EntityId { id: 0 }.as_string());
}

#[test]
fn entity_text_round_trips() {
    let id = EntityId::create();
    assert_eq!(Ok(id), EntityId::parse_str(&id.as_string()));
    assert_eq!(id, *entity_id_from_string(id.as_string()).unwrap());
}

#[test]
fn created_entities_are_version_four() {
    let id = EntityId::create();
    assert_eq!(4, (id.id >> 76) & 0xf);
    assert_eq!(2, (id.id >> 62) & 0x3);
}

#[test]
fn malformed_entity_text_is_refused() {
    assert!(EntityId::parse_str("not-a-uuid").is_err());
    assert!(entity_id_from_string("".to_string()).is_err());
    assert_eq!(
        Ok(EntityId { id: 0x936DA01F9ABD4D9D80C702AF85C822A8 }),
        EntityId::parse_str("936DA01F-9ABD-4D9D-80C7-02AF85C822A8")
    );
}

#[test]
fn malformed_entity_text_hands_on_the_parser_message() {
    let text = "936da01f-9abd-4d9d-80c7-02af85c822aZ";
    let expected = uuid::Uuid::parse_str(text).unwrap_err().to_string();
    assert_eq!(Err(expected.clone()), EntityId::parse_str(text));
    assert_eq!(Err(expected), entity_id_from_string(text.to_string()));
}
