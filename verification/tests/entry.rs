use tagged_value::tag::Tag;
use tagged_value::value::TaggedValue;
use tagged_value::value::Value;

fn text(s: &str) -> Value {
    Value::String(String::from(s))
}

fn round_trip(written: &TaggedValue) -> TaggedValue {
    let (key, value) = written.entry();
    TaggedValue::from_entry(key, value.clone())
}

#[test]
fn tagged_mapping_is_written_as_one_entry() {
    let tagged = TaggedValue {
        tag: Tag::new("Thing"),
        value: Value::Mapping(vec![(text("k"), text("v"))]),
    };
    let (key, value) = tagged.entry();
    assert_eq!(key, "!Thing");
    assert_eq!(value, &Value::Mapping(vec![(text("k"), text("v"))]));
    assert!(std::ptr::eq(value, &tagged.value));
}

#[test]
fn entry_key_has_exactly_one_marker() {
    for (spelling, key) in [("Thing", "!Thing"), ("!Thing", "!Thing"), ("", "!"), ("!", "!"), ("!!x", "!!x")] {
        let tagged = TaggedValue { tag: Tag::new(spelling), value: Value::Null };
        assert_eq!(tagged.entry().0, key);
    }
}

#[test]
fn from_entry_keeps_the_key_as_the_tag() {
    let tagged = TaggedValue::from_entry(String::from("!Thing"), Value::Number(1));
    assert_eq!(tagged.tag.as_str(), "!Thing");
    assert_eq!(tagged.value, Value::Number(1));
    let tagged = TaggedValue::from_entry(String::from("Thing"), Value::Number(1));
    assert_eq!(tagged.tag.as_str(), "Thing");
    assert!(tagged.tag == "!Thing");
}

#[test]
fn round_trip_of_a_scalar() {
    let written = TaggedValue { tag: Tag::new("Thing"), value: text("x") };
    assert_eq!(round_trip(&written), written);
}

#[test]
fn round_trip_of_a_sequence() {
    let written = TaggedValue {
        tag: Tag::new("Thing"),
        value: Value::Sequence(vec![text("first"), Value::Number(2)]),
    };
    assert_eq!(round_trip(&written), written);
}

#[test]
fn round_trip_of_a_mapping() {
    let written = TaggedValue {
        tag: Tag::new("Thing"),
        value: Value::Mapping(vec![(text("k"), text("v"))]),
    };
    assert_eq!(round_trip(&written), written);
}

#[test]
fn round_trip_of_other_spellings_and_nested_tags() {
    for spelling in ["!Thing", "", "!", "!!x"] {
        let inner = TaggedValue { tag: Tag::new("In"), value: Value::Bool(true) };
        let written = TaggedValue {
            tag: Tag::new(spelling),
            value: Value::Tagged(Box::new(inner)),
        };
        let read = round_trip(&written);
        assert_eq!(read, written);
        assert_eq!(round_trip(&read), written);
    }
}
