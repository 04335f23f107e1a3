use std::cmp::Ordering;
use std::collections::hash_map::DefaultHasher;
use std::hash::Hash;
use std::hash::Hasher;
use tagged_value::tag::Tag;
use tagged_value::value::TaggedValue;
use tagged_value::value::Value;

fn text(s: &str) -> Value {
    Value::String(String::from(s))
}

fn tagged(tag: &str, value: Value) -> Value {
    Value::Tagged(Box::new(TaggedValue { tag: Tag::new(tag), value }))
}

fn hash_value(value: &Value) -> u64 {
    let mut hasher = DefaultHasher::new();
    value.hash(&mut hasher);
    hasher.finish()
}

#[test]
fn scalars_are_equal_by_content() {
    assert_eq!(Value::Null, Value::Null);
    assert_eq!(Value::Bool(true), Value::Bool(true));
    assert_ne!(Value::Bool(true), Value::Bool(false));
    assert_eq!(Value::Number(3), Value::Number(3));
    assert_ne!(Value::Number(3), Value::Number(-3));
    assert_eq!(text("a"), text("a"));
    assert_ne!(text("a"), text("b"));
    assert_ne!(text("!a"), text("a"));
}

#[test]
fn values_of_different_shapes_differ() {
    let values = [
        Value::Null,
        Value::Bool(false),
        Value::Number(0),
        text(""),
        Value::Sequence(vec![]),
        Value::Mapping(vec![]),
        tagged("t", Value::Null),
    ];
    for (i, a) in values.iter().enumerate() {
        for (j, b) in values.iter().enumerate() {
            assert_eq!(a == b, i == j);
            assert_eq!(a.equals(b), i == j);
        }
    }
}

#[test]
fn sequences_are_equal_item_by_item() {
    let a = Value::Sequence(vec![Value::Number(1), text("x")]);
    assert_eq!(a, Value::Sequence(vec![Value::Number(1), text("x")]));
    assert_ne!(a, Value::Sequence(vec![Value::Number(1)]));
    assert_ne!(a, Value::Sequence(vec![text("x"), Value::Number(1)]));
    assert_ne!(a, Value::Sequence(vec![Value::Number(1), text("y")]));
    assert_ne!(a, Value::Sequence(vec![Value::Number(1), text("x"), Value::Null]));
}

#[test]
fn mappings_are_equal_entry_by_entry() {
    let a = Value::Mapping(vec![(text("k"), text("v")), (text("l"), Value::Null)]);
    assert_eq!(a, Value::Mapping(vec![(text("k"), text("v")), (text("l"), Value::Null)]));
    assert_ne!(a, Value::Mapping(vec![(text("k"), text("v"))]));
    assert_ne!(a, Value::Mapping(vec![(text("k"), text("w")), (text("l"), Value::Null)]));
    assert_ne!(a, Value::Mapping(vec![(text("j"), text("v")), (text("l"), Value::Null)]));
    assert_ne!(a, Value::Mapping(vec![(text("l"), Value::Null), (text("k"), text("v"))]));
}

#[test]
fn tagged_values_are_equal_field_by_field() {
    let a = TaggedValue { tag: Tag::new("Thing"), value: text("x") };
    assert_eq!(a, TaggedValue { tag: Tag::new("Thing"), value: text("x") });
    assert_eq!(a, TaggedValue { tag: Tag::new("!Thing"), value: text("x") });
    assert_ne!(a, TaggedValue { tag: Tag::new("Other"), value: text("x") });
    assert_ne!(a, TaggedValue { tag: Tag::new("Thing"), value: text("y") });
    assert!(a.equals(&TaggedValue { tag: Tag::new("!Thing"), value: text("x") }));
}

#[test]
fn markers_do_not_count_at_any_depth() {
    let a = Value::Sequence(vec![tagged("a", tagged("!b", Value::Null))]);
    let b = Value::Sequence(vec![tagged("!a", tagged("b", Value::Null))]);
    assert_eq!(a, b);
    assert_eq!(hash_value(&a), hash_value(&b));
    let c = Value::Sequence(vec![tagged("!a", tagged("c", Value::Null))]);
    assert_ne!(a, c);
}

#[test]
fn clone_is_equal_to_its_source() {
    let written = Value::Mapping(vec![
        (text("k"), Value::Sequence(vec![Value::Number(1), tagged("!t", Value::Bool(true))])),
        (Value::Null, text("v")),
    ]);
    let copy = written.clone();
    assert_eq!(copy, written);
    let tagged_value = TaggedValue { tag: Tag::new("!Thing"), value: written };
    let copy = tagged_value.clone();
    assert_eq!(copy, tagged_value);
    assert_eq!(copy.tag.as_str(), "!Thing");
}

#[test]
fn tagged_values_order_by_tag_then_value() {
    let a = TaggedValue { tag: Tag::new("!a"), value: Value::Number(2) };
    let b = TaggedValue { tag: Tag::new("b"), value: Value::Number(1) };
    assert!(a < b);
    let c = TaggedValue { tag: Tag::new("a"), value: Value::Number(3) };
    assert!(a < c);
    let d = TaggedValue { tag: Tag::new("a"), value: Value::Number(2) };
    assert!(a <= d && a >= d);
}

#[test]
fn debug_of_a_tagged_value_shows_the_marked_tag() {
    let a = TaggedValue { tag: Tag::new("Thing"), value: Value::Null };
    assert_eq!(format!("{:?}", a), "TaggedValue { tag: !Thing, value: Null }");
}

fn samples() -> Vec<Value> {
    vec![
        Value::Null,
        Value::Bool(false),
        Value::Bool(true),
        Value::Number(-1),
        Value::Number(7),
        text(""),
        text("a"),
        text("ab"),
        text("b"),
        Value::Sequence(vec![]),
        Value::Sequence(vec![Value::Number(1)]),
        Value::Sequence(vec![Value::Number(1), Value::Null]),
        Value::Sequence(vec![Value::Number(2)]),
        Value::Mapping(vec![]),
        Value::Mapping(vec![(text("k"), text("v"))]),
        Value::Mapping(vec![(text("k"), text("v")), (text("a"), Value::Null)]),
        Value::Mapping(vec![(text("k"), text("w"))]),
        Value::Mapping(vec![(text("l"), text("a"))]),
        tagged("a", Value::Number(2)),
        tagged("!a", Value::Number(3)),
        tagged("b", Value::Null),
    ]
}

#[test]
fn samples_are_in_ascending_order() {
    let values = samples();
    for (i, a) in values.iter().enumerate() {
        for (j, b) in values.iter().enumerate() {
            assert_eq!(a.compare(b), i.cmp(&j), "{:?} against {:?}", a, b);
            assert_eq!(a.partial_cmp(b), Some(i.cmp(&j)));
            assert_eq!(a < b, i < j);
            assert_eq!(a >= b, i >= j);
        }
    }
}

#[test]
fn values_order_by_shape_first() {
    assert_eq!(Value::Null.compare(&Value::Bool(false)), Ordering::Less);
    assert_eq!(Value::Bool(true).compare(&Value::Number(i64::MIN)), Ordering::Less);
    assert_eq!(Value::Number(i64::MAX).compare(&text("")), Ordering::Less);
    assert_eq!(text("zzz").compare(&Value::Sequence(vec![])), Ordering::Less);
    assert_eq!(Value::Sequence(vec![text("z")]).compare(&Value::Mapping(vec![])), Ordering::Less);
    assert_eq!(Value::Mapping(vec![]).compare(&tagged("", Value::Null)), Ordering::Less);
    assert_eq!(tagged("", Value::Null).compare(&Value::Null), Ordering::Greater);
}

#[test]
fn order_agrees_with_equality_and_reverses() {
    let mut values = samples();
    values.push(tagged("!b", Value::Null));
    values.push(Value::Sequence(vec![tagged("!a", Value::Number(2))]));
    values.push(Value::Sequence(vec![tagged("a", Value::Number(2))]));
    for a in values.iter() {
        for b in values.iter() {
            assert_eq!(a.compare(b) == Ordering::Equal, a == b);
            assert_eq!(b.compare(a), a.compare(b).reverse());
        }
    }
}

#[test]
fn tagged_values_compare_tag_first() {
    let a = TaggedValue { tag: Tag::new("!a"), value: Value::Number(2) };
    let b = TaggedValue { tag: Tag::new("b"), value: Value::Number(1) };
    let c = TaggedValue { tag: Tag::new("a"), value: Value::Number(3) };
    let d = TaggedValue { tag: Tag::new("a"), value: Value::Number(2) };
    assert_eq!(a.compare(&b), Ordering::Less);
    assert_eq!(b.compare(&a), Ordering::Greater);
    assert_eq!(a.compare(&c), Ordering::Less);
    assert_eq!(a.compare(&d), Ordering::Equal);
    assert_eq!(a.partial_cmp(&d), Some(Ordering::Equal));
}
