use serde::de::value::Error as SerdeError;
use serde::de::value::MapDeserializer;
use serde::de::value::SeqDeserializer;
use serde::de::value::StrDeserializer;
use serde::de::value::StringDeserializer;
use serde::de::DeserializeSeed;
use serde::de::EnumAccess;
use serde::de::MapAccess;
use serde::de::SeqAccess;
use serde::de::VariantAccess;
use serde::de::Visitor;
use std::fmt;
use tagged_value::value::TaggedValue;
use tagged_value::value::Value;

fn text(s: &str) -> Value {
    Value::String(String::from(s))
}

fn string_of(value: Value) -> String {
    match value {
        Value::String(s) => s,
        other => panic!("not a string: {:?}", other),
    }
}

/// A tagged value, offered to a consumer as an enum.
struct Access(TaggedValue);

/// The value under the tag, offered as the content of the variant.
struct Contents(Value);

impl<'de> EnumAccess<'de> for Access {
    type Error = SerdeError;
    type Variant = Contents;

    fn variant_seed<S>(self, seed: S) -> Result<(S::Value, Contents), SerdeError>
    where
        S: DeserializeSeed<'de>,
    {
        let name = StrDeserializer::<SerdeError>::new(self.0.discriminator());
        let picked = seed.deserialize(name)?;
        Ok((picked, Contents(self.0.value)))
    }
}

impl<'de> VariantAccess<'de> for Contents {
    type Error = SerdeError;

    fn unit_variant(self) -> Result<(), SerdeError> {
        match self.0 {
            Value::Null => Ok(()),
            other => Err(serde::de::Error::custom(format!("not a unit: {:?}", other))),
        }
    }

    fn newtype_variant_seed<S>(self, seed: S) -> Result<S::Value, SerdeError>
    where
        S: DeserializeSeed<'de>,
    {
        match self.0 {
            Value::String(s) => seed.deserialize(StringDeserializer::<SerdeError>::new(s)),
            Value::Sequence(items) => seed.deserialize(SeqDeserializer::<_, SerdeError>::new(
                items.into_iter().map(string_of),
            )),
            other => Err(serde::de::Error::custom(format!("not used here: {:?}", other))),
        }
    }

    fn tuple_variant<V>(self, len: usize, visitor: V) -> Result<V::Value, SerdeError>
    where
        V: Visitor<'de>,
    {
        match self.0.tuple_variant(len) {
            Ok(items) => visitor.visit_seq(SeqDeserializer::<_, SerdeError>::new(
                items.into_iter().map(string_of),
            )),
            Err(error) => Err(serde::de::Error::custom(error.message)),
        }
    }

    fn struct_variant<V>(
        self,
        fields: &'static [&'static str],
        visitor: V,
    ) -> Result<V::Value, SerdeError>
    where
        V: Visitor<'de>,
    {
        match self.0.struct_variant(fields) {
            Ok(entries) => visitor.visit_map(MapDeserializer::<_, SerdeError>::new(
                entries.into_iter().map(|(k, v)| (string_of(k), string_of(v))),
            )),
            Err(error) => Err(serde::de::Error::custom(error.message)),
        }
    }
}

#[derive(Debug, PartialEq)]
enum Scalar {
    Thing(String),
}

#[derive(Debug, PartialEq)]
enum List {
    Thing(Vec<String>),
}

#[derive(Debug, PartialEq)]
enum Shapes {
    Empty,
    Pair(String, String),
    Named { k: String },
}

struct ScalarVisitor;

impl<'de> Visitor<'de> for ScalarVisitor {
    type Value = Scalar;

    fn expecting(&self, formatter: &mut fmt::Formatter<'_>) -> fmt::Result {
        formatter.write_str("enum Scalar")
    }

    fn visit_enum<A>(self, data: A) -> Result<Scalar, A::Error>
    where
        A: EnumAccess<'de>,
    {
        let (name, contents) = data.variant::<String>()?;
        match name.as_str() {
            "Thing" => Ok(Scalar::Thing(contents.newtype_variant::<String>()?)),
            other => Err(serde::de::Error::unknown_variant(other, &["Thing"])),
        }
    }
}

struct ListVisitor;

impl<'de> Visitor<'de> for ListVisitor {
    type Value = List;

    fn expecting(&self, formatter: &mut fmt::Formatter<'_>) -> fmt::Result {
        formatter.write_str("enum List")
    }

    fn visit_enum<A>(self, data: A) -> Result<List, A::Error>
    where
        A: EnumAccess<'de>,
    {
        let (name, contents) = data.variant::<String>()?;
        match name.as_str() {
            "Thing" => Ok(List::Thing(contents.newtype_variant::<Vec<String>>()?)),
            other => Err(serde::de::Error::unknown_variant(other, &["Thing"])),
        }
    }
}

struct PairVisitor;

impl<'de> Visitor<'de> for PairVisitor {
    type Value = Shapes;

    fn expecting(&self, formatter: &mut fmt::Formatter<'_>) -> fmt::Result {
        formatter.write_str("tuple variant Shapes::Pair")
    }

    fn visit_seq<A>(self, mut seq: A) -> Result<Shapes, A::Error>
    where
        A: SeqAccess<'de>,
    {
        let first = match seq.next_element::<String>()? {
            Some(first) => first,
            None => return Err(serde::de::Error::invalid_length(0, &self)),
        };
        let second = match seq.next_element::<String>()? {
            Some(second) => second,
            None => return Err(serde::de::Error::invalid_length(1, &self)),
        };
        Ok(Shapes::Pair(first, second))
    }
}

struct NamedVisitor;

impl<'de> Visitor<'de> for NamedVisitor {
    type Value = Shapes;

    fn expecting(&self, formatter: &mut fmt::Formatter<'_>) -> fmt::Result {
        formatter.write_str("struct variant Shapes::Named")
    }

    fn visit_map<A>(self, mut map: A) -> Result<Shapes, A::Error>
    where
        A: MapAccess<'de>,
    {
        let mut k = None;
        while let Some((key, value)) = map.next_entry::<String, String>()? {
            if key == "k" {
                k = Some(value);
            }
        }
        match k {
            Some(k) => Ok(Shapes::Named { k }),
            None => Err(serde::de::Error::missing_field("k")),
        }
    }
}

struct ShapesVisitor;

impl<'de> Visitor<'de> for ShapesVisitor {
    type Value = Shapes;

    fn expecting(&self, formatter: &mut fmt::Formatter<'_>) -> fmt::Result {
        formatter.write_str("enum Shapes")
    }

    fn visit_enum<A>(self, data: A) -> Result<Shapes, A::Error>
    where
        A: EnumAccess<'de>,
    {
        let (name, contents) = data.variant::<String>()?;
        match name.as_str() {
            "Empty" => contents.unit_variant().map(|()| Shapes::Empty),
            "Pair" => contents.tuple_variant(2, PairVisitor),
            "Named" => contents.struct_variant(&["k"], NamedVisitor),
            other => Err(serde::de::Error::unknown_variant(other, &["Empty", "Pair", "Named"])),
        }
    }
}

#[test]
fn tagged_scalar_deserializes_as_a_newtype_variant() {
    let input = TaggedValue::from_entry(String::from("!Thing"), text("x"));
    assert_eq!(ScalarVisitor.visit_enum(Access(input)), Ok(Scalar::Thing("x".to_string())));
}

#[test]
fn tagged_sequence_deserializes_as_a_newtype_variant() {
    let input = TaggedValue::from_entry(
        String::from("!Thing"),
        Value::Sequence(vec![text("first")]),
    );
    assert_eq!(
        ListVisitor.visit_enum(Access(input)),
        Ok(List::Thing(vec!["first".to_string()]))
    );
}

#[test]
fn variant_is_picked_with_or_without_marker() {
    for key in ["Thing", "!Thing"] {
        let input = TaggedValue::from_entry(String::from(key), text("x"));
        assert_eq!(ScalarVisitor.visit_enum(Access(input)), Ok(Scalar::Thing("x".to_string())));
    }
    let input = TaggedValue::from_entry(String::from("!!Thing"), text("x"));
    let error = ScalarVisitor.visit_enum(Access(input)).unwrap_err();
    assert_eq!(error.to_string(), "unknown variant `!Thing`, expected `Thing`");
}

#[test]
fn tuple_variant_is_read_from_a_sequence() {
    let input = TaggedValue::from_entry(
        String::from("!Pair"),
        Value::Sequence(vec![text("a"), text("b")]),
    );
    assert_eq!(
        ShapesVisitor.visit_enum(Access(input)),
        Ok(Shapes::Pair("a".to_string(), "b".to_string()))
    );
}

#[test]
fn tuple_variant_of_a_mapping_is_a_shape_mismatch() {
    let input = TaggedValue::from_entry(
        String::from("!Pair"),
        Value::Mapping(vec![(text("k"), text("v"))]),
    );
    let error = ShapesVisitor.visit_enum(Access(input)).unwrap_err();
    assert_eq!(error.to_string(), "invalid type: map, expected tuple variant");
}

#[test]
fn struct_variant_is_read_from_a_mapping() {
    let input = TaggedValue::from_entry(
        String::from("Named"),
        Value::Mapping(vec![(text("k"), text("v"))]),
    );
    assert_eq!(ShapesVisitor.visit_enum(Access(input)), Ok(Shapes::Named { k: "v".to_string() }));
}

#[test]
fn struct_variant_of_a_sequence_is_a_shape_mismatch() {
    let input = TaggedValue::from_entry(
        String::from("Named"),
        Value::Sequence(vec![text("v")]),
    );
    let error = ShapesVisitor.visit_enum(Access(input)).unwrap_err();
    assert_eq!(error.to_string(), "invalid type: sequence, expected struct variant");
}

#[test]
fn unit_variant_is_read_from_the_value_itself() {
    let input = TaggedValue::from_entry(String::from("!Empty"), Value::Null);
    assert_eq!(ShapesVisitor.visit_enum(Access(input)), Ok(Shapes::Empty));
}
