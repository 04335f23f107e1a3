//! The value model: scalars, sequences, key-ordered mappings, and values
//! under a tag, with their structural equality.

use crate::tag::Tag;
use vstd::prelude::*;
use vstd::std_specs::cmp::PartialEqSpec;

verus! {

/// A sequence of values.
pub type Sequence = Vec<Value>;

/// A mapping: its entries, key then value, in the order they were written.
pub type Mapping = Vec<(Value, Value)>;

/// Any value: a scalar, a sequence, a mapping, or a value under a tag.
///
/// Values are equal when they have the same shape and the same contents,
/// where the tags inside them count as equal whenever their payloads are.
#[derive(Debug, Hash)]
pub enum Value {
    /// The absent value.
    Null,
    /// A boolean.
    Bool(bool),
    /// An integer.
    Number(i64),
    /// A string.
    String(String),
    /// A sequence of values.
    Sequence(Sequence),
    /// A mapping from values to values.
    Mapping(Mapping),
    /// A value under a tag. The tagged value may itself be tagged.
    Tagged(Box<TaggedValue>),
}

/// A tag together with the value it is attached to.
///
/// Two tagged values are equal when their tags are equal and their values
/// are the same; they order and hash field by field, tag first.
#[derive(Debug, Hash)]
pub struct TaggedValue {
    /// The tag. Its marker, if it has one, does not count.
    pub tag: Tag,
    /// The value under the tag, of any shape.
    pub value: Value,
}

impl Value {
    /// Structural equality: the same shape with the same contents, where
    /// tags count as equal when their payloads are.
    pub open spec fn same(self, other: Value) -> bool
        decreases self,
    {
        match (self, other) {
            (Value::Null, Value::Null) => true,
            (Value::Bool(a), Value::Bool(b)) => a == b,
            (Value::Number(a), Value::Number(b)) => a == b,
            (Value::String(a), Value::String(b)) => a@ == b@,
            (Value::Sequence(a), Value::Sequence(b)) => same_items(a, b),
            (Value::Mapping(a), Value::Mapping(b)) => same_entries(a, b),
            (Value::Tagged(a), Value::Tagged(b)) => a.same(*b),
            _ => false,
        }
    }

    /// The same shape and the same contents, tags by their spelling: what a
    /// copy is to the value it was made from.
    pub open spec fn identical(self, other: Value) -> bool
        decreases self,
    {
        match (self, other) {
            (Value::Null, Value::Null) => true,
            (Value::Bool(a), Value::Bool(b)) => a == b,
            (Value::Number(a), Value::Number(b)) => a == b,
            (Value::String(a), Value::String(b)) => a@ == b@,
            (Value::Sequence(a), Value::Sequence(b)) => identical_items(a, b),
            (Value::Mapping(a), Value::Mapping(b)) => identical_entries(a, b),
            (Value::Tagged(a), Value::Tagged(b)) => a.tag@ == b.tag@ && a.value.identical(
                b.value,
            ),
            _ => false,
        }
    }

    /// Computes structural equality.
    pub fn equals(&self, other: &Value) -> (same: bool)
        ensures
            same == self.same(*other),
        decreases *self, 0nat,
    {
        match (self, other) {
            (Value::Null, Value::Null) => true,
            (Value::Bool(a), Value::Bool(b)) => *a == *b,
            (Value::Number(a), Value::Number(b)) => *a == *b,
            (Value::String(a), Value::String(b)) => *a == *b,
            (Value::Sequence(a), Value::Sequence(b)) => {
                if a.len() != b.len() {
                    return false;
                }
                let mut i: usize = 0;
                while i < a.len()
                    invariant
                        *self == Value::Sequence(*a),
                        *other == Value::Sequence(*b),
                        a.len() == b.len(),
                        i <= a.len(),
                        forall|j: int| 0 <= j < i ==> (#[trigger] a[j]).same(b[j]),
                    decreases a.len() - i,
                {
                    proof {
                        assert(decreases_to!(*self => self->Sequence_0));
                        assert(decreases_to!(*a => a[i as int]));
                    }
                    if !a[i].equals(&b[i]) {
                        assert(!a[i as int].same(b[i as int]));
                        return false;
                    }
                    i += 1;
                }
                true
            },
            (Value::Mapping(a), Value::Mapping(b)) => {
                if a.len() != b.len() {
                    return false;
                }
                let mut i: usize = 0;
                while i < a.len()
                    invariant
                        *self == Value::Mapping(*a),
                        *other == Value::Mapping(*b),
                        a.len() == b.len(),
                        i <= a.len(),
                        forall|j: int|
                            0 <= j < i ==> (#[trigger] a[j]).0.same(b[j].0) && a[j].1.same(b[j].1),
                    decreases a.len() - i,
                {
                    proof {
                        assert(decreases_to!(*self => self->Mapping_0));
                        assert(decreases_to!(*a => a[i as int]));
                    }
                    if !a[i].0.equals(&b[i].0) || !a[i].1.equals(&b[i].1) {
                        assert(!(a[i as int].0.same(b[i as int].0) && a[i as int].1.same(
                            b[i as int].1,
                        )));
                        return false;
                    }
                    i += 1;
                }
                true
            },
            (Value::Tagged(a), Value::Tagged(b)) => a.equals(b),
            _ => false,
        }
    }
}

/// Two sequences are the same when they are equally long and agree item by
/// item.
pub open spec fn same_items(a: Sequence, b: Sequence) -> bool
    decreases a,
{
    &&& a.len() == b.len()
    &&& forall|i: int| 0 <= i < a.len() ==> (#[trigger] a[i]).same(b[i])
}

/// Two sequences are identical when they are equally long and identical
/// item by item.
pub open spec fn identical_items(a: Sequence, b: Sequence) -> bool
    decreases a,
{
    &&& a.len() == b.len()
    &&& forall|i: int| 0 <= i < a.len() ==> (#[trigger] a[i]).identical(b[i])
}

/// Two mappings are identical when they have equally many entries and are
/// identical entry by entry, in order, in key and value.
pub open spec fn identical_entries(a: Mapping, b: Mapping) -> bool
    decreases a,
{
    &&& a.len() == b.len()
    &&& forall|i: int|
        0 <= i < a.len() ==> (#[trigger] a[i]).0.identical(b[i].0) && a[i].1.identical(b[i].1)
}

/// Two mappings are the same when they have equally many entries and agree
/// entry by entry, in order, on key and value.
pub open spec fn same_entries(a: Mapping, b: Mapping) -> bool
    decreases a,
{
    &&& a.len() == b.len()
    &&& forall|i: int| 0 <= i < a.len() ==> (#[trigger] a[i]).0.same(b[i].0) && a[i].1.same(b[i].1)
}

impl TaggedValue {
    /// Field by field: equal tags, then the same value.
    pub open spec fn same(self, other: TaggedValue) -> bool
        decreases self,
    {
        self.tag.eq_spec(&other.tag) && self.value.same(other.value)
    }

    /// Computes equality field by field, tag first.
    pub fn equals(&self, other: &TaggedValue) -> (same: bool)
        ensures
            same == self.same(*other),
        decreases *self, 1nat,
    {
        self.tag == other.tag && self.value.equals(&other.value)
    }
}

impl Clone for Value {
    /// A deep copy: the same shape, contents and tag spellings, built anew.
    fn clone(&self) -> (copy: Value)
        ensures
            copy.identical(*self),
            copy.same(*self),
        decreases *self, 0nat,
    {
        let copy = match self {
            Value::Null => Value::Null,
            Value::Bool(b) => Value::Bool(*b),
            Value::Number(n) => Value::Number(*n),
            Value::String(s) => Value::String(s.clone()),
            Value::Sequence(items) => {
                let mut copies: Vec<Value> = Vec::new();
                let mut i: usize = 0;
                while i < items.len()
                    invariant
                        *self == Value::Sequence(*items),
                        i <= items.len(),
                        copies.len() == i,
                        forall|j: int| 0 <= j < i ==> (#[trigger] copies[j]).identical(items[j]),
                    decreases items.len() - i,
                {
                    proof {
                        assert(decreases_to!(*self => self->Sequence_0));
                        assert(decreases_to!(*items => items[i as int]));
                    }
                    copies.push(items[i].clone());
                    i += 1;
                }
                assert(identical_items(copies, *items));
                Value::Sequence(copies)
            },
            Value::Mapping(entries) => {
                let mut copies: Vec<(Value, Value)> = Vec::new();
                let mut i: usize = 0;
                while i < entries.len()
                    invariant
                        *self == Value::Mapping(*entries),
                        i <= entries.len(),
                        copies.len() == i,
                        forall|j: int|
                            0 <= j < i ==> (#[trigger] copies[j]).0.identical(entries[j].0)
                                && copies[j].1.identical(entries[j].1),
                    decreases entries.len() - i,
                {
                    proof {
                        assert(decreases_to!(*self => self->Mapping_0));
                        assert(decreases_to!(*entries => entries[i as int]));
                    }
                    copies.push((entries[i].0.clone(), entries[i].1.clone()));
                    i += 1;
                }
                assert(identical_entries(copies, *entries));
                Value::Mapping(copies)
            },
            Value::Tagged(tagged) => Value::Tagged(Box::new((&**tagged).clone())),
        };
        proof {
            lemma_identical_is_same(copy, *self);
        }
        copy
    }
}

impl Clone for TaggedValue {
    /// A deep copy: the same tag spelling on a copy of the value.
    fn clone(&self) -> (copy: TaggedValue)
        ensures
            copy.tag == self.tag,
            copy.value.identical(self.value),
            copy.same(*self),
        decreases *self, 1nat,
    {
        TaggedValue { tag: self.tag.clone(), value: self.value.clone() }
    }
}

impl PartialEq for Value {
    fn eq(&self, other: &Value) -> (same: bool) {
        self.equals(other)
    }
}

impl vstd::std_specs::cmp::PartialEqSpecImpl for Value {
    open spec fn obeys_eq_spec() -> bool {
        true
    }

    open spec fn eq_spec(&self, other: &Value) -> bool {
        self.same(*other)
    }
}

impl PartialEq for TaggedValue {
    fn eq(&self, other: &TaggedValue) -> (same: bool) {
        self.equals(other)
    }
}

impl vstd::std_specs::cmp::PartialEqSpecImpl for TaggedValue {
    open spec fn obeys_eq_spec() -> bool {
        true
    }

    open spec fn eq_spec(&self, other: &TaggedValue) -> bool {
        self.same(*other)
    }
}

/// Identical values are the same: equal spellings have equal payloads.
pub proof fn lemma_identical_is_same(a: Value, b: Value)
    requires
        a.identical(b),
    ensures
        a.same(b),
    decreases a,
{
    match (a, b) {
        (Value::Sequence(xs), Value::Sequence(ys)) => {
            assert(identical_items(xs, ys));
            assert forall|i: int| 0 <= i < xs.len() implies (#[trigger] xs[i]).same(ys[i]) by {
                assert(decreases_to!(a => a->Sequence_0));
                assert(decreases_to!(xs => xs[i]));
                assert(xs[i].identical(ys[i]));
                lemma_identical_is_same(xs[i], ys[i]);
            }
        },
        (Value::Mapping(xs), Value::Mapping(ys)) => {
            assert(identical_entries(xs, ys));
            assert forall|i: int| 0 <= i < xs.len() implies (#[trigger] xs[i]).0.same(ys[i].0)
                && xs[i].1.same(ys[i].1) by {
                assert(decreases_to!(a => a->Mapping_0));
                assert(decreases_to!(xs => xs[i]));
                assert(xs[i].0.identical(ys[i].0) && xs[i].1.identical(ys[i].1));
                lemma_identical_is_same(xs[i].0, ys[i].0);
                lemma_identical_is_same(xs[i].1, ys[i].1);
            }
        },
        (Value::Tagged(x), Value::Tagged(y)) => {
            lemma_identical_is_same(x.value, y.value);
        },
        _ => {},
    }
}

/// Every value is the same as itself.
pub proof fn lemma_same_reflexive(v: Value)
    ensures
        v.same(v),
    decreases v,
{
    match v {
        Value::Sequence(items) => {
            assert forall|i: int| 0 <= i < items.len() implies (#[trigger] items[i]).same(
                items[i],
            ) by {
                assert(decreases_to!(v => v->Sequence_0));
                assert(decreases_to!(items => items[i]));
                lemma_same_reflexive(items[i]);
            }
        },
        Value::Mapping(entries) => {
            assert forall|i: int| 0 <= i < entries.len() implies (#[trigger] entries[i]).0.same(
                entries[i].0,
            ) && entries[i].1.same(entries[i].1) by {
                assert(decreases_to!(v => v->Mapping_0));
                assert(decreases_to!(entries => entries[i]));
                lemma_same_reflexive(entries[i].0);
                lemma_same_reflexive(entries[i].1);
            }
        },
        Value::Tagged(tagged) => {
            lemma_same_reflexive(tagged.value);
        },
        _ => {},
    }
}

/// Sameness does not depend on the side from which one looks.
pub proof fn lemma_same_symmetric(a: Value, b: Value)
    ensures
        a.same(b) == b.same(a),
    decreases a,
{
    match (a, b) {
        (Value::Sequence(xs), Value::Sequence(ys)) => {
            if xs.len() == ys.len() {
                assert forall|i: int| 0 <= i < xs.len() implies (#[trigger] xs[i]).same(ys[i])
                    == ys[i].same(xs[i]) by {
                    assert(decreases_to!(a => a->Sequence_0));
                    assert(decreases_to!(xs => xs[i]));
                    lemma_same_symmetric(xs[i], ys[i]);
                }
                if a.same(b) {
                    assert forall|i: int| 0 <= i < ys.len() implies (#[trigger] ys[i]).same(
                        xs[i],
                    ) by {
                        assert(xs[i].same(ys[i]));
                    }
                }
                if b.same(a) {
                    assert forall|i: int| 0 <= i < xs.len() implies (#[trigger] xs[i]).same(
                        ys[i],
                    ) by {
                        assert(ys[i].same(xs[i]));
                    }
                }
            }
        },
        (Value::Mapping(xs), Value::Mapping(ys)) => {
            if xs.len() == ys.len() {
                assert forall|i: int| 0 <= i < xs.len() implies (#[trigger] xs[i]).0.same(ys[i].0)
                    == ys[i].0.same(xs[i].0) && xs[i].1.same(ys[i].1) == ys[i].1.same(xs[i].1) by {
                    assert(decreases_to!(a => a->Mapping_0));
                    assert(decreases_to!(xs => xs[i]));
                    lemma_same_symmetric(xs[i].0, ys[i].0);
                    lemma_same_symmetric(xs[i].1, ys[i].1);
                }
                if a.same(b) {
                    assert forall|i: int| 0 <= i < ys.len() implies (#[trigger] ys[i]).0.same(
                        xs[i].0,
                    ) && ys[i].1.same(xs[i].1) by {
                        assert(xs[i].0.same(ys[i].0) && xs[i].1.same(ys[i].1));
                    }
                }
                if b.same(a) {
                    assert forall|i: int| 0 <= i < xs.len() implies (#[trigger] xs[i]).0.same(
                        ys[i].0,
                    ) && xs[i].1.same(ys[i].1) by {
                        assert(ys[i].0.same(xs[i].0) && ys[i].1.same(xs[i].1));
                    }
                }
            }
        },
        (Value::Tagged(x), Value::Tagged(y)) => {
            lemma_same_symmetric(x.value, y.value);
        },
        _ => {},
    }
}

/// Sameness carries over: what is the same as a second value, which is the
/// same as a third, is the same as the third.
pub proof fn lemma_same_transitive(a: Value, b: Value, c: Value)
    requires
        a.same(b),
        b.same(c),
    ensures
        a.same(c),
    decreases a,
{
    match (a, b, c) {
        (Value::Sequence(xs), Value::Sequence(ys), Value::Sequence(zs)) => {
            assert forall|i: int| 0 <= i < xs.len() implies (#[trigger] xs[i]).same(zs[i]) by {
                assert(decreases_to!(a => a->Sequence_0));
                assert(decreases_to!(xs => xs[i]));
                assert(xs[i].same(ys[i]));
                assert(ys[i].same(zs[i]));
                lemma_same_transitive(xs[i], ys[i], zs[i]);
            }
        },
        (Value::Mapping(xs), Value::Mapping(ys), Value::Mapping(zs)) => {
            assert forall|i: int| 0 <= i < xs.len() implies (#[trigger] xs[i]).0.same(zs[i].0)
                && xs[i].1.same(zs[i].1) by {
                assert(decreases_to!(a => a->Mapping_0));
                assert(decreases_to!(xs => xs[i]));
                assert(xs[i].0.same(ys[i].0) && xs[i].1.same(ys[i].1));
                assert(ys[i].0.same(zs[i].0) && ys[i].1.same(zs[i].1));
                lemma_same_transitive(xs[i].0, ys[i].0, zs[i].0);
                lemma_same_transitive(xs[i].1, ys[i].1, zs[i].1);
            }
        },
        (Value::Tagged(x), Value::Tagged(y), Value::Tagged(z)) => {
            lemma_same_transitive(x.value, y.value, z.value);
        },
        _ => {},
    }
}

/// Equality of tagged values is an equivalence: every tagged value is equal
/// to itself, equality holds from both sides or from neither, and it
/// carries over a value in the middle.
pub proof fn law_tagged_equality(a: TaggedValue, b: TaggedValue, c: TaggedValue)
    ensures
        a.same(a),
        a.same(b) == b.same(a),
        a.same(b) && b.same(c) ==> a.same(c),
{
    lemma_same_reflexive(a.value);
    lemma_same_symmetric(a.value, b.value);
    if a.same(b) && b.same(c) {
        lemma_same_transitive(a.value, b.value, c.value);
    }
}

} // verus!
