//! The order of values: by shape first, then by contents, with sequences
//! and mappings compared item by item and tagged values tag first.

use crate::tag::lemma_lex_order_equal;
use crate::tag::lemma_lex_order_reversed;
use crate::tag::lemma_lex_order_transitive;
use crate::tag::lex_order;
use crate::tag::reversed;
use crate::tag::str_order;
use crate::value::lemma_same_transitive;
use crate::value::Mapping;
use crate::value::Sequence;
use crate::value::TaggedValue;
use crate::value::Value;
use std::cmp::Ordering;
use vstd::prelude::*;
use vstd::std_specs::cmp::PartialEqSpec;
use vstd::std_specs::cmp::PartialOrdSpec;

verus! {

/// A position in a sequence, as a mathematical integer.
spec fn position(i: usize) -> int {
    i as int
}

impl Value {
    /// The place of the value's shape among the shapes: scalars first, in
    /// the order null, boolean, number, string; then sequences, mappings and
    /// tagged values.
    pub open spec fn rank(self) -> int {
        match self {
            Value::Null => 0,
            Value::Bool(_) => 1,
            Value::Number(_) => 2,
            Value::String(_) => 3,
            Value::Sequence(_) => 4,
            Value::Mapping(_) => 5,
            Value::Tagged(_) => 6,
        }
    }

    /// The order of two values. Values of different shapes order by shape.
    /// Of two booleans `false` comes first; numbers order by size; strings
    /// order lexicographically by code point; sequences and mappings order
    /// lexicographically by their items; tagged values order by tag, then by
    /// value.
    pub open spec fn order(self, other: Value) -> Ordering
        decreases self, 0int,
    {
        if self.rank() < other.rank() {
            Ordering::Less
        } else if self.rank() > other.rank() {
            Ordering::Greater
        } else {
            match (self, other) {
                (Value::Bool(a), Value::Bool(b)) => if a == b {
                    Ordering::Equal
                } else if b {
                    Ordering::Less
                } else {
                    Ordering::Greater
                },
                (Value::Number(a), Value::Number(b)) => if a < b {
                    Ordering::Less
                } else if a > b {
                    Ordering::Greater
                } else {
                    Ordering::Equal
                },
                (Value::String(a), Value::String(b)) => lex_order(a@, b@),
                (Value::Sequence(a), Value::Sequence(b)) => items_order(a, b, 0),
                (Value::Mapping(a), Value::Mapping(b)) => entries_order(a, b, 0),
                (Value::Tagged(a), Value::Tagged(b)) => a.order(*b),
                _ => Ordering::Equal,
            }
        }
    }

    /// The place of the value's shape among the shapes.
    fn shape_rank(&self) -> (rank: u8)
        ensures
            rank == self.rank(),
    {
        match self {
            Value::Null => 0,
            Value::Bool(_) => 1,
            Value::Number(_) => 2,
            Value::String(_) => 3,
            Value::Sequence(_) => 4,
            Value::Mapping(_) => 5,
            Value::Tagged(_) => 6,
        }
    }

    /// Computes the order of two values.
    pub fn compare(&self, other: &Value) -> (order: Ordering)
        ensures
            order == self.order(*other),
        decreases *self, 0nat,
    {
        match (self, other) {
            (Value::Null, Value::Null) => Ordering::Equal,
            (Value::Bool(a), Value::Bool(b)) => {
                if *a == *b {
                    Ordering::Equal
                } else if *b {
                    Ordering::Less
                } else {
                    Ordering::Greater
                }
            },
            (Value::Number(a), Value::Number(b)) => {
                if *a < *b {
                    Ordering::Less
                } else if *a > *b {
                    Ordering::Greater
                } else {
                    Ordering::Equal
                }
            },
            (Value::String(a), Value::String(b)) => str_order(a.as_str(), b.as_str()),
            (Value::Sequence(a), Value::Sequence(b)) => {
                let mut i: usize = 0;
                loop
                    invariant
                        *self == Value::Sequence(*a),
                        *other == Value::Sequence(*b),
                        i <= a.len(),
                        i <= b.len(),
                        items_order(*a, *b, 0) == items_order(*a, *b, position(i)),
                    decreases a.len() - i,
                {
                    if i >= a.len() || i >= b.len() {
                        return lengths_order(a.len(), b.len());
                    }
                    proof {
                        assert(decreases_to!(*self => self->Sequence_0));
                        assert(decreases_to!(*a => a[position(i)]));
                    }
                    let first = a[i].compare(&b[i]);
                    match first {
                        Ordering::Equal => {},
                        _ => {
                            return first;
                        },
                    }
                    i += 1;
                }
            },
            (Value::Mapping(a), Value::Mapping(b)) => {
                let mut i: usize = 0;
                loop
                    invariant
                        *self == Value::Mapping(*a),
                        *other == Value::Mapping(*b),
                        i <= a.len(),
                        i <= b.len(),
                        entries_order(*a, *b, 0) == entries_order(*a, *b, position(i)),
                    decreases a.len() - i,
                {
                    if i >= a.len() || i >= b.len() {
                        return lengths_order(a.len(), b.len());
                    }
                    proof {
                        assert(decreases_to!(*self => self->Mapping_0));
                        assert(decreases_to!(*a => a[position(i)]));
                    }
                    let key = a[i].0.compare(&b[i].0);
                    match key {
                        Ordering::Equal => {},
                        _ => {
                            return key;
                        },
                    }
                    let value = a[i].1.compare(&b[i].1);
                    match value {
                        Ordering::Equal => {},
                        _ => {
                            return value;
                        },
                    }
                    i += 1;
                }
            },
            (Value::Tagged(a), Value::Tagged(b)) => a.compare(b),
            _ => {
                if self.shape_rank() < other.shape_rank() {
                    Ordering::Less
                } else {
                    Ordering::Greater
                }
            },
        }
    }
}

/// The order of two lengths.
pub open spec fn length_order(a: int, b: int) -> Ordering {
    if a < b {
        Ordering::Less
    } else if a > b {
        Ordering::Greater
    } else {
        Ordering::Equal
    }
}

/// Computes the order of two lengths.
fn lengths_order(a: usize, b: usize) -> (order: Ordering)
    ensures
        order == length_order(position(a), position(b)),
{
    if a < b {
        Ordering::Less
    } else if a > b {
        Ordering::Greater
    } else {
        Ordering::Equal
    }
}

/// The order of two sequences from position `from` on: the first pair of
/// items that differ decides, and where one sequence ends first, the
/// shorter comes first.
pub open spec fn items_order(a: Sequence, b: Sequence, from: int) -> Ordering
    decreases a, a.len() - from,
{
    if from < 0 || from >= a.len() || from >= b.len() {
        length_order(a.len() + 0, b.len() + 0)
    } else {
        let first = a[from].order(b[from]);
        if first == Ordering::Equal {
            items_order(a, b, from + 1)
        } else {
            first
        }
    }
}

/// The order of two mappings from position `from` on: the first pair of
/// entries that differ decides, by key and then by value, and where one
/// mapping ends first, the shorter comes first.
pub open spec fn entries_order(a: Mapping, b: Mapping, from: int) -> Ordering
    decreases a, a.len() - from,
{
    if from < 0 || from >= a.len() || from >= b.len() {
        length_order(a.len() + 0, b.len() + 0)
    } else {
        let key = a[from].0.order(b[from].0);
        let value = a[from].1.order(b[from].1);
        if key != Ordering::Equal {
            key
        } else if value != Ordering::Equal {
            value
        } else {
            entries_order(a, b, from + 1)
        }
    }
}

impl TaggedValue {
    /// Field by field: the order of the tags, and for equal tags the order
    /// of the values.
    pub open spec fn order(self, other: TaggedValue) -> Ordering
        decreases self, 1int,
    {
        let tags = lex_order(self.tag.payload(), other.tag.payload());
        if tags == Ordering::Equal {
            self.value.order(other.value)
        } else {
            tags
        }
    }

    /// Computes the order field by field, tag first.
    pub fn compare(&self, other: &TaggedValue) -> (order: Ordering)
        ensures
            order == self.order(*other),
        decreases *self, 1nat,
    {
        let tags = self.tag.cmp(&other.tag);
        match tags {
            Ordering::Equal => self.value.compare(&other.value),
            _ => tags,
        }
    }
}

impl PartialOrd for Value {
    fn partial_cmp(&self, other: &Value) -> (order: Option<Ordering>) {
        Some(self.compare(other))
    }
}

impl vstd::std_specs::cmp::PartialOrdSpecImpl for Value {
    open spec fn obeys_partial_cmp_spec() -> bool {
        true
    }

    open spec fn partial_cmp_spec(&self, other: &Value) -> Option<Ordering> {
        Some(self.order(*other))
    }
}

impl PartialOrd for TaggedValue {
    fn partial_cmp(&self, other: &TaggedValue) -> (order: Option<Ordering>) {
        Some(self.compare(other))
    }
}

impl vstd::std_specs::cmp::PartialOrdSpecImpl for TaggedValue {
    open spec fn obeys_partial_cmp_spec() -> bool {
        true
    }

    open spec fn partial_cmp_spec(&self, other: &TaggedValue) -> Option<Ordering> {
        Some(self.order(*other))
    }
}

/// Two values order as equal exactly when they are the same.
pub proof fn lemma_order_equal(a: Value, b: Value)
    ensures
        a.order(b) == Ordering::Equal <==> a.same(b),
    decreases a, 0int,
{
    match (a, b) {
        (Value::String(x), Value::String(y)) => {
            lemma_lex_order_equal(x@, y@);
        },
        (Value::Sequence(x), Value::Sequence(y)) => {
            lemma_items_order_equal(x, y, 0);
        },
        (Value::Mapping(x), Value::Mapping(y)) => {
            lemma_entries_order_equal(x, y, 0);
        },
        (Value::Tagged(x), Value::Tagged(y)) => {
            lemma_lex_order_equal(x.tag.payload(), y.tag.payload());
            lemma_order_equal(x.value, y.value);
        },
        _ => {},
    }
}

/// Two sequences order as equal from a position on exactly when they are
/// equally long and agree from that position on.
pub proof fn lemma_items_order_equal(a: Sequence, b: Sequence, from: int)
    requires
        0 <= from,
    ensures
        items_order(a, b, from) == Ordering::Equal <==> a.len() == b.len() && forall|i: int|
            from <= i < a.len() ==> (#[trigger] a[i]).same(b[i]),
    decreases a, a.len() - from,
{
    if from < a.len() && from < b.len() {
        lemma_order_equal(a[from], b[from]);
        lemma_items_order_equal(a, b, from + 1);
        if a[from].same(b[from]) && items_order(a, b, from + 1) == Ordering::Equal {
            assert forall|i: int| from <= i < a.len() implies (#[trigger] a[i]).same(b[i]) by {
                if i > from {
                    assert(from + 1 <= i);
                }
            }
        }
    }
}

/// Two mappings order as equal from a position on exactly when they have
/// equally many entries and agree from that position on.
pub proof fn lemma_entries_order_equal(a: Mapping, b: Mapping, from: int)
    requires
        0 <= from,
    ensures
        entries_order(a, b, from) == Ordering::Equal <==> a.len() == b.len() && forall|i: int|
            from <= i < a.len() ==> (#[trigger] a[i]).0.same(b[i].0) && a[i].1.same(b[i].1),
    decreases a, a.len() - from,
{
    if from < a.len() && from < b.len() {
        assert(decreases_to!(a => a[from]));
        lemma_order_equal(a[from].0, b[from].0);
        lemma_order_equal(a[from].1, b[from].1);
        lemma_entries_order_equal(a, b, from + 1);
        if a[from].0.same(b[from].0) && a[from].1.same(b[from].1) && entries_order(a, b, from + 1)
            == Ordering::Equal {
            assert forall|i: int| from <= i < a.len() implies (#[trigger] a[i]).0.same(b[i].0)
                && a[i].1.same(b[i].1) by {
                if i > from {
                    assert(from + 1 <= i);
                }
            }
        }
    }
}

/// Swapping two values reverses their order.
pub proof fn lemma_order_reversed(a: Value, b: Value)
    ensures
        b.order(a) == reversed(a.order(b)),
    decreases a, 0int,
{
    match (a, b) {
        (Value::String(x), Value::String(y)) => {
            lemma_lex_order_reversed(x@, y@);
        },
        (Value::Sequence(x), Value::Sequence(y)) => {
            lemma_items_order_reversed(x, y, 0);
        },
        (Value::Mapping(x), Value::Mapping(y)) => {
            lemma_entries_order_reversed(x, y, 0);
        },
        (Value::Tagged(x), Value::Tagged(y)) => {
            lemma_lex_order_reversed(x.tag.payload(), y.tag.payload());
            lemma_order_reversed(x.value, y.value);
        },
        _ => {},
    }
}

/// Swapping two sequences reverses their order from any position on.
pub proof fn lemma_items_order_reversed(a: Sequence, b: Sequence, from: int)
    requires
        0 <= from,
    ensures
        items_order(b, a, from) == reversed(items_order(a, b, from)),
    decreases a, a.len() - from,
{
    if from < a.len() && from < b.len() {
        lemma_order_reversed(a[from], b[from]);
        lemma_items_order_reversed(a, b, from + 1);
    }
}

/// Swapping two mappings reverses their order from any position on.
pub proof fn lemma_entries_order_reversed(a: Mapping, b: Mapping, from: int)
    requires
        0 <= from,
    ensures
        entries_order(b, a, from) == reversed(entries_order(a, b, from)),
    decreases a, a.len() - from,
{
    if from < a.len() && from < b.len() {
        assert(decreases_to!(a => a[from]));
        lemma_order_reversed(a[from].0, b[from].0);
        lemma_order_reversed(a[from].1, b[from].1);
        lemma_entries_order_reversed(a, b, from + 1);
    }
}

/// The order of values is transitive, and strict where one step is.
pub proof fn lemma_order_transitive(a: Value, b: Value, c: Value)
    requires
        a.order(b) != Ordering::Greater,
        b.order(c) != Ordering::Greater,
    ensures
        a.order(c) != Ordering::Greater,
        a.order(b) == Ordering::Less || b.order(c) == Ordering::Less ==> a.order(c)
            == Ordering::Less,
    decreases a, 0int,
{
    match (a, b, c) {
        (Value::String(x), Value::String(y), Value::String(z)) => {
            lemma_lex_order_transitive(x@, y@, z@);
        },
        (Value::Sequence(x), Value::Sequence(y), Value::Sequence(z)) => {
            lemma_items_order_transitive(x, y, z, 0);
        },
        (Value::Mapping(x), Value::Mapping(y), Value::Mapping(z)) => {
            lemma_entries_order_transitive(x, y, z, 0);
        },
        (Value::Tagged(x), Value::Tagged(y), Value::Tagged(z)) => {
            let xy = lex_order(x.tag.payload(), y.tag.payload());
            let yz = lex_order(y.tag.payload(), z.tag.payload());
            lemma_lex_order_transitive(x.tag.payload(), y.tag.payload(), z.tag.payload());
            if xy == Ordering::Equal && yz == Ordering::Equal {
                lemma_lex_order_equal(x.tag.payload(), y.tag.payload());
                lemma_lex_order_equal(y.tag.payload(), z.tag.payload());
                lemma_lex_order_equal(x.tag.payload(), z.tag.payload());
                lemma_order_transitive(x.value, y.value, z.value);
            }
        },
        _ => {},
    }
}

/// Values that order as equal to a value in the middle order as equal.
proof fn lemma_order_equal_transitive(a: Value, b: Value, c: Value)
    requires
        a.order(b) == Ordering::Equal,
        b.order(c) == Ordering::Equal,
    ensures
        a.order(c) == Ordering::Equal,
{
    lemma_order_equal(a, b);
    lemma_order_equal(b, c);
    lemma_order_equal(a, c);
    lemma_same_transitive(a, b, c);
}

/// The order of sequences from a position on is transitive, and strict where
/// one step is.
pub proof fn lemma_items_order_transitive(a: Sequence, b: Sequence, c: Sequence, from: int)
    requires
        0 <= from,
        items_order(a, b, from) != Ordering::Greater,
        items_order(b, c, from) != Ordering::Greater,
    ensures
        items_order(a, c, from) != Ordering::Greater,
        items_order(a, b, from) == Ordering::Less || items_order(b, c, from) == Ordering::Less
            ==> items_order(a, c, from) == Ordering::Less,
    decreases a, a.len() - from,
{
    if from < a.len() && from < b.len() && from < c.len() {
        let ab = a[from].order(b[from]);
        let bc = b[from].order(c[from]);
        lemma_order_transitive(a[from], b[from], c[from]);
        if ab == Ordering::Equal && bc == Ordering::Equal {
            lemma_order_equal_transitive(a[from], b[from], c[from]);
            lemma_items_order_transitive(a, b, c, from + 1);
        }
    }
}

/// The order of mappings from a position on is transitive, and strict where
/// one step is.
pub proof fn lemma_entries_order_transitive(a: Mapping, b: Mapping, c: Mapping, from: int)
    requires
        0 <= from,
        entries_order(a, b, from) != Ordering::Greater,
        entries_order(b, c, from) != Ordering::Greater,
    ensures
        entries_order(a, c, from) != Ordering::Greater,
        entries_order(a, b, from) == Ordering::Less || entries_order(b, c, from) == Ordering::Less
            ==> entries_order(a, c, from) == Ordering::Less,
    decreases a, a.len() - from,
{
    if from < a.len() && from < b.len() && from < c.len() {
        assert(decreases_to!(a => a[from]));
        let keys_ab = a[from].0.order(b[from].0);
        let keys_bc = b[from].0.order(c[from].0);
        lemma_order_transitive(a[from].0, b[from].0, c[from].0);
        if keys_ab == Ordering::Equal && keys_bc == Ordering::Equal {
            lemma_order_equal_transitive(a[from].0, b[from].0, c[from].0);
            let values_ab = a[from].1.order(b[from].1);
            let values_bc = b[from].1.order(c[from].1);
            lemma_order_transitive(a[from].1, b[from].1, c[from].1);
            if values_ab == Ordering::Equal && values_bc == Ordering::Equal {
                lemma_order_equal_transitive(a[from].1, b[from].1, c[from].1);
                lemma_entries_order_transitive(a, b, c, from + 1);
            }
        }
    }
}

/// The order of tagged values is a total order that agrees with their
/// equality: two tagged values order as equal exactly when they are equal,
/// swapping them reverses the order, and the order is transitive.
pub proof fn law_tagged_order(a: TaggedValue, b: TaggedValue, c: TaggedValue)
    ensures
        a.partial_cmp_spec(&b) == Some(Ordering::Equal) <==> a.eq_spec(&b),
        b.partial_cmp_spec(&a) == Some(reversed(a.order(b))),
        a.partial_cmp_spec(&b) != Some(Ordering::Greater) && b.partial_cmp_spec(&c) != Some(
            Ordering::Greater,
        ) ==> a.partial_cmp_spec(&c) != Some(Ordering::Greater),
{
    lemma_lex_order_equal(a.tag.payload(), b.tag.payload());
    lemma_order_equal(a.value, b.value);
    lemma_lex_order_reversed(a.tag.payload(), b.tag.payload());
    lemma_order_reversed(a.value, b.value);
    if a.order(b) != Ordering::Greater && b.order(c) != Ordering::Greater {
        lemma_order_transitive(
            Value::Tagged(Box::new(a)),
            Value::Tagged(Box::new(b)),
            Value::Tagged(Box::new(c)),
        );
    }
}

} // verus!
