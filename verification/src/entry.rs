//! The written form of a tagged value: one mapping entry, keyed by the tag
//! with its marker, holding the value.

use crate::tag::lemma_marker_round_trip;
use crate::tag::with_marker;
use crate::tag::Tag;
use crate::value::lemma_same_symmetric;
use crate::value::TaggedValue;
use crate::value::Value;
use vstd::prelude::*;

verus! {

impl TaggedValue {
    /// The entry that the tagged value is written as. Its key always starts
    /// with exactly one `!`, whether or not the tag was spelled with one;
    /// its value is the tagged value's own.
    pub fn entry(&self) -> (entry: (String, &Value))
        ensures
            entry.0@ == with_marker(self.tag@),
            *entry.1 == self.value,
    {
        (self.tag.marked(), &self.value)
    }

    /// The tagged value that an entry is read as. The key becomes the tag as
    /// it stands, with or without a marker, and the value goes under it.
    pub fn from_entry(key: String, value: Value) -> (tagged: TaggedValue)
        ensures
            tagged.tag@ == key@,
            tagged.value == value,
    {
        TaggedValue { tag: Tag::new(key), value }
    }
}

/// Writing a tagged value and reading it back gives an equal tagged value:
/// whatever is read from the key that `entry` writes, over the same value,
/// is equal to what was written, in both directions.
pub proof fn law_entry_round_trip(written: TaggedValue, read: TaggedValue)
    requires
        read.tag@ == with_marker(written.tag@),
        read.value.same(written.value),
    ensures
        read.same(written),
        written.same(read),
{
    lemma_marker_round_trip(written.tag@);
    lemma_same_symmetric(read.value, written.value);
}

} // verus!
