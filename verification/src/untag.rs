//! Untagging: from a value under any number of tags to the value beneath
//! them all, by value, by reference, or by mutable reference.

use crate::tag::Tag;
use crate::value::TaggedValue;
use crate::value::Value;
use vstd::prelude::*;

verus! {

impl Value {
    /// The base of a value: the first value that is not tagged, found by
    /// taking tags off from the outside in. An untagged value is its own base.
    pub open spec fn base(self) -> Value
        decreases self,
    {
        match self {
            Value::Tagged(tagged) => tagged.value.base(),
            _ => self,
        }
    }

    /// The number of tags above the base.
    pub open spec fn depth(self) -> nat
        decreases self,
    {
        match self {
            Value::Tagged(tagged) => tagged.value.depth() + 1,
            _ => 0,
        }
    }

    /// The value with the same tags in the same order, above another base.
    pub open spec fn with_base(self, base: Value) -> Value
        decreases self,
    {
        match self {
            Value::Tagged(tagged) => Value::Tagged(
                Box::new(TaggedValue { tag: tagged.tag, value: tagged.value.with_base(base) }),
            ),
            _ => base,
        }
    }

    /// The value found under the first `n` tags.
    spec fn peel(self, n: nat) -> Value
        decreases n,
    {
        if n == 0 {
            self
        } else {
            match self {
                Value::Tagged(tagged) => tagged.value.peel((n - 1) as nat),
                _ => self,
            }
        }
    }

    /// The value with what lies under its first `n` tags replaced by `inner`.
    spec fn graft(self, n: nat, inner: Value) -> Value
        decreases n,
    {
        if n == 0 {
            inner
        } else {
            match self {
                Value::Tagged(tagged) => Value::Tagged(
                    Box::new(
                        TaggedValue {
                            tag: tagged.tag,
                            value: tagged.value.graft((n - 1) as nat, inner),
                        },
                    ),
                ),
                _ => inner,
            }
        }
    }

    /// Takes every tag off and hands over the base.
    pub fn untag(self) -> (base: Value)
        ensures
            base == self.base(),
            !(base is Tagged),
    {
        let mut cur = self;
        loop
            invariant
                cur.base() == self.base(),
            decreases cur.depth(),
        {
            match cur {
                Value::Tagged(tagged) => {
                    cur = tagged.value;
                },
                other => {
                    return other;
                },
            }
        }
    }

    /// Looks through every tag at the base.
    pub fn untag_ref(&self) -> (base: &Value)
        ensures
            *base == self.base(),
            !(*base is Tagged),
    {
        let mut cur = self;
        loop
            invariant
                cur.base() == self.base(),
            decreases cur.depth(),
        {
            match cur {
                Value::Tagged(tagged) => {
                    cur = &tagged.value;
                },
                other => {
                    return other;
                },
            }
        }
    }

    /// Reaches through every tag for the base, to change it in place. The
    /// tags stay as they are: afterwards the value is its old tags above
    /// whatever the caller left in the base.
    pub fn untag_mut(&mut self) -> (base: &mut Value)
        ensures
            *base == old(self).base(),
            !(*base is Tagged),
            *final(self) == old(self).with_base(*final(base)),
    {
        let mut cur = self;
        let ghost mut n: nat = 0;
        loop
            invariant
                n <= old(self).depth(),
                *cur == old(self).peel(n),
                *final(self) == old(self).graft(n, *final(cur)),
            decreases old(self).depth() - n,
        {
            let ghost settled = *final(cur);
            match cur {
                Value::Tagged(tagged) => {
                    cur = &mut tagged.value;
                    proof {
                        lemma_peel_one_more(*old(self), n, settled);
                        n = n + 1;
                    }
                },
                other => {
                    proof {
                        lemma_peel_to_base(*old(self), n, settled);
                    }
                    return other;
                },
            }
        }
    }
}

/// Under `n` tags lies a tagged value: grafting a value with that tag is
/// grafting its contents one level further down.
proof fn lemma_peel_one_more(v: Value, n: nat, x: Value)
    requires
        n <= v.depth(),
        v.peel(n) is Tagged,
        x is Tagged,
        x->Tagged_0.tag == v.peel(n)->Tagged_0.tag,
    ensures
        n + 1 <= v.depth(),
        v.peel(n + 1) == v.peel(n)->Tagged_0.value,
        v.graft(n, x) == v.graft(n + 1, x->Tagged_0.value),
    decreases n,
{
    reveal_with_fuel(Value::peel, 2);
    reveal_with_fuel(Value::graft, 2);
    if n > 0 {
        match v {
            Value::Tagged(tagged) => {
                lemma_peel_one_more(tagged.value, (n - 1) as nat, x);
            },
            _ => {},
        }
    }
}

/// Under `n` tags lies an untagged value: it is the base, `n` is the depth,
/// and grafting there replaces the base.
proof fn lemma_peel_to_base(v: Value, n: nat, x: Value)
    requires
        n <= v.depth(),
        !(v.peel(n) is Tagged),
    ensures
        n == v.depth(),
        v.peel(n) == v.base(),
        v.graft(n, x) == v.with_base(x),
    decreases n,
{
    if n > 0 {
        match v {
            Value::Tagged(tagged) => {
                lemma_peel_to_base(tagged.value, (n - 1) as nat, x);
            },
            _ => {},
        }
    }
}

/// The value `base` under the tags of `tags`, the first of them outermost.
pub open spec fn wrapped(tags: Seq<Tag>, base: Value) -> Value
    decreases tags.len(),
{
    if tags.len() == 0 {
        base
    } else {
        Value::Tagged(
            Box::new(TaggedValue { tag: tags[0], value: wrapped(tags.drop_first(), base) }),
        )
    }
}

/// Untagging is idempotent: a base is never tagged, and it is its own base.
pub proof fn law_untag_idempotent(v: Value)
    ensures
        !(v.base() is Tagged),
        v.base().base() == v.base(),
        v.base().depth() == 0,
    decreases v,
{
    match v {
        Value::Tagged(tagged) => {
            law_untag_idempotent(tagged.value);
        },
        _ => {},
    }
}

/// An untagged value is its own base, and replacing its base replaces it.
pub proof fn law_untagged_is_base(v: Value, other: Value)
    requires
        !(v is Tagged),
    ensures
        v.base() == v,
        v.depth() == 0,
        v.with_base(other) == other,
{
}

/// Any chain of tags around an untagged value comes off whole: the base of
/// the wrapped value is exactly that value, under as many tags as the chain
/// is long.
pub proof fn law_untag_chain(tags: Seq<Tag>, base: Value)
    requires
        !(base is Tagged),
    ensures
        wrapped(tags, base).base() == base,
        wrapped(tags, base).depth() == tags.len(),
    decreases tags.len(),
{
    if tags.len() > 0 {
        law_untag_chain(tags.drop_first(), base);
    }
}

/// Replacing the base keeps the tags: the new value is the same chain of
/// tags around the new base, so when the new base is untagged, untagging
/// again gives it back, and putting the old base back changes nothing.
pub proof fn law_with_base(v: Value, replacement: Value)
    ensures
        v.with_base(v.base()) == v,
        v.with_base(replacement).base() == replacement.base(),
        !(replacement is Tagged) ==> v.with_base(replacement).depth() == v.depth(),
    decreases v,
{
    match v {
        Value::Tagged(tagged) => {
            law_with_base(tagged.value, replacement);
        },
        _ => {},
    }
}

} // verus!
