//! Tags: type discriminators written with an optional leading `!`.
//!
//! A tag keeps the spelling it was made with. Its identity is its payload:
//! the spelling without one leading `!`. Equality, ordering, hashing and
//! rendering all go by the payload, so `Thing` and `!Thing` are one tag.

use std::cmp::Ordering;
use vstd::prelude::*;
use vstd::std_specs::cmp::PartialEqSpec;
use vstd::std_specs::cmp::PartialOrdSpec;
use vstd::string::StrSliceExecFns;
use vstd::string::StringExecFns;

verus! {

/// The payload of a spelling: the spelling without its first character when
/// that character is `!`, the whole spelling otherwise. At most one `!` goes.
pub open spec fn strip_marker(s: Seq<char>) -> Seq<char> {
    if s.len() > 0 && s[0] == '!' {
        s.subrange(1, s.len() as int)
    } else {
        s
    }
}

/// The rendering of a spelling: one `!`, then the payload.
pub open spec fn with_marker(s: Seq<char>) -> Seq<char> {
    seq!['!'] + strip_marker(s)
}

/// The number of a character in the Unicode code charts.
pub open spec fn code_point(c: char) -> int {
    c as int
}

/// Lexicographic order of two character sequences by code point: the first
/// position at which they differ decides, and a proper prefix comes first.
pub open spec fn lex_order(a: Seq<char>, b: Seq<char>) -> Ordering
    decreases a.len(),
{
    if a.len() == 0 {
        if b.len() == 0 {
            Ordering::Equal
        } else {
            Ordering::Less
        }
    } else if b.len() == 0 {
        Ordering::Greater
    } else if code_point(a[0]) < code_point(b[0]) {
        Ordering::Less
    } else if code_point(a[0]) > code_point(b[0]) {
        Ordering::Greater
    } else {
        lex_order(a.drop_first(), b.drop_first())
    }
}

/// The order seen from the other side.
pub open spec fn reversed(order: Ordering) -> Ordering {
    match order {
        Ordering::Less => Ordering::Greater,
        Ordering::Equal => Ordering::Equal,
        Ordering::Greater => Ordering::Less,
    }
}

/// Trusted: `String::from` on a `&str`. std documents it as converting the
/// slice into an owned string; the claim is that the characters are kept.
pub assume_specification<'a>[ <std::string::String as std::convert::From<&'a str>>::from ](
    s: &str,
) -> (r: std::string::String)
    ensures
        r@ == s@,
;

/// Trusted: the reflexive `From::from`. std documents it as returning its
/// argument unchanged.
pub assume_specification<T>[ <T as std::convert::From<T>>::from ](t: T) -> (r: T)
    ensures
        r == t,
;

/// Trusted: `==` on `str`. std compares the two slices' contents; the claim
/// is that the result is equality of the character sequences.
#[verifier::external_body]
fn str_eq(a: &str, b: &str) -> (same: bool)
    ensures
        same == (a@ == b@),
{
    a == b
}

/// Trusted: `Ord::cmp` on `str`. std documents the order as lexicographic by
/// byte values, which orders code points by their positions in the code
/// charts; the claim is that the result is `lex_order` of the characters.
#[verifier::external_body]
pub(crate) fn str_order(a: &str, b: &str) -> (order: Ordering)
    ensures
        order == lex_order(a@, b@),
{
    a.cmp(b)
}

/// Trusted: `Hash::hash` on `str`. Feeds the string to the hasher. What a
/// hasher holds is not modelled, so nothing is claimed of its state.
#[verifier::external_body]
fn hash_str<H: std::hash::Hasher>(s: &str, state: &mut H) {
    std::hash::Hash::hash(s, state)
}

/// Trusted: `std::fmt::Formatter`, carried through to `write_str`.
#[verifier::external_type_specification]
#[verifier::external_body]
pub struct ExFormatter<'a>(std::fmt::Formatter<'a>);

/// Trusted: `std::fmt::Error`, the error of a formatting sink.
#[verifier::external_type_specification]
#[verifier::external_body]
pub struct ExFmtError(std::fmt::Error);

/// Trusted: `Formatter::write_str`. Writes the text to the sink and reports
/// the sink's failure. What a formatter holds is not modelled, so nothing is
/// claimed of the outcome.
#[verifier::external_body]
fn write_text(formatter: &mut std::fmt::Formatter<'_>, text: &str) -> (done: Result<
    (),
    std::fmt::Error,
>) {
    formatter.write_str(text)
}

/// Removes at most one leading `!`.
pub fn nobang(maybe_banged: &str) -> (payload: &str)
    ensures
        payload@ == strip_marker(maybe_banged@),
{
    let n: usize = maybe_banged.unicode_len();
    if n > 0 && maybe_banged.get_char(0) == '!' {
        maybe_banged.substring_char(1, n)
    } else {
        maybe_banged
    }
}

/// A type discriminator such as `!Thing`.
///
/// The leading `!` is not significant: `Tag::new("Thing")` and
/// `Tag::new("!Thing")` are equal, order alike, hash alike and render alike.
pub struct Tag {
    pub(crate) string: String,
}

impl View for Tag {
    type V = Seq<char>;

    /// The spelling the tag was made with, marker included if it had one.
    open spec fn view(&self) -> Seq<char> {
        self.spelling()@
    }
}

impl Tag {
    /// The stored string.
    pub closed spec fn spelling(self) -> String {
        self.string
    }

    /// The identity of the tag: its spelling without one leading `!`.
    pub open spec fn payload(self) -> Seq<char> {
        strip_marker(self@)
    }

    /// Makes a tag that stores the conversion of `string` verbatim, marker or
    /// not. For a `&str` or a `String` argument the stored spelling has the
    /// argument's characters.
    pub fn new(string: impl Into<String>) -> (tag: Tag)
        ensures
            call_ensures(Into::<String>::into, (string,), tag.spelling()),
    {
        Tag { string: string.into() }
    }

    /// The spelling the tag was made with.
    pub fn as_str(&self) -> (spelling: &str)
        ensures
            spelling@ == self@,
    {
        self.string.as_str()
    }

    /// Orders two tags by their payloads, lexicographically.
    pub fn cmp(&self, other: &Tag) -> (order: Ordering)
        ensures
            order == lex_order(self.payload(), other.payload()),
    {
        str_order(nobang(&self.string), nobang(&other.string))
    }

    /// The tag as it is written out: always exactly one `!`, then the payload.
    pub fn marked(&self) -> (text: String)
        ensures
            text@ == with_marker(self@),
    {
        proof {
            reveal_strlit("!");
        }
        let mut text = String::from_str("!");
        text.append(nobang(&self.string));
        assert(text@ =~= with_marker(self@));
        text
    }
}

impl Clone for Tag {
    /// A copy with the same spelling.
    fn clone(&self) -> (copy: Tag)
        ensures
            copy == *self,
    {
        Tag { string: self.string.clone() }
    }
}

impl PartialEq for Tag {
    fn eq(&self, other: &Tag) -> (same: bool) {
        str_eq(nobang(&self.string), nobang(&other.string))
    }
}

impl vstd::std_specs::cmp::PartialEqSpecImpl for Tag {
    open spec fn obeys_eq_spec() -> bool {
        true
    }

    open spec fn eq_spec(&self, other: &Tag) -> bool {
        self.payload() == other.payload()
    }
}

impl Eq for Tag {

}

impl PartialEq<str> for Tag {
    fn eq(&self, other: &str) -> (same: bool) {
        str_eq(nobang(&self.string), nobang(other))
    }
}

impl vstd::std_specs::cmp::PartialEqSpecImpl<str> for Tag {
    open spec fn obeys_eq_spec() -> bool {
        true
    }

    open spec fn eq_spec(&self, other: &str) -> bool {
        self.payload() == strip_marker(other@)
    }
}

impl<'a> PartialEq<&'a str> for Tag {
    fn eq(&self, other: &&'a str) -> (same: bool) {
        str_eq(nobang(&self.string), nobang(*other))
    }
}

impl<'a> vstd::std_specs::cmp::PartialEqSpecImpl<&'a str> for Tag {
    open spec fn obeys_eq_spec() -> bool {
        true
    }

    open spec fn eq_spec(&self, other: &&'a str) -> bool {
        self.payload() == strip_marker((*other)@)
    }
}

impl PartialEq<String> for Tag {
    fn eq(&self, other: &String) -> (same: bool) {
        str_eq(nobang(&self.string), nobang(other.as_str()))
    }
}

impl vstd::std_specs::cmp::PartialEqSpecImpl<String> for Tag {
    open spec fn obeys_eq_spec() -> bool {
        true
    }

    open spec fn eq_spec(&self, other: &String) -> bool {
        self.payload() == strip_marker(other@)
    }
}

impl PartialOrd for Tag {
    fn partial_cmp(&self, other: &Tag) -> (order: Option<Ordering>) {
        Some(self.cmp(other))
    }
}

impl vstd::std_specs::cmp::PartialOrdSpecImpl for Tag {
    open spec fn obeys_partial_cmp_spec() -> bool {
        true
    }

    open spec fn partial_cmp_spec(&self, other: &Tag) -> Option<Ordering> {
        Some(lex_order(self.payload(), other.payload()))
    }
}

impl std::hash::Hash for Tag {
    /// Hashes the payload, so that equal tags feed a hasher the same string.
    fn hash<H: std::hash::Hasher>(&self, hasher: &mut H) {
        hash_str(nobang(&self.string), hasher)
    }
}

impl std::fmt::Debug for Tag {
    /// Writes `marked()`: one `!`, then the payload.
    fn fmt(&self, formatter: &mut std::fmt::Formatter<'_>) -> (done: Result<(), std::fmt::Error>) {
        let text = self.marked();
        write_text(formatter, text.as_str())
    }
}

/// A sequence is equal to itself in the lexicographic order.
pub proof fn lemma_lex_order_reflexive(a: Seq<char>)
    ensures
        lex_order(a, a) == Ordering::Equal,
    decreases a.len(),
{
    if a.len() > 0 {
        lemma_lex_order_reflexive(a.drop_first());
    }
}

/// Two sequences compare as equal exactly when they are the same sequence.
pub proof fn lemma_lex_order_equal(a: Seq<char>, b: Seq<char>)
    ensures
        lex_order(a, b) == Ordering::Equal <==> a == b,
    decreases a.len(),
{
    if a == b {
        lemma_lex_order_reflexive(a);
    } else if a.len() == 0 || b.len() == 0 {
        assert(a.len() != b.len()) by {
            if a.len() == b.len() {
                assert(a =~= b);
            }
        }
    } else if a[0] == b[0] {
        lemma_lex_order_equal(a.drop_first(), b.drop_first());
        if a.drop_first() == b.drop_first() {
            assert(a =~= seq![a[0]] + a.drop_first());
            assert(b =~= seq![b[0]] + b.drop_first());
        }
    }
}

/// Swapping the two sequences reverses the order.
pub proof fn lemma_lex_order_reversed(a: Seq<char>, b: Seq<char>)
    ensures
        lex_order(b, a) == reversed(lex_order(a, b)),
    decreases a.len(),
{
    if a.len() > 0 && b.len() > 0 && a[0] == b[0] {
        lemma_lex_order_reversed(a.drop_first(), b.drop_first());
    }
}

/// The lexicographic order is transitive, and strict where one step is.
pub proof fn lemma_lex_order_transitive(a: Seq<char>, b: Seq<char>, c: Seq<char>)
    requires
        lex_order(a, b) != Ordering::Greater,
        lex_order(b, c) != Ordering::Greater,
    ensures
        lex_order(a, c) != Ordering::Greater,
        lex_order(a, b) == Ordering::Less || lex_order(b, c) == Ordering::Less ==> lex_order(a, c)
            == Ordering::Less,
    decreases a.len(),
{
    if a.len() > 0 && b.len() > 0 && c.len() > 0 && a[0] == b[0] && b[0] == c[0] {
        lemma_lex_order_transitive(a.drop_first(), b.drop_first(), c.drop_first());
    }
}

/// Rendering and reading back keeps the payload: the payload of
/// `with_marker(s)` is the payload of `s`.
pub proof fn lemma_marker_round_trip(s: Seq<char>)
    ensures
        strip_marker(with_marker(s)) == strip_marker(s),
        with_marker(with_marker(s)) == with_marker(s),
{
    assert(strip_marker(with_marker(s)) =~= strip_marker(s));
}

/// The marker is not significant: a tag whose spelling does not start with
/// `!` is equal to the tag spelled with one `!` more, in both directions, and
/// the two order as equal.
///
/// A spelling that already starts with `!` is left out: putting a second `!`
/// before it makes a tag with another payload, since only one is stripped.
pub proof fn law_marker_insensitive(plain: Tag, marked: Tag)
    requires
        plain@.len() == 0 || plain@[0] != '!',
        marked@ == seq!['!'] + plain@,
    ensures
        plain.eq_spec(&marked),
        marked.eq_spec(&plain),
        plain.partial_cmp_spec(&marked) == Some(Ordering::Equal),
        marked.partial_cmp_spec(&plain) == Some(Ordering::Equal),
        with_marker(plain@) == with_marker(marked@),
{
    assert(strip_marker(marked@) =~= plain@);
    lemma_lex_order_reflexive(plain@);
}

/// Equal tags cannot be told apart: they order as equal, they order alike
/// against every third tag, they are equal to the same tags, they hand a
/// hasher the same payload, and they render alike.
pub proof fn law_equal_tags_alike(a: Tag, b: Tag, c: Tag)
    requires
        a.eq_spec(&b),
    ensures
        b.eq_spec(&a),
        a.partial_cmp_spec(&b) == Some(Ordering::Equal),
        a.partial_cmp_spec(&c) == b.partial_cmp_spec(&c),
        c.partial_cmp_spec(&a) == c.partial_cmp_spec(&b),
        a.eq_spec(&c) == b.eq_spec(&c),
        a.payload() == b.payload(),
        with_marker(a@) == with_marker(b@),
{
    lemma_lex_order_reflexive(a.payload());
}

/// The order of tags is a total order that agrees with their equality: two
/// tags order as equal exactly when they are equal, swapping them reverses
/// the order, and the order is transitive.
pub proof fn law_tag_order_total(a: Tag, b: Tag, c: Tag)
    ensures
        a.partial_cmp_spec(&b) == Some(Ordering::Equal) <==> a.eq_spec(&b),
        b.partial_cmp_spec(&a) == Some(reversed(lex_order(a.payload(), b.payload()))),
        a.partial_cmp_spec(&b) != Some(Ordering::Greater) && b.partial_cmp_spec(&c) != Some(
            Ordering::Greater,
        ) ==> a.partial_cmp_spec(&c) != Some(Ordering::Greater),
{
    lemma_lex_order_equal(a.payload(), b.payload());
    lemma_lex_order_reversed(a.payload(), b.payload());
    if lex_order(a.payload(), b.payload()) != Ordering::Greater && lex_order(
        b.payload(),
        c.payload(),
    ) != Ordering::Greater {
        lemma_lex_order_transitive(a.payload(), b.payload(), c.payload());
    }
}

} // verus!
