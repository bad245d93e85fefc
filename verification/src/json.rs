//! JSON text: the values a record can carry, the `serde_json` objects that
//! hold them, and the rendering of members into objects and arrays.
//!
//! Escaping of strings, the parsing of stored field buffers and the storage
//! of additional fields are `serde_json`'s. What this module assumes of it is
//! stated on the trusted items below; everything else is proved.

use vstd::prelude::*;
use vstd::string::StringSliceAdditionalSpecFns;
use crate::order::{key_order, keys_wf, lemma_key_order_unique, members_list};

verus! {

/// `serde_json::Map`, the object type that holds additional fields.
#[verifier::external_type_specification]
#[verifier::external_body]
#[verifier::reject_recursive_types(K)]
#[verifier::reject_recursive_types(V)]
pub struct ExJsonMap<K, V>(serde_json::Map<K, V>);

/// `serde_json::Value`, which occurs only as the value type of the map.
#[verifier::external_type_specification]
#[verifier::external_body]
pub struct ExJsonValue(serde_json::Value);

/// The hexadecimal digit of a number below sixteen, in lower case.
pub open spec fn hex_digit(n: int) -> char {
    if n < 10 {
        ('0' as u32 + n) as char
    } else {
        ('a' as u32 + n - 10) as char
    }
}

/// A character as it stands in a JSON string: the quote and the backslash
/// behind a backslash; backspace, tab, line feed, form feed and carriage
/// return as `\b`, `\t`, `\n`, `\f` and `\r`; any other character below
/// the space as `\u00` and its two hexadecimal digits; every other
/// character as it is.
pub open spec fn escaped(c: char) -> Seq<char> {
    let code = c as u32;
    if c == '"' {
        seq!['\\', '"']
    } else if c == '\\' {
        seq!['\\', '\\']
    } else if code == 0x08 {
        seq!['\\', 'b']
    } else if code == 0x09 {
        seq!['\\', 't']
    } else if code == 0x0a {
        seq!['\\', 'n']
    } else if code == 0x0c {
        seq!['\\', 'f']
    } else if code == 0x0d {
        seq!['\\', 'r']
    } else if code < 0x20 {
        seq!['\\', 'u', '0', '0', hex_digit(code as int / 16), hex_digit(code as int % 16)]
    } else {
        seq![c]
    }
}

/// The characters of a text as they stand in a JSON string.
pub open spec fn escaped_text(text: Seq<char>) -> Seq<char>
    decreases text.len(),
{
    if text.len() == 0 {
        Seq::empty()
    } else {
        escaped_text(text.drop_last()) + escaped(text.last())
    }
}

/// The JSON text of a string: its characters, escaped, between two quotes.
pub open spec fn quoted(text: Seq<char>) -> Seq<char> {
    seq!['"'] + escaped_text(text) + seq!['"']
}

/// What an object holds: for each key, the compact JSON text of its value.
pub uninterp spec fn object_members(
    object: serde_json::Map<String, serde_json::Value>,
) -> Map<Seq<char>, Seq<char>>;

/// The keys of an object in the order in which the object is walked.
pub uninterp spec fn object_keys(object: serde_json::Map<String, serde_json::Value>) -> Seq<
    Seq<char>,
>;

/// `keys_wf` of what an object holds.
pub open spec fn object_wf(object: serde_json::Map<String, serde_json::Value>) -> bool {
    keys_wf(object_keys(object), object_members(object))
}

/// The members of an object as a list of pairs of key and value text, in
/// the order in which the object is walked.
pub open spec fn object_list(object: serde_json::Map<String, serde_json::Value>) -> Seq<
    (Seq<char>, Seq<char>),
> {
    Seq::new(
        object_keys(object).len(),
        |i: int| (object_keys(object)[i], object_members(object)[object_keys(object)[i]]),
    )
}

/// An object is walked in the order in which its members are written.
pub proof fn lemma_object_list(object: serde_json::Map<String, serde_json::Value>)
    requires
        object_wf(object),
    ensures
        object_keys(object) == key_order(object_members(object)),
        object_list(object) == members_list(object_members(object)),
{
    let members = object_members(object);
    assert(keys_wf(object_keys(object), members));
    lemma_key_order_unique(object_keys(object), key_order(members), members);
    assert(object_list(object) =~= members_list(members));
}

/// A value of a field.
#[derive(Clone, Debug)]
pub enum FieldValue {
    Text(String),
    /// A whole number.
    Number(i64),
    Bool(bool),
    Null,
    /// Any other JSON value, a nested one or a number that is not whole,
    /// given by its JSON text. It is kept as the string of that text.
    Other(String),
}

/// One member of a JSON object that is being written: its key, unescaped,
/// and the JSON text of its value.
#[derive(Clone, Debug)]
pub struct Member {
    pub key: String,
    pub text: String,
}

impl View for Member {
    type V = (Seq<char>, Seq<char>);

    open spec fn view(&self) -> (Seq<char>, Seq<char>) {
        (self.key@, self.text@)
    }
}

/// The views of a list of members.
pub open spec fn members_view(members: Seq<Member>) -> Seq<(Seq<char>, Seq<char>)> {
    members.map_values(|m: Member| m@)
}

/// The text of one decimal digit.
pub open spec fn digit_text(d: int) -> Seq<char> {
    if d == 0 {
        "0"@
    } else if d == 1 {
        "1"@
    } else if d == 2 {
        "2"@
    } else if d == 3 {
        "3"@
    } else if d == 4 {
        "4"@
    } else if d == 5 {
        "5"@
    } else if d == 6 {
        "6"@
    } else if d == 7 {
        "7"@
    } else if d == 8 {
        "8"@
    } else {
        "9"@
    }
}

/// The decimal text of a natural number, without leading zeros.
pub open spec fn decimal_nat(n: nat) -> Seq<char>
    decreases n,
{
    if n < 10 {
        digit_text(n as int)
    } else {
        decimal_nat(n / 10) + digit_text((n % 10) as int)
    }
}

/// The decimal text of an integer, with a minus sign when it is negative.
pub open spec fn decimal(n: int) -> Seq<char> {
    if n < 0 {
        "-"@ + decimal_nat((-n) as nat)
    } else {
        decimal_nat(n as nat)
    }
}

/// The JSON text of a boolean.
pub open spec fn bool_text(b: bool) -> Seq<char> {
    if b {
        "true"@
    } else {
        "false"@
    }
}

/// The JSON text of a field value.
pub open spec fn value_text(value: FieldValue) -> Seq<char> {
    match value {
        FieldValue::Text(s) => quoted(s@),
        FieldValue::Number(n) => decimal(n as int),
        FieldValue::Bool(b) => bool_text(b),
        FieldValue::Null => "null"@,
        FieldValue::Other(s) => quoted(s@),
    }
}

/// The text of one member: the quoted key, a colon, the value.
pub open spec fn member_text(member: (Seq<char>, Seq<char>)) -> Seq<char> {
    quoted(member.0) + ":"@ + member.1
}

/// The texts of the members, separated by commas.
pub open spec fn members_text(members: Seq<(Seq<char>, Seq<char>)>) -> Seq<char>
    decreases members.len(),
{
    if members.len() == 0 {
        Seq::empty()
    } else if members.len() == 1 {
        member_text(members[0])
    } else {
        members_text(members.drop_last()) + ","@ + member_text(members.last())
    }
}

/// The text of an object with the given members, in their order.
pub open spec fn object_text(members: Seq<(Seq<char>, Seq<char>)>) -> Seq<char> {
    "{"@ + members_text(members) + "}"@
}

/// The given texts, separated by commas.
pub open spec fn items_text(items: Seq<Seq<char>>) -> Seq<char>
    decreases items.len(),
{
    if items.len() == 0 {
        Seq::empty()
    } else if items.len() == 1 {
        items[0]
    } else {
        items_text(items.drop_last()) + ","@ + items.last()
    }
}

/// The text of an array whose items have the given texts.
pub open spec fn array_text(items: Seq<Seq<char>>) -> Seq<char> {
    "["@ + items_text(items) + "]"@
}

/// Calls `serde_json`'s `Display` for `Value::String`, which writes the
/// string as compact JSON. Assumed: the text is the string between two
/// quotes, each character escaped as `escaped` says.
#[verifier::external_body]
pub(crate) fn quote(text: &str) -> (r: String)
    ensures
        r@ == quoted(text@),
{
    serde_json::Value::String(text.to_owned()).to_string()
}

/// Calls `serde_json::Map::new`. Assumed: the new object holds nothing.
#[verifier::external_body]
pub(crate) fn object_new() -> (r: serde_json::Map<String, serde_json::Value>)
    ensures
        object_members(r) == crate::order::no_members(),
        object_keys(r).len() == 0,
        object_wf(r),
{
    serde_json::Map::new()
}

/// Calls `serde_json::Map::insert` with the value as a JSON string,
/// number, boolean or null. Assumed: afterwards the key holds the value,
/// whether or not it held one before, and every other key holds what it
/// held; a string is stored as `serde_json` writes it, an integer in
/// decimal, a boolean as `true` or `false`, null as `null`.
#[verifier::external_body]
pub(crate) fn object_insert(
    object: &mut serde_json::Map<String, serde_json::Value>,
    key: String,
    value: FieldValue,
)
    ensures
        object_members(*final(object)) == object_members(*old(object)).insert(
            key@,
            value_text(value),
        ),
        object_wf(*final(object)),
{
    let stored = match value {
        FieldValue::Text(s) => serde_json::Value::String(s),
        FieldValue::Number(n) => serde_json::Value::from(n),
        FieldValue::Bool(b) => serde_json::Value::Bool(b),
        FieldValue::Null => serde_json::Value::Null,
        FieldValue::Other(s) => serde_json::Value::String(s),
    };
    object.insert(key, stored);
}

/// Calls `serde_json::Map::iter` and `serde_json`'s `Display` for each
/// value. Assumed: the members come out in the order in which the object
/// is walked, each key once, each value as its compact JSON text.
#[verifier::external_body]
pub(crate) fn object_entries(object: &serde_json::Map<String, serde_json::Value>) -> (r: Vec<
    Member,
>)
    ensures
        members_view(r@) == object_list(*object),
{
    object.iter().map(|(k, v)| Member { key: k.clone(), text: v.to_string() }).collect()
}

/// `Clone::clone` of `serde_json::Map`. Assumed: the copy holds what the
/// object holds and is walked in the same order.
pub assume_specification[ <serde_json::Map<String, serde_json::Value> as Clone>::clone ](
    object: &serde_json::Map<String, serde_json::Value>,
) -> (r: serde_json::Map<String, serde_json::Value>)
    ensures
        object_members(r) == object_members(*object),
        object_keys(r) == object_keys(*object),
;

/// Whether two texts hold the same characters.
pub fn same_text(a: &str, b: &str) -> (r: bool)
    ensures
        r == (a@ == b@),
{
    broadcast use vstd::utf8::encode_utf8_decode_utf8;

    let left = a.as_bytes();
    let right = b.as_bytes();
    if left.len() != right.len() {
        return false;
    }
    let mut i: usize = 0;
    while i < left.len()
        invariant
            i <= left.len(),
            left@ == a.spec_bytes(),
            right@ == b.spec_bytes(),
            left@.len() == right@.len(),
            forall|j: int| 0 <= j < i ==> left@[j] == right@[j],
        decreases left.len() - i,
    {
        if left[i] != right[i] {
            return false;
        }
        i = i + 1;
    }
    proof {
        assert(left@ =~= right@);
        assert(vstd::utf8::decode_utf8(vstd::utf8::encode_utf8(a@)) == a@);
        assert(vstd::utf8::decode_utf8(vstd::utf8::encode_utf8(b@)) == b@);
    }
    true
}

/// The text of one decimal digit.
fn digit_str(d: u64) -> (r: &'static str)
    requires
        d < 10,
    ensures
        r@ == digit_text(d as int),
{
    if d == 0 {
        "0"
    } else if d == 1 {
        "1"
    } else if d == 2 {
        "2"
    } else if d == 3 {
        "3"
    } else if d == 4 {
        "4"
    } else if d == 5 {
        "5"
    } else if d == 6 {
        "6"
    } else if d == 7 {
        "7"
    } else if d == 8 {
        "8"
    } else {
        "9"
    }
}

/// Writes a natural number in decimal.
pub fn decimal_string(n: u64) -> (r: String)
    ensures
        r@ == decimal_nat(n as nat),
    decreases n,
{
    if n < 10 {
        String::from_str(digit_str(n))
    } else {
        let mut text = decimal_string(n / 10);
        text.append(digit_str(n % 10));
        text
    }
}

/// Writes the members as one JSON object, in their order.
pub fn render_object(members: &Vec<Member>) -> (r: String)
    ensures
        r@ == object_text(members_view(members@)),
{
    let mut text = String::from_str("{");
    let mut i: usize = 0;
    while i < members.len()
        invariant
            i <= members.len(),
            text@ == "{"@ + members_text(members_view(members@).take(i as int)),
        decreases members.len() - i,
    {
        let ghost before = members_view(members@).take(i as int);
        let ghost after = members_view(members@).take(i + 1);
        proof {
            assert(after.drop_last() == before);
            assert(after.last() == members@[i as int]@);
        }
        if i > 0 {
            text.append(",");
        }
        let key = quote(members[i].key.as_str());
        text.append(key.as_str());
        text.append(":");
        text.append(members[i].text.as_str());
        i = i + 1;
    }
    proof {
        assert(members_view(members@).take(i as int) == members_view(members@));
    }
    text.append("}");
    text
}

/// Writes the items, each of them JSON text already, as one JSON array.
pub fn render_array(items: &Vec<String>) -> (r: String)
    ensures
        r@ == array_text(items@.map_values(|s: String| s@)),
{
    let ghost views = items@.map_values(|s: String| s@);
    let mut text = String::from_str("[");
    let mut i: usize = 0;
    while i < items.len()
        invariant
            i <= items.len(),
            views == items@.map_values(|s: String| s@),
            text@ == "["@ + items_text(views.take(i as int)),
        decreases items.len() - i,
    {
        proof {
            assert(views.take(i + 1).drop_last() == views.take(i as int));
            assert(views.take(i + 1).last() == items@[i as int]@);
        }
        if i > 0 {
            text.append(",");
        }
        text.append(items[i].as_str());
        i = i + 1;
    }
    proof {
        assert(views.take(i as int) == views);
    }
    text.append("]");
    text
}

} // verus!
