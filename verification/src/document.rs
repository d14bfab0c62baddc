//! Structured documents: what a parsed document holds, and narrow access to
//! the members of one.

use vstd::prelude::*;
use vstd::string::*;
use vstd::utf8::*;

verus! {

/// `json::JsonValue`: a document, or a value inside one. What it holds is
/// known to the library only through `tree_of`.
#[verifier::external_type_specification]
#[verifier::external_body]
pub struct ExJsonValue(json::JsonValue);

/// What a document value holds. An object is given by its keys, in the order
/// in which they are written out, and by the member under each key.
#[verifier::ext_equal]
pub enum Tree {
    Null,
    Flag(bool),
    Number { positive: bool, mantissa: u64, exponent: i16 },
    NotANumber,
    Text(Seq<char>),
    List(Seq<Tree>),
    Object { keys: Seq<Seq<char>>, members: Map<Seq<char>, Tree> },
}

impl Tree {
    /// Whether this is an object with a member under `key`.
    pub open spec fn has(self, key: Seq<char>) -> bool {
        self is Object && self->members.contains_key(key)
    }

    /// The member under `key`; `Null` where there is none.
    pub open spec fn at(self, key: Seq<char>) -> Tree {
        if self.has(key) {
            self->members[key]
        } else {
            Tree::Null
        }
    }

    /// This value with `value` as the member under `key`. A member that is
    /// already there is replaced in place, a new one comes last, and a value
    /// that is no object gives way to an object with this one member.
    pub open spec fn with(self, key: Seq<char>, value: Tree) -> Tree {
        match self {
            Tree::Object { keys, members } => Tree::Object {
                keys: if members.contains_key(key) {
                    keys
                } else {
                    keys.push(key)
                },
                members: members.insert(key, value),
            },
            _ => Tree::Object { keys: seq![key], members: map![key => value] },
        }
    }
}

/// The decimal parts of a number after the zeros at the end of the mantissa
/// have been dropped, one for each step that a negative exponent is raised.
pub open spec fn shortened(mantissa: u64, exponent: i16) -> (u64, i16)
    decreases -exponent,
{
    if exponent < 0 && mantissa % 10 == 0 {
        shortened(mantissa / 10, (exponent + 1) as i16)
    } else {
        (mantissa, exponent)
    }
}

/// A text without the occurrences of one character.
pub open spec fn without_char(text: Seq<char>, unwanted: char) -> Seq<char> {
    text.filter(|c: char| c != unwanted)
}

/// The greatest number of digits that may follow a point in a text that is
/// handed to the parser.
pub const FRACTION_LIMIT: usize = 32767;

/// Whether a byte is a decimal digit.
pub open spec fn is_digit(byte: u8) -> bool {
    0x30 <= byte <= 0x39
}

/// The number of digits that stand in a row from the place `at` on.
pub open spec fn digits_from(bytes: Seq<u8>, at: int) -> nat
    decreases bytes.len() - at,
{
    if 0 <= at < bytes.len() && is_digit(bytes[at]) {
        1 + digits_from(bytes, at + 1)
    } else {
        0
    }
}

/// Whether the fractions of a text fit: no point is followed by more than
/// `FRACTION_LIMIT` digits in a row.
pub open spec fn fractions_fit(bytes: Seq<u8>) -> bool {
    forall|at: int|
        0 <= at < bytes.len() && #[trigger] bytes[at] == 0x2e ==> digits_from(bytes, at + 1)
            <= FRACTION_LIMIT
}

/// The document that a text holds: what the parser makes of it, and nothing
/// for a text with a fraction that does not fit.
pub open spec fn document_tree(text: Seq<char>) -> Option<Tree> {
    if fractions_fit(encode_utf8(text)) {
        parsed_tree(text)
    } else {
        None
    }
}

/// What the value `value` holds.
pub uninterp spec fn tree_of(value: json::JsonValue) -> Tree;

/// How deep a value is nested: the greatest number of lists and objects,
/// each with something in it, that stand one inside the other in it. A value
/// that is no list and no object, or an empty one, has the depth zero.
pub uninterp spec fn depth_of(value: json::JsonValue) -> nat;

/// The greatest depth of a document that the parser makes.
pub const DEPTH_LIMIT: usize = 512;

/// Whether a value of this depth can be written with this number of spaces
/// for each level: the writer counts the levels, and the spaces of a line,
/// in 16 bits.
pub open spec fn can_render(depth: nat, spaces: u16) -> bool {
    depth <= 0xffff && depth * spaces <= 0xffff
}

/// The greater of two depths.
pub open spec fn deeper(a: nat, b: nat) -> nat {
    if a >= b {
        a
    } else {
        b
    }
}

/// What `json::parse` makes of a text: the document, or nothing where the
/// text is no document.
pub uninterp spec fn parsed_tree(text: Seq<char>) -> Option<Tree>;

/// The text that `json::stringify_pretty` writes for a value, with the given
/// number of spaces for each level.
pub uninterp spec fn pretty_text(tree: Tree, spaces: u16) -> Seq<char>;

/// `String::from_utf8`: the text that the bytes encode, or nothing where they
/// are not UTF-8.
#[verifier::external_body]
pub(crate) fn text_from_utf8(data: Vec<u8>) -> (r: Option<String>)
    ensures
        r is Some == valid_utf8(data@),
        r matches Some(text) ==> text@ == decode_utf8(data@),
{
    String::from_utf8(data).ok()
}

/// `str::replace` for a pattern of one character and an empty replacement:
/// the text without that character.
#[verifier::external_body]
pub(crate) fn text_without(text: &str, pattern: &str, replacement: &str) -> (r: String)
    requires
        pattern@.len() == 1,
        replacement@.len() == 0,
    ensures
        r@ == without_char(text@, pattern@[0]),
{
    text.replace(pattern, replacement)
}

/// `json::parse`: the result holds what the name `parsed_tree` gives for the
/// text, and is nothing where the parser reports an error. It is for texts
/// whose fractions fit: the parser counts the digits after a point in 16
/// bits.
#[verifier::external_body]
pub(crate) fn parse_text(text: &str) -> (r: Option<json::JsonValue>)
    requires
        fractions_fit(encode_utf8(text@)),
    ensures
        r is Some == parsed_tree(text@) is Some,
        r matches Some(value) ==> parsed_tree(text@) == Some(tree_of(value)),
        r matches Some(value) ==> depth_of(value) <= DEPTH_LIMIT,
{
    json::parse(text).ok()
}

/// `json::stringify_pretty`: the text named by `pretty_text`. It is for
/// values that can be written with this number of spaces: the writer
/// multiplies the level by the spaces in 16 bits.
#[verifier::external_body]
pub(crate) fn render(doc: json::JsonValue, spaces: u16) -> (r: String)
    requires
        can_render(depth_of(doc), spaces),
    ensures
        r@ == pretty_text(tree_of(doc), spaces),
{
    json::stringify_pretty(doc, spaces)
}

/// `JsonValue::has_key`: true for an object that has the key, false for
/// every other value.
#[verifier::external_body]
pub(crate) fn has_key(doc: &json::JsonValue, key: &str) -> (r: bool)
    ensures
        r == tree_of(*doc).has(key@),
{
    doc.has_key(key)
}

/// Indexing a `JsonValue` by a key: the member of an object under that key,
/// else a null value.
#[verifier::external_body]
pub(crate) fn member<'a>(doc: &'a json::JsonValue, key: &str) -> (r: &'a json::JsonValue)
    ensures
        tree_of(*r) == tree_of(*doc).at(key@),
        depth_of(*r) <= depth_of(*doc),
{
    &doc[key]
}

/// Assigning through a `JsonValue` indexed by a key: the member is replaced,
/// or added where the key is new; a value that is no object becomes an object
/// with this one member.
#[verifier::external_body]
pub(crate) fn put_member(doc: &mut json::JsonValue, key: &str, value: json::JsonValue)
    ensures
        tree_of(*final(doc)) == tree_of(*old(doc)).with(key@, tree_of(value)),
        depth_of(*final(doc)) <= deeper(depth_of(*old(doc)), depth_of(value) + 1),
{
    doc[key] = value;
}

/// `JsonValue::insert` with a text as the value: on an object the text
/// becomes the member under the key and the call succeeds; any other value
/// is left as it is and the call fails.
#[verifier::external_body]
pub(crate) fn insert_text(doc: &mut json::JsonValue, key: &str, value: &str) -> (r: bool)
    ensures
        r == tree_of(*old(doc)) is Object,
        r ==> tree_of(*final(doc)) == tree_of(*old(doc)).with(key@, Tree::Text(value@)),
        !r ==> tree_of(*final(doc)) == tree_of(*old(doc)),
        depth_of(*final(doc)) <= deeper(depth_of(*old(doc)), 1),
{
    doc.insert(key, value).is_ok()
}

/// `JsonValue::as_number` followed by `Number::as_parts`: sign, mantissa and
/// decimal exponent of a number, nothing for a value that is no number. The
/// not-a-number value reports a negative zero.
#[verifier::external_body]
pub(crate) fn number_parts(value: &json::JsonValue) -> (r: Option<(bool, u64, i16)>)
    ensures
        r == (match tree_of(*value) {
            Tree::Number { positive, mantissa, exponent } => Some((positive, mantissa, exponent)),
            Tree::NotANumber => Some((false, 0u64, 0i16)),
            _ => None,
        }),
{
    value.as_number().map(|number| number.as_parts())
}

/// `Number::from_parts` as a `JsonValue`: the number with these parts, zeros
/// at the end of the mantissa dropped while the exponent is negative.
#[verifier::external_body]
pub(crate) fn number_value(positive: bool, mantissa: u64, exponent: i16) -> (r: json::JsonValue)
    ensures
        tree_of(r) == (Tree::Number {
            positive,
            mantissa: shortened(mantissa, exponent).0,
            exponent: shortened(mantissa, exponent).1,
        }),
        depth_of(r) == 0,
{
    json::JsonValue::Number(json::number::Number::from_parts(positive, mantissa, exponent))
}

/// `JsonValue::as_bool`: the flag that a boolean value holds.
#[verifier::external_body]
pub(crate) fn flag_of(value: &json::JsonValue) -> (r: Option<bool>)
    ensures
        r == (match tree_of(*value) {
            Tree::Flag(flag) => Some(flag),
            _ => None,
        }),
{
    value.as_bool()
}

/// `JsonValue::from` a `bool`: the boolean value that holds the flag.
#[verifier::external_body]
pub(crate) fn flag_value(flag: bool) -> (r: json::JsonValue)
    ensures
        tree_of(r) == Tree::Flag(flag),
        depth_of(r) == 0,
{
    json::JsonValue::from(flag)
}

/// `JsonValue::as_str`: the characters that a text value holds.
#[verifier::external_body]
pub(crate) fn text_of(value: &json::JsonValue) -> (r: Option<String>)
    ensures
        r is Some == tree_of(*value) is Text,
        r matches Some(text) ==> Tree::Text(text@) == tree_of(*value),
{
    value.as_str().map(|text| text.to_string())
}

/// `JsonValue::clone`: a value that holds the same.
#[verifier::external_body]
pub(crate) fn copy_of(value: &json::JsonValue) -> (r: json::JsonValue)
    ensures
        tree_of(r) == tree_of(*value),
        depth_of(r) == depth_of(*value),
{
    value.clone()
}

/// Whether the fractions of a text fit.
pub fn has_fitting_fractions(text: &str) -> (r: bool)
    ensures
        r == fractions_fit(encode_utf8(text@)),
{
    let bytes = text.as_bytes();
    let mut at: usize = bytes.len();
    let mut run: usize = 0;
    while at > 0
        invariant
            at <= bytes@.len(),
            bytes@ == encode_utf8(text@),
            run == digits_from(bytes@, at as int),
            run <= bytes@.len() - at,
            forall|p: int|
                at <= p < bytes@.len() && #[trigger] bytes@[p] == 0x2e ==> digits_from(
                    bytes@,
                    p + 1,
                ) <= FRACTION_LIMIT,
        decreases at,
    {
        at -= 1;
        let byte = bytes[at];
        if byte == 0x2e {
            if run > FRACTION_LIMIT {
                return false;
            }
            run = 0;
        } else if 0x30 <= byte && byte <= 0x39 {
            run += 1;
        } else {
            run = 0;
        }
    }
    true
}

/// Parses a text as a document. A text with a fraction that does not fit
/// counts as no document.
pub fn parse_document(text: &str) -> (r: Option<json::JsonValue>)
    ensures
        r is Some == document_tree(text@) is Some,
        r matches Some(value) ==> document_tree(text@) == Some(tree_of(value)),
        r matches Some(value) ==> depth_of(value) <= DEPTH_LIMIT,
{
    if has_fitting_fractions(text) {
        parse_text(text)
    } else {
        None
    }
}

/// Why bytes could not be read as a document.
#[derive(Debug, Clone, Copy, PartialEq, Eq, Structural)]
pub enum ReadError {
    /// The bytes are not UTF-8.
    Encoding,
    /// The text is not a document.
    Syntax,
}

/// The text that is handed to the parser: the decoded bytes without NUL
/// characters.
pub open spec fn document_text(bytes: Seq<u8>) -> Seq<char> {
    without_char(decode_utf8(bytes), '\0')
}

/// The document that bytes hold: they must be UTF-8, and their text, NUL
/// characters left out, must parse.
pub open spec fn document_of(bytes: Seq<u8>) -> Option<Tree> {
    if valid_utf8(bytes) {
        document_tree(document_text(bytes))
    } else {
        None
    }
}

/// Reads a document from bytes. NUL characters, as they come with text that
/// was stored two bytes to the character, are dropped before parsing.
pub fn read_json_from_bytes(data: Vec<u8>) -> (r: Result<json::JsonValue, ReadError>)
    ensures
        r is Ok == document_of(data@) is Some,
        r matches Ok(value) ==> document_of(data@) == Some(tree_of(value)),
        r matches Ok(value) ==> depth_of(value) <= DEPTH_LIMIT,
        r matches Err(e) ==> e == (if valid_utf8(data@) {
            ReadError::Syntax
        } else {
            ReadError::Encoding
        }),
{
    let ghost bytes = data@;
    match text_from_utf8(data) {
        Some(text) => {
            proof {
                reveal_strlit("\0");
                reveal_strlit("");
            }
            let text = text_without(text.as_str(), "\0", "");
            assert(text@ == document_text(bytes));
            match parse_document(text.as_str()) {
                Some(value) => Ok(value),
                None => Err(ReadError::Syntax),
            }
        },
        None => Err(ReadError::Encoding),
    }
}

/// The member of `doc` under `key`, if `doc` is an object that has one.
pub fn get_member<'a>(doc: &'a json::JsonValue, key: &str) -> (r: Option<&'a json::JsonValue>)
    ensures
        r is Some == tree_of(*doc).has(key@),
        r matches Some(value) ==> tree_of(*value) == tree_of(*doc).at(key@),
        r matches Some(value) ==> depth_of(*value) <= depth_of(*doc),
{
    if has_key(doc, key) {
        Some(member(doc, key))
    } else {
        None
    }
}

/// Puts `value` under `key` in `doc`. Only an object takes a member: any
/// other document is left as it is and `false` is returned.
pub fn set_member(doc: &mut json::JsonValue, key: &str, value: json::JsonValue) -> (r: bool)
    ensures
        r == tree_of(*old(doc)) is Object,
        r ==> tree_of(*final(doc)) == tree_of(*old(doc)).with(key@, tree_of(value)),
        !r ==> tree_of(*final(doc)) == tree_of(*old(doc)),
        depth_of(*final(doc)) <= deeper(depth_of(*old(doc)), depth_of(value) + 1),
{
    if has_key(doc, key) {
        put_member(doc, key, value);
        return true;
    }
    if insert_text(doc, key, "") {
        put_member(doc, key, value);
        proof {
            let before = tree_of(*old(doc));
            let after = before.with(key@, tree_of(value));
            assert(before.with(key@, Tree::Text(""@)).with(key@, tree_of(value))->members
                =~= after->members);
            assert(tree_of(*doc) =~~= after);
        }
        return true;
    }
    false
}

} // verus!
