//! PHP values and arrays as the library reads them.

use crate::credentials::GrpcChannelCredentials;
use crate::text::{byte_text, bytes_eq, lossy_text, text_eq, utf8_text};
use vstd::prelude::*;
use vstd::utf8::{decode_utf8, encode_utf8, valid_utf8};

verus! {

/// The key of a PHP array entry.
pub enum ArrayKey {
    /// An integer key.
    Long(i64),
    /// A string key that is known to be text.
    String(String),
    /// A string key as raw bytes.
    ZendString(Vec<u8>),
}

/// A PHP value.
pub enum PhpValue {
    Null,
    Bool(bool),
    Long(i64),
    /// A float, as the integer that a saturating cast toward zero gives.
    Double(i64),
    /// A string: PHP strings hold arbitrary bytes.
    Str(Vec<u8>),
    Array(Vec<(ArrayKey, PhpValue)>),
    /// A `Grpc\ChannelCredentials` object.
    ChannelCredentials(GrpcChannelCredentials),
    /// Any other value.
    Other,
}

impl PhpValue {
    /// The value of an integer.
    pub fn long(&self) -> (r: Option<i64>)
        ensures
            r == self.spec_long(),
    {
        match self {
            PhpValue::Long(n) => Some(*n),
            _ => None,
        }
    }

    pub open spec fn spec_long(&self) -> Option<i64> {
        match self {
            PhpValue::Long(n) => Some(*n),
            _ => None,
        }
    }

    /// The value of a boolean.
    pub fn boolean(&self) -> (r: Option<bool>)
        ensures
            r == self.spec_boolean(),
    {
        match self {
            PhpValue::Bool(b) => Some(*b),
            _ => None,
        }
    }

    pub open spec fn spec_boolean(&self) -> Option<bool> {
        match self {
            PhpValue::Bool(b) => Some(*b),
            _ => None,
        }
    }

    /// The text of a string that is UTF-8.
    pub fn string(&self) -> (r: Option<String>)
        ensures
            r is Some <==> self.spec_string() is Some,
            r matches Some(t) ==> self.spec_string() == Some(t@),
    {
        match self {
            PhpValue::Str(bytes) => utf8_text(bytes.as_slice()),
            _ => None,
        }
    }

    pub open spec fn spec_string(&self) -> Option<Seq<char>> {
        match self {
            PhpValue::Str(bytes) => if valid_utf8(bytes@) {
                Some(decode_utf8(bytes@))
            } else {
                None
            },
            _ => None,
        }
    }

    /// The bytes of a string.
    pub fn zend_str(&self) -> (r: Option<&Vec<u8>>)
        ensures
            r is Some <==> self.spec_zend_str() is Some,
            r matches Some(b) ==> self.spec_zend_str() == Some(b@),
    {
        match self {
            PhpValue::Str(bytes) => Some(bytes),
            _ => None,
        }
    }

    pub open spec fn spec_zend_str(&self) -> Option<Seq<u8>> {
        match self {
            PhpValue::Str(bytes) => Some(bytes@),
            _ => None,
        }
    }

    /// The entries of an array.
    pub fn array(&self) -> (r: Option<&Vec<(ArrayKey, PhpValue)>>)
        ensures
            r is Some <==> self.spec_array() is Some,
            r matches Some(a) ==> self.spec_array() == Some(a@),
    {
        match self {
            PhpValue::Array(entries) => Some(entries),
            _ => None,
        }
    }

    pub open spec fn spec_array(&self) -> Option<Seq<(ArrayKey, PhpValue)>> {
        match self {
            PhpValue::Array(entries) => Some(entries@),
            _ => None,
        }
    }
}

/// The text of a string key; an integer key, or one that is not UTF-8, has
/// none.
pub open spec fn key_text(key: ArrayKey) -> Option<Seq<char>> {
    match key {
        ArrayKey::Long(_) => None,
        ArrayKey::String(s) => Some(s@),
        ArrayKey::ZendString(b) => if valid_utf8(b@) {
            Some(decode_utf8(b@))
        } else {
            None
        },
    }
}

/// The text of a string key, if it has one.
pub fn array_key_to_string(key: &ArrayKey) -> (r: Option<String>)
    ensures
        r is Some <==> key_text(*key) is Some,
        r matches Some(t) ==> key_text(*key) == Some(t@),
{
    match key {
        ArrayKey::Long(_) => None,
        ArrayKey::String(s) => Some(s.clone()),
        ArrayKey::ZendString(b) => utf8_text(b.as_slice()),
    }
}

/// How a string key is displayed: with replacement characters where it is
/// not UTF-8.
pub open spec fn displayed_key(key: ArrayKey) -> Option<Seq<char>> {
    match key {
        ArrayKey::Long(_) => None,
        ArrayKey::String(s) => Some(s@),
        ArrayKey::ZendString(b) => Some(byte_text(b@)),
    }
}

/// Displays a string key; an integer key gives nothing.
pub fn display_key(key: &ArrayKey) -> (r: Option<String>)
    ensures
        r is Some <==> displayed_key(*key) is Some,
        r matches Some(t) ==> displayed_key(*key) == Some(t@),
{
    match key {
        ArrayKey::Long(_) => None,
        ArrayKey::String(s) => Some(s.clone()),
        ArrayKey::ZendString(b) => Some(lossy_text(b.as_slice())),
    }
}

/// Whether a key is the given string key.
pub open spec fn key_is(key: ArrayKey, name: Seq<char>) -> bool {
    match key {
        ArrayKey::Long(_) => false,
        ArrayKey::String(s) => s@ == name,
        ArrayKey::ZendString(b) => b@ == encode_utf8(name),
    }
}

/// The value that an array holds under a string key.
pub open spec fn entry_of(entries: Seq<(ArrayKey, PhpValue)>, name: Seq<char>) -> Option<PhpValue>
    decreases entries.len(),
{
    if entries.len() == 0 {
        None
    } else if key_is(entries[0].0, name) {
        Some(entries[0].1)
    } else {
        entry_of(entries.skip(1), name)
    }
}

/// Looks a string key up in an array.
pub fn get<'a>(entries: &'a Vec<(ArrayKey, PhpValue)>, name: &str) -> (r: Option<&'a PhpValue>)
    ensures
        r is Some <==> entry_of(entries@, name@) is Some,
        r matches Some(v) ==> entry_of(entries@, name@) == Some(*v),
{
    let mut i: usize = 0;
    proof {
        assert(entries@.skip(0) =~= entries@);
    }
    while i < entries.len()
        invariant
            i <= entries.len(),
            entry_of(entries@, name@) == entry_of(entries@.skip(i as int), name@),
        decreases entries.len() - i,
    {
        let found: bool = match &entries[i].0 {
            ArrayKey::Long(_) => false,
            ArrayKey::String(s) => text_eq(s.as_str(), name),
            ArrayKey::ZendString(b) => bytes_eq(b.as_slice(), name.as_bytes()),
        };
        if found {
            return Some(&entries[i].1);
        }
        proof {
            assert(entries@.skip(i as int).skip(1) =~= entries@.skip(i + 1));
        }
        i = i + 1;
    }
    None
}

// ---------------------------------------------------------------------------
// Laws
// ---------------------------------------------------------------------------

/// A value is read as what PHP gave and as nothing else: a number and a boolean
/// as they are, the bytes of a string all of them, its text where the bytes are
/// UTF-8 and then the text with exactly these bytes, an array with all its
/// entries.
pub proof fn law_values_are_read_as_given(value: PhpValue)
    ensures
        value matches PhpValue::Long(n) ==> value.spec_long() == Some(n),
        value.spec_long() is Some ==> value is Long,
        value matches PhpValue::Bool(b) ==> value.spec_boolean() == Some(b),
        value.spec_boolean() is Some ==> value is Bool,
        value matches PhpValue::Str(bytes) ==> value.spec_zend_str() == Some(bytes@),
        value.spec_zend_str() is Some ==> value is Str,
        value matches PhpValue::Str(bytes) ==> (value.spec_string() is Some <==> valid_utf8(
            bytes@,
        )),
        value matches PhpValue::Str(bytes) ==> (value.spec_string() matches Some(text)
            ==> encode_utf8(text) == bytes@),
        value.spec_string() is Some ==> value is Str,
        value matches PhpValue::Array(entries) ==> value.spec_array() == Some(entries@),
        value.spec_array() is Some ==> value is Array,
{
    broadcast use vstd::utf8::decode_utf8_encode_utf8;

}

/// The text of a string key has exactly the bytes of the key, however the key
/// is held; an integer key has none. A key that is not UTF-8 is displayed all
/// the same, and one that is UTF-8 is displayed as its text.
pub proof fn law_keys_are_read_as_given(key: ArrayKey)
    ensures
        key is Long ==> key_text(key) is None && displayed_key(key) is None,
        key matches ArrayKey::String(s) ==> key_text(key) == Some(s@),
        key matches ArrayKey::ZendString(bytes) ==> (key_text(key) is Some <==> valid_utf8(
            bytes@,
        )),
        key matches ArrayKey::ZendString(bytes) ==> (key_text(key) matches Some(text)
            ==> encode_utf8(text) == bytes@),
        key_text(key) is Some ==> displayed_key(key) == key_text(key),
        key matches ArrayKey::ZendString(bytes) ==> displayed_key(key) == Some(byte_text(bytes@)),
        !(key is Long) ==> displayed_key(key) is Some,
{
    broadcast use vstd::utf8::decode_utf8_encode_utf8;

}

/// Whether a key is a string key that spells a name.
pub open spec fn spells(key: ArrayKey, name: Seq<char>) -> bool {
    match key {
        ArrayKey::Long(_) => false,
        ArrayKey::String(s) => encode_utf8(s@) == encode_utf8(name),
        ArrayKey::ZendString(bytes) => bytes@ == encode_utf8(name),
    }
}

/// Whether an entry is the first under a name. In a PHP array it is the only
/// one.
pub open spec fn first_under(
    entries: Seq<(ArrayKey, PhpValue)>,
    name: Seq<char>,
    i: int,
) -> bool {
    &&& 0 <= i < entries.len()
    &&& spells(entries[i].0, name)
    &&& forall|j: int| 0 <= j < i ==> !spells((#[trigger] entries[j]).0, name)
}

/// Looking a name up gives the value of the first entry under it, wherever in
/// the array that is, and nothing when no entry is under it.
pub proof fn law_lookup_finds_the_entry(
    entries: Seq<(ArrayKey, PhpValue)>,
    name: Seq<char>,
    i: int,
)
    ensures
        first_under(entries, name, i) ==> entry_of(entries, name) == Some(entries[i].1),
        (forall|j: int| 0 <= j < entries.len() ==> !spells((#[trigger] entries[j]).0, name))
            ==> entry_of(entries, name) is None,
    decreases entries.len(),
{
    if entries.len() > 0 {
        let rest = entries.skip(1);
        lemma_spells(entries[0].0, name);
        law_lookup_finds_the_entry(rest, name, i - 1);
        if first_under(entries, name, i) && i > 0 {
            assert(!spells(entries[0].0, name));
            assert(rest[i - 1] == entries[i]);
            assert forall|j: int| 0 <= j < i - 1 implies !spells((#[trigger] rest[j]).0, name) by {
                assert(rest[j] == entries[j + 1]);
            }
            assert(first_under(rest, name, i - 1));
        }
        if forall|j: int| 0 <= j < entries.len() ==> !spells((#[trigger] entries[j]).0, name) {
            assert(!spells(entries[0].0, name));
            assert forall|j: int| 0 <= j < rest.len() implies !spells(
                (#[trigger] rest[j]).0,
                name,
            ) by {
                assert(rest[j] == entries[j + 1]);
            }
        }
    }
}

proof fn lemma_spells(key: ArrayKey, name: Seq<char>)
    ensures
        spells(key, name) <==> key_is(key, name),
{
    vstd::utf8::encode_utf8_decode_utf8(name);
    if let ArrayKey::String(s) = key {
        vstd::utf8::encode_utf8_decode_utf8(s@);
    }
}

/// Every name that an array has an entry under has a first one.
pub proof fn law_a_name_has_a_first_entry(
    entries: Seq<(ArrayKey, PhpValue)>,
    name: Seq<char>,
    i: int,
) -> (first: int)
    requires
        0 <= i < entries.len(),
        spells(entries[i].0, name),
    ensures
        first_under(entries, name, first),
        first <= i,
    decreases i,
{
    if exists|j: int| 0 <= j < i && spells((#[trigger] entries[j]).0, name) {
        let j = choose|j: int| 0 <= j < i && spells((#[trigger] entries[j]).0, name);
        law_a_name_has_a_first_entry(entries, name, j)
    } else {
        i
    }
}

} // verus!
