//! Credentials plugins: what the reply of one comes to.

use crate::error::GrpcError;
use crate::metadata::{
    has_pair, law_plugin_metadata_is_not_lost, law_plugin_metadata_is_that_of_its_entries,
    lenient_pairs, pairs, parse_metadata,
};
use crate::request::Pair;
use crate::text::joined;
use crate::value::{key_text, ArrayKey, PhpValue};
use vstd::prelude::*;
use vstd::string::StringExecFns;
use vstd::utf8::valid_utf8;

verus! {

/// What the engine reports of a plugin that was asked for metadata.
pub enum PluginReply {
    /// The value cannot be called.
    NotCallable,
    /// The plugin threw an object of a class, with a message, as far as they
    /// are known.
    Threw { class: Option<String>, message: Option<String> },
    /// The call failed for another reason.
    Failed(String),
    /// The plugin returned a value.
    Returned(PhpValue),
}

/// The metadata in the reply of a plugin, or what is said of its failure. A
/// reply that is no array has no metadata.
pub open spec fn reply_pairs(reply: PluginReply) -> Result<Seq<Pair>, Seq<char>> {
    match reply {
        PluginReply::NotCallable => Err("stored value is not callable"@),
        PluginReply::Threw { class, message } => Err(
            "plugin threw "@ + (match class {
                Some(c) => c@,
                None => "Exception"@,
            }) + ": "@ + (match message {
                Some(m) => m@,
                None => Seq::empty(),
            }),
        ),
        PluginReply::Failed(why) => Err(why@),
        PluginReply::Returned(value) => match value.spec_array() {
            Some(entries) => Ok(lenient_pairs(entries)),
            None => Ok(Seq::empty()),
        },
    }
}

/// The metadata in the reply of a plugin.
pub fn plugin_metadata(reply: PluginReply) -> (r: Result<Vec<(String, String)>, GrpcError>)
    ensures
        match r {
            Ok(list) => reply_pairs(reply) == Ok::<Seq<Pair>, Seq<char>>(pairs(list@)),
            Err(e) => e matches GrpcError::CallbackFailed(why) && reply_pairs(reply) == Err::<
                Seq<Pair>,
                Seq<char>,
            >(why@),
        },
{
    match reply {
        PluginReply::NotCallable => Err(
            GrpcError::CallbackFailed("stored value is not callable".to_owned()),
        ),
        PluginReply::Threw { class, message } => {
            let mut why = match class {
                Some(c) => joined("plugin threw ", c.as_str()),
                None => joined("plugin threw ", "Exception"),
            };
            why.append(": ");
            let ghost head = why@;
            match message {
                Some(m) => why.append(m.as_str()),
                None => {
                    assert(head + Seq::<char>::empty() =~= head);
                },
            }
            Err(GrpcError::CallbackFailed(why))
        },
        PluginReply::Failed(why) => Err(GrpcError::CallbackFailed(why)),
        PluginReply::Returned(value) => match value.array() {
            Some(entries) => Ok(parse_metadata(entries)),
            None => {
                let none: Vec<(String, String)> = Vec::new();
                assert(pairs(none@) =~= Seq::<Pair>::empty());
                Ok(none)
            },
        },
    }
}

// ---------------------------------------------------------------------------
// Laws
// ---------------------------------------------------------------------------

/// What a plugin returns is used whole. Every text that its array holds under a
/// string key, alone or as a member of a list of whatever length, is among the
/// metadata under that key; a value that is no array has no metadata, and only
/// the failure of the plugin is a failure.
pub proof fn law_plugin_reply_is_used_whole(
    value: PhpValue,
    entries: Vec<(ArrayKey, PhpValue)>,
    i: int,
    key: Seq<char>,
    bytes: Vec<u8>,
    values: Vec<(ArrayKey, PhpValue)>,
    j: int,
)
    ensures
        reply_pairs(PluginReply::Returned(value)) is Ok,
        !(value is Array) ==> reply_pairs(PluginReply::Returned(value))->Ok_0.len() == 0,
        value == PhpValue::Array(entries) && 0 <= i < entries@.len() && key_text(entries@[i].0)
            == Some(key) && valid_utf8(bytes@) && (entries@[i].1 == PhpValue::Str(bytes) || (
        entries@[i].1 == PhpValue::Array(values) && 0 <= j < values@.len() && values@[j].1
            == PhpValue::Str(bytes))) ==> has_pair(
            reply_pairs(PluginReply::Returned(value))->Ok_0,
            key,
            bytes@,
        ),
{
    if value == PhpValue::Array(entries) && 0 <= i < entries@.len() && key_text(entries@[i].0)
        == Some(key) && valid_utf8(bytes@) {
        law_plugin_metadata_is_not_lost(entries@, i, key, bytes, values, j);
    }
}

/// The pairs in the reply of a plugin come from its entries one after another.
pub proof fn law_plugin_reply_is_that_of_its_entries(
    a: Vec<(ArrayKey, PhpValue)>,
    b: Vec<(ArrayKey, PhpValue)>,
    both: Vec<(ArrayKey, PhpValue)>,
)
    requires
        both@ == a@ + b@,
    ensures
        reply_pairs(PluginReply::Returned(PhpValue::Array(both)))->Ok_0 == reply_pairs(
            PluginReply::Returned(PhpValue::Array(a)),
        )->Ok_0 + reply_pairs(PluginReply::Returned(PhpValue::Array(b)))->Ok_0,
{
    law_plugin_metadata_is_that_of_its_entries(a@, b@);
}

/// The failure of a plugin is told whole: the class and the message of what it
/// threw, or why the call failed.
pub proof fn law_plugin_failure_is_told(
    class: Option<String>,
    message: Option<String>,
    name: Seq<char>,
    said: Seq<char>,
    why: String,
)
    requires
        class matches Some(c) ==> name == c@,
        class is None ==> name == "Exception"@,
        message matches Some(m) ==> said == m@,
        message is None ==> said.len() == 0,
    ensures
        reply_pairs(PluginReply::NotCallable) == Err::<Seq<Pair>, Seq<char>>(
            "stored value is not callable"@,
        ),
        reply_pairs(PluginReply::Failed(why)) == Err::<Seq<Pair>, Seq<char>>(why@),
        reply_pairs(PluginReply::Threw { class, message }) == Err::<Seq<Pair>, Seq<char>>(
            "plugin threw "@ + name + ": "@ + said,
        ),
{
    if message is None {
        assert(said =~= Seq::<char>::empty());
    }
}

} // verus!
