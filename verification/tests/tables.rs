use grpc_php_rs::compat::{class_name, stripped_methods, without_flag, StrippedClass};
use grpc_php_rs::constants::{constants, version};
use grpc_php_rs::plugin::{plugin_metadata, PluginReply};
use grpc_php_rs::runtime::{mode, Mode};
use grpc_php_rs::text::{
    join_with_commas, parse_long, signed_text, sort_texts, text_eq, text_has, unsigned_text,
};
use grpc_php_rs::value::{ArrayKey, PhpValue};

fn value_of(name: &str) -> Option<i64> {
    constants().into_iter().find(|c| c.name == name).map(|c| c.value)
}

#[test]
fn the_constants_of_the_namespace() {
    assert_eq!(constants().len(), 41);
    assert_eq!(value_of("Grpc\\STATUS_OK"), Some(0));
    assert_eq!(value_of("Grpc\\STATUS_UNAUTHENTICATED"), Some(16));
    assert_eq!(value_of("Grpc\\CHANNEL_FATAL_FAILURE"), Some(4));
    assert_eq!(value_of("Grpc\\CALL_ERROR_INVALID_FLAGS"), Some(8));
    assert_eq!(value_of("Grpc\\OP_RECV_STATUS_ON_CLIENT"), Some(6));
    assert_eq!(value_of("Grpc\\WRITE_NO_COMPRESS"), Some(2));
    assert_eq!(version(), "1.78.0");
}

#[test]
fn the_names_of_constants_differ() {
    let mut names: Vec<&str> = constants().into_iter().map(|c| c.name).collect();
    names.sort();
    names.dedup();
    assert_eq!(names.len(), 41);
}

#[test]
fn the_runtime_follows_its_setting() {
    assert_eq!(mode(Some("multi-thread")), Mode::MultiThread);
    assert_eq!(mode(Some("multi_thread")), Mode::MultiThread);
    assert_eq!(mode(Some("mt")), Mode::MultiThread);
    assert_eq!(mode(Some("MT")), Mode::CurrentThread);
    assert_eq!(mode(Some("")), Mode::CurrentThread);
    assert_eq!(mode(None), Mode::CurrentThread);
}

#[test]
fn the_methods_without_return_types() {
    assert_eq!(class_name(StrippedClass::Channel), "Grpc\\Channel");
    assert_eq!(class_name(StrippedClass::Call), "Grpc\\Call");
    assert_eq!(
        stripped_methods(StrippedClass::Channel),
        vec!["gettarget", "getconnectivitystate", "watchconnectivitystate", "close"]
    );
    assert_eq!(
        stripped_methods(StrippedClass::Call),
        vec!["startbatch", "getpeer", "cancel", "setcredentials"]
    );
}

#[test]
fn one_flag_is_cleared() {
    assert_eq!(without_flag(0b1111, 0b0100), 0b1011);
    assert_eq!(without_flag(0b1011, 0b0100), 0b1011);
}

#[test]
fn plugin_replies() {
    let said = |reply| plugin_metadata(reply).unwrap_err().to_string();
    assert_eq!(said(PluginReply::NotCallable), "callback failed: stored value is not callable");
    assert_eq!(
        said(PluginReply::Threw { class: Some("Boom".into()), message: Some("bang".into()) }),
        "callback failed: plugin threw Boom: bang"
    );
    assert_eq!(
        said(PluginReply::Threw { class: None, message: None }),
        "callback failed: plugin threw Exception: "
    );
    assert_eq!(said(PluginReply::Failed("lost".into())), "callback failed: lost");
    let entries = vec![(ArrayKey::String("k".into()), PhpValue::Str(b"v".to_vec()))];
    let list = plugin_metadata(PluginReply::Returned(PhpValue::Array(entries))).unwrap();
    assert_eq!(list, vec![("k".to_string(), "v".to_string())]);
    assert!(plugin_metadata(PluginReply::Returned(PhpValue::Long(1))).unwrap().is_empty());
}

#[test]
fn numbers_as_text() {
    assert_eq!(signed_text(0), "0");
    assert_eq!(signed_text(-42), "-42");
    assert_eq!(signed_text(i64::MIN), "-9223372036854775808");
    assert_eq!(unsigned_text(u64::MAX), "18446744073709551615");
}

#[test]
fn text_as_numbers() {
    assert_eq!(parse_long("12"), Some(12));
    assert_eq!(parse_long("+12"), Some(12));
    assert_eq!(parse_long("-12"), Some(-12));
    assert_eq!(parse_long("007"), Some(7));
    assert_eq!(parse_long("9223372036854775807"), Some(i64::MAX));
    assert_eq!(parse_long("-9223372036854775808"), Some(i64::MIN));
    for bad in ["", "+", "-", "1 ", " 1", "1.0", "9223372036854775808", "x"] {
        assert_eq!(parse_long(bad), None);
    }
}

#[test]
fn texts_are_sorted_by_their_bytes() {
    let list = |items: &[&str]| items.iter().map(|s| s.to_string()).collect::<Vec<String>>();
    let sorted = sort_texts(list(&["b=1", "a=2", "a=10", "", "\u{e9}", "z"]));
    assert_eq!(sorted, list(&["", "a=10", "a=2", "b=1", "z", "\u{e9}"]));
    assert_eq!(join_with_commas(&sorted), ",a=10,a=2,b=1,z,\u{e9}");
    assert_eq!(join_with_commas(&vec![]), "");
}

#[test]
fn texts_in_texts() {
    assert!(text_has("http://x", "://"));
    assert!(!text_has("host:50051/", "://"));
    assert!(text_has("abc", ""));
    assert!(!text_has("", "a"));
    assert!(text_has("abc", "abc"));
    assert!(text_eq("a", "a"));
    assert!(!text_eq("a", "b"));
}
