//! Which methods lose their declared return type.
//!
//! The methods of the classes are declared with return types, and child
//! classes in PHP packages without. Newer engines refuse that, so the
//! declarations are taken back.

use vstd::prelude::*;

verus! {

/// The classes whose methods lose their return type.
#[derive(Debug, Clone, Copy, PartialEq, Eq, Structural)]
pub enum StrippedClass {
    Channel,
    Call,
}

/// The PHP name of a class.
pub open spec fn class_name_view(class: StrippedClass) -> Seq<char> {
    match class {
        StrippedClass::Channel => "Grpc\\Channel"@,
        StrippedClass::Call => "Grpc\\Call"@,
    }
}

/// The PHP name of a class.
pub fn class_name(class: StrippedClass) -> (r: &'static str)
    ensures
        r@ == class_name_view(class),
{
    match class {
        StrippedClass::Channel => "Grpc\\Channel",
        StrippedClass::Call => "Grpc\\Call",
    }
}

/// The methods of a class that lose their return type, in lower case.
pub open spec fn stripped_view(class: StrippedClass) -> Seq<Seq<char>> {
    match class {
        StrippedClass::Channel => seq![
            "gettarget"@,
            "getconnectivitystate"@,
            "watchconnectivitystate"@,
            "close"@,
        ],
        StrippedClass::Call => seq!["startbatch"@, "getpeer"@, "cancel"@, "setcredentials"@],
    }
}

/// The methods of a class that lose their return type.
pub fn stripped_methods(class: StrippedClass) -> (r: Vec<&'static str>)
    ensures
        r@.map_values(|name: &'static str| name@) == stripped_view(class),
{
    let mut names: Vec<&'static str> = Vec::new();
    match class {
        StrippedClass::Channel => {
            names.push("gettarget");
            names.push("getconnectivitystate");
            names.push("watchconnectivitystate");
            names.push("close");
        },
        StrippedClass::Call => {
            names.push("startbatch");
            names.push("getpeer");
            names.push("cancel");
            names.push("setcredentials");
        },
    }
    assert(names@.map_values(|name: &'static str| name@) =~= stripped_view(class));
    names
}

/// The flags of a method without the one that says it has a return type.
/// Every other flag stays as it is.
pub fn without_flag(flags: u32, flag: u32) -> (r: u32)
    ensures
        r & flag == 0,
        r & !flag == flags & !flag,
{
    let r: u32 = flags & !flag;
    assert((flags & !flag) & flag == 0) by (bit_vector);
    assert((flags & !flag) & !flag == flags & !flag) by (bit_vector);
    r
}

/// The methods that PHP packages override, and only they, lose their return
/// type.
pub proof fn law_overridden_methods_are_stripped(name: Seq<char>)
    ensures
        class_name_view(StrippedClass::Channel) == "Grpc\\Channel"@,
        class_name_view(StrippedClass::Call) == "Grpc\\Call"@,
        stripped_view(StrippedClass::Channel).contains(name) <==> name == "gettarget"@ || name
            == "getconnectivitystate"@ || name == "watchconnectivitystate"@ || name == "close"@,
        stripped_view(StrippedClass::Call).contains(name) <==> name == "startbatch"@ || name
            == "getpeer"@ || name == "cancel"@ || name == "setcredentials"@,
{
    let channel = stripped_view(StrippedClass::Channel);
    let call = stripped_view(StrippedClass::Call);
    assert(channel.len() == 4 && call.len() == 4);
    assert(channel[0] == "gettarget"@ && channel[1] == "getconnectivitystate"@ && channel[2]
        == "watchconnectivitystate"@ && channel[3] == "close"@);
    assert(call[0] == "startbatch"@ && call[1] == "getpeer"@ && call[2] == "cancel"@ && call[3]
        == "setcredentials"@);
}

} // verus!
