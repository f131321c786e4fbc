//! The constants of the `Grpc` namespace.

use vstd::prelude::*;

verus! {

/// A constant: its name and its value.
pub struct Constant {
    pub name: &'static str,
    pub value: i64,
}

/// The views of a list of constants.
pub open spec fn constants_view(list: Seq<Constant>) -> Seq<(Seq<char>, int)> {
    list.map_values(|constant: Constant| (constant.name@, constant.value as int))
}

/// Adds a constant to a list.
fn add_constant(list: &mut Vec<Constant>, name: &'static str, value: i64)
    ensures
        constants_view(final(list)@) == constants_view(old(list)@).push((name@, value as int)),
{
    let ghost before = list@;
    list.push(Constant { name, value });
    assert(constants_view(list@) =~= constants_view(before).push((name@, value as int)));
}

/// The status codes of gRPC.
pub open spec fn status_constants() -> Seq<(Seq<char>, int)> {
    seq![
        ("Grpc\\STATUS_OK"@, 0),
        ("Grpc\\STATUS_CANCELLED"@, 1),
        ("Grpc\\STATUS_UNKNOWN"@, 2),
        ("Grpc\\STATUS_INVALID_ARGUMENT"@, 3),
        ("Grpc\\STATUS_DEADLINE_EXCEEDED"@, 4),
        ("Grpc\\STATUS_NOT_FOUND"@, 5),
        ("Grpc\\STATUS_ALREADY_EXISTS"@, 6),
        ("Grpc\\STATUS_PERMISSION_DENIED"@, 7),
        ("Grpc\\STATUS_RESOURCE_EXHAUSTED"@, 8),
        ("Grpc\\STATUS_FAILED_PRECONDITION"@, 9),
        ("Grpc\\STATUS_ABORTED"@, 10),
        ("Grpc\\STATUS_OUT_OF_RANGE"@, 11),
        ("Grpc\\STATUS_UNIMPLEMENTED"@, 12),
        ("Grpc\\STATUS_INTERNAL"@, 13),
        ("Grpc\\STATUS_UNAVAILABLE"@, 14),
        ("Grpc\\STATUS_DATA_LOSS"@, 15),
        ("Grpc\\STATUS_UNAUTHENTICATED"@, 16),
    ]
}

fn add_status_constants(list: &mut Vec<Constant>)
    ensures
        constants_view(final(list)@) == constants_view(old(list)@) + status_constants(),
{
    let ghost before = constants_view(list@);
    add_constant(list, "Grpc\\STATUS_OK", 0);
    add_constant(list, "Grpc\\STATUS_CANCELLED", 1);
    add_constant(list, "Grpc\\STATUS_UNKNOWN", 2);
    add_constant(list, "Grpc\\STATUS_INVALID_ARGUMENT", 3);
    add_constant(list, "Grpc\\STATUS_DEADLINE_EXCEEDED", 4);
    add_constant(list, "Grpc\\STATUS_NOT_FOUND", 5);
    add_constant(list, "Grpc\\STATUS_ALREADY_EXISTS", 6);
    add_constant(list, "Grpc\\STATUS_PERMISSION_DENIED", 7);
    add_constant(list, "Grpc\\STATUS_RESOURCE_EXHAUSTED", 8);
    add_constant(list, "Grpc\\STATUS_FAILED_PRECONDITION", 9);
    add_constant(list, "Grpc\\STATUS_ABORTED", 10);
    add_constant(list, "Grpc\\STATUS_OUT_OF_RANGE", 11);
    add_constant(list, "Grpc\\STATUS_UNIMPLEMENTED", 12);
    add_constant(list, "Grpc\\STATUS_INTERNAL", 13);
    add_constant(list, "Grpc\\STATUS_UNAVAILABLE", 14);
    add_constant(list, "Grpc\\STATUS_DATA_LOSS", 15);
    add_constant(list, "Grpc\\STATUS_UNAUTHENTICATED", 16);
    assert(constants_view(list@) =~= before + status_constants());
}

/// The connectivity states of a channel.
pub open spec fn channel_constants() -> Seq<(Seq<char>, int)> {
    seq![
        ("Grpc\\CHANNEL_IDLE"@, 0),
        ("Grpc\\CHANNEL_CONNECTING"@, 1),
        ("Grpc\\CHANNEL_READY"@, 2),
        ("Grpc\\CHANNEL_TRANSIENT_FAILURE"@, 3),
        ("Grpc\\CHANNEL_FATAL_FAILURE"@, 4),
    ]
}

fn add_channel_constants(list: &mut Vec<Constant>)
    ensures
        constants_view(final(list)@) == constants_view(old(list)@) + channel_constants(),
{
    let ghost before = constants_view(list@);
    add_constant(list, "Grpc\\CHANNEL_IDLE", 0);
    add_constant(list, "Grpc\\CHANNEL_CONNECTING", 1);
    add_constant(list, "Grpc\\CHANNEL_READY", 2);
    add_constant(list, "Grpc\\CHANNEL_TRANSIENT_FAILURE", 3);
    add_constant(list, "Grpc\\CHANNEL_FATAL_FAILURE", 4);
    assert(constants_view(list@) =~= before + channel_constants());
}

/// The errors of a batch.
pub open spec fn call_constants() -> Seq<(Seq<char>, int)> {
    seq![
        ("Grpc\\CALL_OK"@, 0),
        ("Grpc\\CALL_ERROR"@, 1),
        ("Grpc\\CALL_ERROR_NOT_ON_SERVER"@, 2),
        ("Grpc\\CALL_ERROR_NOT_ON_CLIENT"@, 3),
        ("Grpc\\CALL_ERROR_ALREADY_ACCEPTED"@, 4),
        ("Grpc\\CALL_ERROR_ALREADY_INVOKED"@, 5),
        ("Grpc\\CALL_ERROR_NOT_INVOKED"@, 6),
        ("Grpc\\CALL_ERROR_ALREADY_FINISHED"@, 7),
        ("Grpc\\CALL_ERROR_INVALID_FLAGS"@, 8),
    ]
}

fn add_call_constants(list: &mut Vec<Constant>)
    ensures
        constants_view(final(list)@) == constants_view(old(list)@) + call_constants(),
{
    let ghost before = constants_view(list@);
    add_constant(list, "Grpc\\CALL_OK", 0);
    add_constant(list, "Grpc\\CALL_ERROR", 1);
    add_constant(list, "Grpc\\CALL_ERROR_NOT_ON_SERVER", 2);
    add_constant(list, "Grpc\\CALL_ERROR_NOT_ON_CLIENT", 3);
    add_constant(list, "Grpc\\CALL_ERROR_ALREADY_ACCEPTED", 4);
    add_constant(list, "Grpc\\CALL_ERROR_ALREADY_INVOKED", 5);
    add_constant(list, "Grpc\\CALL_ERROR_NOT_INVOKED", 6);
    add_constant(list, "Grpc\\CALL_ERROR_ALREADY_FINISHED", 7);
    add_constant(list, "Grpc\\CALL_ERROR_INVALID_FLAGS", 8);
    assert(constants_view(list@) =~= before + call_constants());
}

/// The operations of a batch.
pub open spec fn operation_constants() -> Seq<(Seq<char>, int)> {
    seq![
        ("Grpc\\OP_SEND_INITIAL_METADATA"@, 0),
        ("Grpc\\OP_SEND_MESSAGE"@, 1),
        ("Grpc\\OP_SEND_CLOSE_FROM_CLIENT"@, 2),
        ("Grpc\\OP_SEND_STATUS_FROM_SERVER"@, 3),
        ("Grpc\\OP_RECV_INITIAL_METADATA"@, 4),
        ("Grpc\\OP_RECV_MESSAGE"@, 5),
        ("Grpc\\OP_RECV_STATUS_ON_CLIENT"@, 6),
        ("Grpc\\OP_RECV_CLOSE_ON_SERVER"@, 7),
    ]
}

fn add_operation_constants(list: &mut Vec<Constant>)
    ensures
        constants_view(final(list)@) == constants_view(old(list)@) + operation_constants(),
{
    let ghost before = constants_view(list@);
    add_constant(list, "Grpc\\OP_SEND_INITIAL_METADATA", 0);
    add_constant(list, "Grpc\\OP_SEND_MESSAGE", 1);
    add_constant(list, "Grpc\\OP_SEND_CLOSE_FROM_CLIENT", 2);
    add_constant(list, "Grpc\\OP_SEND_STATUS_FROM_SERVER", 3);
    add_constant(list, "Grpc\\OP_RECV_INITIAL_METADATA", 4);
    add_constant(list, "Grpc\\OP_RECV_MESSAGE", 5);
    add_constant(list, "Grpc\\OP_RECV_STATUS_ON_CLIENT", 6);
    add_constant(list, "Grpc\\OP_RECV_CLOSE_ON_SERVER", 7);
    assert(constants_view(list@) =~= before + operation_constants());
}

/// The flags of a message.
pub open spec fn write_constants() -> Seq<(Seq<char>, int)> {
    seq![
        ("Grpc\\WRITE_BUFFER_HINT"@, 1),
        ("Grpc\\WRITE_NO_COMPRESS"@, 2),
    ]
}

fn add_write_constants(list: &mut Vec<Constant>)
    ensures
        constants_view(final(list)@) == constants_view(old(list)@) + write_constants(),
{
    let ghost before = constants_view(list@);
    add_constant(list, "Grpc\\WRITE_BUFFER_HINT", 1);
    add_constant(list, "Grpc\\WRITE_NO_COMPRESS", 2);
    assert(constants_view(list@) =~= before + write_constants());
}

/// All the constants, in the order in which they are registered.
pub open spec fn constant_table() -> Seq<(Seq<char>, int)> {
    status_constants() + channel_constants() + call_constants() + operation_constants()
        + write_constants()
}

/// All the constants, in the order in which they are registered.
pub fn constants() -> (r: Vec<Constant>)
    ensures
        constants_view(r@) == constant_table(),
{
    let mut list: Vec<Constant> = Vec::new();
    assert(constants_view(list@) =~= Seq::<(Seq<char>, int)>::empty());
    add_status_constants(&mut list);
    add_channel_constants(&mut list);
    add_call_constants(&mut list);
    add_operation_constants(&mut list);
    add_write_constants(&mut list);
    assert(constants_view(list@) =~= constant_table());
    list
}

/// The version that the extension reports as `Grpc\VERSION`.
pub fn version() -> (r: &'static str)
    ensures
        r@ == "1.78.0"@,
{
    "1.78.0"
}

// ---------------------------------------------------------------------------
// Laws
// ---------------------------------------------------------------------------

/// Every constant has its name and its number, and there are no others.
pub proof fn law_constants_have_their_numbers()
    ensures
        constant_table().len() == 41,
        constant_table()[0] == ("Grpc\\STATUS_OK"@, 0int),
        constant_table()[1] == ("Grpc\\STATUS_CANCELLED"@, 1int),
        constant_table()[2] == ("Grpc\\STATUS_UNKNOWN"@, 2int),
        constant_table()[3] == ("Grpc\\STATUS_INVALID_ARGUMENT"@, 3int),
        constant_table()[4] == ("Grpc\\STATUS_DEADLINE_EXCEEDED"@, 4int),
        constant_table()[5] == ("Grpc\\STATUS_NOT_FOUND"@, 5int),
        constant_table()[6] == ("Grpc\\STATUS_ALREADY_EXISTS"@, 6int),
        constant_table()[7] == ("Grpc\\STATUS_PERMISSION_DENIED"@, 7int),
        constant_table()[8] == ("Grpc\\STATUS_RESOURCE_EXHAUSTED"@, 8int),
        constant_table()[9] == ("Grpc\\STATUS_FAILED_PRECONDITION"@, 9int),
        constant_table()[10] == ("Grpc\\STATUS_ABORTED"@, 10int),
        constant_table()[11] == ("Grpc\\STATUS_OUT_OF_RANGE"@, 11int),
        constant_table()[12] == ("Grpc\\STATUS_UNIMPLEMENTED"@, 12int),
        constant_table()[13] == ("Grpc\\STATUS_INTERNAL"@, 13int),
        constant_table()[14] == ("Grpc\\STATUS_UNAVAILABLE"@, 14int),
        constant_table()[15] == ("Grpc\\STATUS_DATA_LOSS"@, 15int),
        constant_table()[16] == ("Grpc\\STATUS_UNAUTHENTICATED"@, 16int),
        constant_table()[17] == ("Grpc\\CHANNEL_IDLE"@, 0int),
        constant_table()[18] == ("Grpc\\CHANNEL_CONNECTING"@, 1int),
        constant_table()[19] == ("Grpc\\CHANNEL_READY"@, 2int),
        constant_table()[20] == ("Grpc\\CHANNEL_TRANSIENT_FAILURE"@, 3int),
        constant_table()[21] == ("Grpc\\CHANNEL_FATAL_FAILURE"@, 4int),
        constant_table()[22] == ("Grpc\\CALL_OK"@, 0int),
        constant_table()[23] == ("Grpc\\CALL_ERROR"@, 1int),
        constant_table()[24] == ("Grpc\\CALL_ERROR_NOT_ON_SERVER"@, 2int),
        constant_table()[25] == ("Grpc\\CALL_ERROR_NOT_ON_CLIENT"@, 3int),
        constant_table()[26] == ("Grpc\\CALL_ERROR_ALREADY_ACCEPTED"@, 4int),
        constant_table()[27] == ("Grpc\\CALL_ERROR_ALREADY_INVOKED"@, 5int),
        constant_table()[28] == ("Grpc\\CALL_ERROR_NOT_INVOKED"@, 6int),
        constant_table()[29] == ("Grpc\\CALL_ERROR_ALREADY_FINISHED"@, 7int),
        constant_table()[30] == ("Grpc\\CALL_ERROR_INVALID_FLAGS"@, 8int),
        constant_table()[31] == ("Grpc\\OP_SEND_INITIAL_METADATA"@, 0int),
        constant_table()[32] == ("Grpc\\OP_SEND_MESSAGE"@, 1int),
        constant_table()[33] == ("Grpc\\OP_SEND_CLOSE_FROM_CLIENT"@, 2int),
        constant_table()[34] == ("Grpc\\OP_SEND_STATUS_FROM_SERVER"@, 3int),
        constant_table()[35] == ("Grpc\\OP_RECV_INITIAL_METADATA"@, 4int),
        constant_table()[36] == ("Grpc\\OP_RECV_MESSAGE"@, 5int),
        constant_table()[37] == ("Grpc\\OP_RECV_STATUS_ON_CLIENT"@, 6int),
        constant_table()[38] == ("Grpc\\OP_RECV_CLOSE_ON_SERVER"@, 7int),
        constant_table()[39] == ("Grpc\\WRITE_BUFFER_HINT"@, 1int),
        constant_table()[40] == ("Grpc\\WRITE_NO_COMPRESS"@, 2int),
{
    let table = constant_table();
    assert(table.len() == 41);
}

/// A constant is seen with its name and its value.
pub proof fn law_constants_are_seen_whole(list: Seq<Constant>, i: int)
    requires
        0 <= i < list.len(),
    ensures
        constants_view(list).len() == list.len(),
        constants_view(list)[i] == (list[i].name@, list[i].value as int),
{
}

} // verus!
