//! Discovery-service protocol constants: bus names, enumerations for record
//! and state values, and the conversions between them and their wire values.

use vstd::prelude::*;

use crate::error::ErrorWrapper;
use crate::num_text::dec_int_seq;
use crate::num_text::i64_to_string;

verus! {

/// Bus name of the discovery service.
pub const DBUS_NAME: &'static str = "org.freedesktop.Avahi";

/// Object path of the discovery service's server.
pub const DBUS_PATH_SERVER: &'static str = "/";

/// Interface name of the service's entry-group objects.
pub const DBUS_INTERFACE_ENTRY_GROUP: &'static str = "org.freedesktop.Avahi.EntryGroup";

/// A wire value that matches no constant of the named enumeration.
#[derive(Debug)]
pub struct OutOfRangeError {
    /// Name of the enumeration.
    pub enum_name: String,
    /// The value that matched no constant.
    pub value: i64,
}

/// The message text of an out-of-range wire value.
pub open spec fn out_of_range_text(enum_name: Seq<char>, value: int) -> Seq<char> {
    "No discriminant in enum `"@ + enum_name + "` matches the value `"@ + dec_int_seq(value)
        + "`"@
}

impl OutOfRangeError {
    /// Render the failure as a message.
    pub fn message(&self) -> (r: String)
        ensures
            r@ == out_of_range_text(self.enum_name@, self.value as int),
    {
        let mut s: String = "No discriminant in enum `".to_owned();
        proof {
            reveal_strlit("No discriminant in enum `");
        }
        s.append(self.enum_name.as_str());
        s.append("` matches the value `");
        s.append(i64_to_string(self.value).as_str());
        s.append("`");
        proof {
            assert(s@ =~= out_of_range_text(self.enum_name@, self.value as int));
        }
        s
    }
}

/// Build an [`OutOfRangeError`].
fn out_of_range(enum_name: &str, value: i64) -> (r: OutOfRangeError)
    ensures
        r.enum_name@ == enum_name@,
        r.value == value,
{
    OutOfRangeError { enum_name: enum_name.to_owned(), value }
}

/// Special values for the network interface index.
#[derive(Clone, Copy, Debug, PartialEq, Eq, Structural)]
pub enum Interface {
    /// Unspecified: all interfaces.
    Unspecified,
}

/// The wire value of an interface constant.
pub open spec fn interface_value(v: Interface) -> i32 {
    match v {
        Interface::Unspecified => -1i32,
    }
}

impl Interface {
    /// The constant's wire value.
    pub fn to_i32(&self) -> (r: i32)
        ensures
            r == interface_value(*self),
    {
        match self {
            Interface::Unspecified => -1,
        }
    }

    /// The constant for a wire value.
    pub fn from_i32(i: i32) -> (r: Result<Interface, OutOfRangeError>)
        ensures
            r is Ok <==> i == -1,
            r matches Ok(v) ==> interface_value(v) == i,
            r matches Err(e) ==> e.enum_name@ == "Interface"@ && e.value == i as i64,
    {
        if i == -1 {
            Ok(Interface::Unspecified)
        } else {
            Err(out_of_range("Interface", i as i64))
        }
    }
}

/// The internet protocols the service speaks.
#[derive(Clone, Copy, Debug, PartialEq, Eq, Structural)]
pub enum Protocol {
    /// Protocol not specified (or not needed).
    Unspecified,
    /// Internet protocol, version four.
    IPv4,
    /// Internet protocol, version six.
    IPv6,
}

/// The wire value of a protocol constant.
pub open spec fn protocol_value(v: Protocol) -> i32 {
    match v {
        Protocol::Unspecified => -1i32,
        Protocol::IPv4 => 0,
        Protocol::IPv6 => 1,
    }
}

impl Protocol {
    /// The constant's wire value.
    pub fn to_i32(&self) -> (r: i32)
        ensures
            r == protocol_value(*self),
    {
        match self {
            Protocol::Unspecified => -1,
            Protocol::IPv4 => 0,
            Protocol::IPv6 => 1,
        }
    }

    /// The constant for a wire value.
    pub fn from_i32(i: i32) -> (r: Result<Protocol, OutOfRangeError>)
        ensures
            r is Ok <==> (-1 <= i <= 1),
            r matches Ok(v) ==> protocol_value(v) == i,
            r matches Err(e) ==> e.enum_name@ == "Protocol"@ && e.value == i as i64,
    {
        if i == -1 {
            Ok(Protocol::Unspecified)
        } else if i == 0 {
            Ok(Protocol::IPv4)
        } else if i == 1 {
            Ok(Protocol::IPv6)
        } else {
            Err(out_of_range("Protocol", i as i64))
        }
    }
}

/// The record classes the publisher uses.
#[derive(Clone, Copy, Debug, PartialEq, Eq, Structural)]
pub enum RecordClass {
    /// The internet record class.
    In,
}

/// The wire value of a record class.
pub open spec fn record_class_value(v: RecordClass) -> u16 {
    match v {
        RecordClass::In => 1,
    }
}

impl RecordClass {
    /// The constant's wire value.
    pub fn to_u16(&self) -> (r: u16)
        ensures
            r == record_class_value(*self),
    {
        match self {
            RecordClass::In => 1,
        }
    }

    /// The constant for a wire value.
    pub fn from_u16(i: u16) -> (r: Result<RecordClass, OutOfRangeError>)
        ensures
            r is Ok <==> i == 1,
            r matches Ok(v) ==> record_class_value(v) == i,
            r matches Err(e) ==> e.enum_name@ == "RecordClass"@ && e.value == i as i64,
    {
        if i == 1 {
            Ok(RecordClass::In)
        } else {
            Err(out_of_range("RecordClass", i as i64))
        }
    }
}

/// The record types of the name system.
#[derive(Clone, Copy, Debug, PartialEq, Eq, Structural)]
pub enum RecordType {
    /// Address record, version-four addresses.
    A,
    /// Name-server record.
    Ns,
    /// Canonical-name record.
    Cname,
    /// Start-of-authority record.
    Soa,
    /// Pointer (reverse lookup) record.
    Ptr,
    /// Host-information record.
    Hinfo,
    /// Mail-exchanger record.
    Mx,
    /// Text record.
    Txt,
    /// Address record, version-six addresses.
    Aaa,
    /// Service record.
    Srv,
}

/// The wire value of a record type.
pub open spec fn record_type_value(v: RecordType) -> u16 {
    match v {
        RecordType::A => 1,
        RecordType::Ns => 2,
        RecordType::Cname => 5,
        RecordType::Soa => 6,
        RecordType::Ptr => 12,
        RecordType::Hinfo => 13,
        RecordType::Mx => 15,
        RecordType::Txt => 16,
        RecordType::Aaa => 28,
        RecordType::Srv => 33,
    }
}

impl RecordType {
    /// The constant's wire value.
    pub fn to_u16(&self) -> (r: u16)
        ensures
            r == record_type_value(*self),
    {
        match self {
            RecordType::A => 1,
            RecordType::Ns => 2,
            RecordType::Cname => 5,
            RecordType::Soa => 6,
            RecordType::Ptr => 12,
            RecordType::Hinfo => 13,
            RecordType::Mx => 15,
            RecordType::Txt => 16,
            RecordType::Aaa => 28,
            RecordType::Srv => 33,
        }
    }

    /// The constant for a wire value.
    pub fn from_u16(i: u16) -> (r: Result<RecordType, OutOfRangeError>)
        ensures
            r is Ok <==> (i == 1 || i == 2 || i == 5 || i == 6 || i == 12 || i == 13 || i == 15
                || i == 16 || i == 28 || i == 33),
            r matches Ok(v) ==> record_type_value(v) == i,
            r matches Err(e) ==> e.enum_name@ == "RecordType"@ && e.value == i as i64,
    {
        if i == 1 {
            Ok(RecordType::A)
        } else if i == 2 {
            Ok(RecordType::Ns)
        } else if i == 5 {
            Ok(RecordType::Cname)
        } else if i == 6 {
            Ok(RecordType::Soa)
        } else if i == 12 {
            Ok(RecordType::Ptr)
        } else if i == 13 {
            Ok(RecordType::Hinfo)
        } else if i == 15 {
            Ok(RecordType::Mx)
        } else if i == 16 {
            Ok(RecordType::Txt)
        } else if i == 28 {
            Ok(RecordType::Aaa)
        } else if i == 33 {
            Ok(RecordType::Srv)
        } else {
            Err(out_of_range("RecordType", i as i64))
        }
    }
}

/// States of a client of the discovery service. A superset of the server
/// states.
#[derive(Clone, Copy, Debug, PartialEq, Eq, Structural)]
pub enum ClientState {
    /// Host records are being registered.
    Registering,
    /// All host records have been established.
    Running,
    /// A host-record collision was detected.
    Collision,
    /// Some kind of failure happened on the client side.
    Failure,
    /// Still connecting; the daemon is not yet available.
    Connecting,
}

/// The wire value of a client state.
pub open spec fn client_state_value(v: ClientState) -> i32 {
    match v {
        ClientState::Registering => 1,
        ClientState::Running => 2,
        ClientState::Collision => 3,
        ClientState::Failure => 100,
        ClientState::Connecting => 101,
    }
}

impl ClientState {
    /// The constant's wire value.
    pub fn to_i32(&self) -> (r: i32)
        ensures
            r == client_state_value(*self),
    {
        match self {
            ClientState::Registering => 1,
            ClientState::Running => 2,
            ClientState::Collision => 3,
            ClientState::Failure => 100,
            ClientState::Connecting => 101,
        }
    }

    /// The state a wire value denotes, with the library's error type.
    pub fn from_u32(i: i32) -> (r: Result<ClientState, ErrorWrapper>)
        ensures
            r is Ok <==> (i == 1 || i == 2 || i == 3 || i == 100 || i == 101),
            r matches Ok(v) ==> client_state_value(v) == i,
            r matches Err(e) ==> e matches ErrorWrapper::EnumOutOfRangeError {
                enum_name,
                value,
            } && enum_name@ == "ClientState"@ && value == i as i64,
    {
        match ClientState::from_i32(i) {
            Ok(v) => Ok(v),
            Err(_) => Err(ErrorWrapper::new_enum_out_of_range_error("ClientState", i as i64)),
        }
    }

    /// The state a wire value denotes.
    pub fn from_i32(i: i32) -> (r: Result<ClientState, OutOfRangeError>)
        ensures
            r is Ok <==> (i == 1 || i == 2 || i == 3 || i == 100 || i == 101),
            r matches Ok(v) ==> client_state_value(v) == i,
            r matches Err(e) ==> e.enum_name@ == "ClientState"@ && e.value == i as i64,
    {
        if i == 1 {
            Ok(ClientState::Registering)
        } else if i == 2 {
            Ok(ClientState::Running)
        } else if i == 3 {
            Ok(ClientState::Collision)
        } else if i == 100 {
            Ok(ClientState::Failure)
        } else if i == 101 {
            Ok(ClientState::Connecting)
        } else {
            Err(out_of_range("ClientState", i as i64))
        }
    }
}

/// States of an entry group held at the discovery service.
#[derive(Clone, Copy, Debug, PartialEq, Eq, Structural)]
pub enum EntryGroupState {
    /// The group has not yet been committed.
    Uncommited,
    /// The group's entries are being registered.
    Registering,
    /// The group's entries have been established.
    Established,
    /// A name collision was detected; the entries have been withdrawn.
    Collision,
    /// Some failure happened; the entries have been withdrawn.
    Failure,
}

/// The wire value of an entry-group state.
pub open spec fn entry_group_state_value(v: EntryGroupState) -> i32 {
    match v {
        EntryGroupState::Uncommited => 0,
        EntryGroupState::Registering => 1,
        EntryGroupState::Established => 2,
        EntryGroupState::Collision => 3,
        EntryGroupState::Failure => 4,
    }
}

impl EntryGroupState {
    /// The constant's wire value.
    pub fn to_i32(&self) -> (r: i32)
        ensures
            r == entry_group_state_value(*self),
    {
        match self {
            EntryGroupState::Uncommited => 0,
            EntryGroupState::Registering => 1,
            EntryGroupState::Established => 2,
            EntryGroupState::Collision => 3,
            EntryGroupState::Failure => 4,
        }
    }

    /// The state a wire value denotes, with the library's error type.
    pub fn from_u32(i: i32) -> (r: Result<EntryGroupState, ErrorWrapper>)
        ensures
            r is Ok <==> (0 <= i <= 4),
            r matches Ok(v) ==> entry_group_state_value(v) == i,
            r matches Err(e) ==> e matches ErrorWrapper::EnumOutOfRangeError {
                enum_name,
                value,
            } && enum_name@ == "EntryGroupState"@ && value == i as i64,
    {
        match EntryGroupState::from_i32(i) {
            Ok(v) => Ok(v),
            Err(_) => Err(
                ErrorWrapper::new_enum_out_of_range_error("EntryGroupState", i as i64),
            ),
        }
    }

    /// The state a wire value denotes.
    pub fn from_i32(i: i32) -> (r: Result<EntryGroupState, OutOfRangeError>)
        ensures
            r is Ok <==> (0 <= i <= 4),
            r matches Ok(v) ==> entry_group_state_value(v) == i,
            r matches Err(e) ==> e.enum_name@ == "EntryGroupState"@ && e.value == i as i64,
    {
        if i == 0 {
            Ok(EntryGroupState::Uncommited)
        } else if i == 1 {
            Ok(EntryGroupState::Registering)
        } else if i == 2 {
            Ok(EntryGroupState::Established)
        } else if i == 3 {
            Ok(EntryGroupState::Collision)
        } else if i == 4 {
            Ok(EntryGroupState::Failure)
        } else {
            Err(out_of_range("EntryGroupState", i as i64))
        }
    }
}

/// States of the discovery service's server object.
#[derive(Clone, Copy, Debug, PartialEq, Eq, Structural)]
pub enum ServerState {
    /// Invalid state (initial).
    Invalid,
    /// Host records are being registered.
    Registering,
    /// All host records have been established.
    Running,
    /// A host-record collision was detected; records have been withdrawn.
    Collision,
    /// Fatal failure; the server is unable to proceed.
    Failure,
}

/// The wire value of a server state.
pub open spec fn server_state_value(v: ServerState) -> i32 {
    match v {
        ServerState::Invalid => 0,
        ServerState::Registering => 1,
        ServerState::Running => 2,
        ServerState::Collision => 3,
        ServerState::Failure => 4,
    }
}

impl ServerState {
    /// The constant's wire value.
    pub fn to_i32(&self) -> (r: i32)
        ensures
            r == server_state_value(*self),
    {
        match self {
            ServerState::Invalid => 0,
            ServerState::Registering => 1,
            ServerState::Running => 2,
            ServerState::Collision => 3,
            ServerState::Failure => 4,
        }
    }

    /// The state a wire value denotes, with the library's error type.
    pub fn from_u32(i: i32) -> (r: Result<ServerState, ErrorWrapper>)
        ensures
            r is Ok <==> (0 <= i <= 4),
            r matches Ok(v) ==> server_state_value(v) == i,
            r matches Err(e) ==> e matches ErrorWrapper::EnumOutOfRangeError {
                enum_name,
                value,
            } && enum_name@ == "ServerState"@ && value == i as i64,
    {
        match ServerState::from_i32(i) {
            Ok(v) => Ok(v),
            Err(_) => Err(ErrorWrapper::new_enum_out_of_range_error("ServerState", i as i64)),
        }
    }

    /// The state a wire value denotes.
    pub fn from_i32(i: i32) -> (r: Result<ServerState, OutOfRangeError>)
        ensures
            r is Ok <==> (0 <= i <= 4),
            r matches Ok(v) ==> server_state_value(v) == i,
            r matches Err(e) ==> e.enum_name@ == "ServerState"@ && e.value == i as i64,
    {
        if i == 0 {
            Ok(ServerState::Invalid)
        } else if i == 1 {
            Ok(ServerState::Registering)
        } else if i == 2 {
            Ok(ServerState::Running)
        } else if i == 3 {
            Ok(ServerState::Collision)
        } else if i == 4 {
            Ok(ServerState::Failure)
        } else {
            Err(out_of_range("ServerState", i as i64))
        }
    }
}

} // verus!
