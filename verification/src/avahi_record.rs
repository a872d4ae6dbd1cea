//! One record to hand to the discovery service's entry group.

use vstd::prelude::*;

use crate::avahi::Interface;
use crate::avahi::Protocol;
use crate::avahi::RecordClass;
use crate::avahi::RecordType;

verus! {

/// A record for publication: where it goes, what it names, and its payload.
#[derive(Debug)]
pub struct AvahiRecord {
    /// The interface to publish on.
    pub interface: Interface,
    /// The protocol to publish for.
    pub protocol: Protocol,
    /// Publication flags.
    pub flags: u32,
    /// The record's name.
    pub name: String,
    /// The record's class.
    pub class: RecordClass,
    /// The record's type.
    pub rtype: RecordType,
    /// Time-to-live, in seconds.
    pub ttl_secs: u64,
    /// The record's payload.
    pub rdata: Vec<u8>,
}

impl AvahiRecord {
    /// Build a record field by field.
    pub fn new(
        interface: Interface,
        protocol: Protocol,
        flags: u32,
        name: String,
        class: RecordClass,
        rtype: RecordType,
        ttl_secs: u64,
        rdata: Vec<u8>,
    ) -> (r: AvahiRecord)
        ensures
            r.interface == interface,
            r.protocol == protocol,
            r.flags == flags,
            r.name@ == name@,
            r.class == class,
            r.rtype == rtype,
            r.ttl_secs == ttl_secs,
            r.rdata@ == rdata@,
    {
        AvahiRecord { interface, protocol, flags, name, class, rtype, ttl_secs, rdata }
    }

    /// A canonical-name record for an alias: unspecified interface and
    /// protocol, no flags, internet class.
    pub fn new_cname(name: String, ttl_secs: u64, rdata: Vec<u8>) -> (r: AvahiRecord)
        ensures
            r.interface == Interface::Unspecified,
            r.protocol == Protocol::Unspecified,
            r.flags == 0,
            r.name@ == name@,
            r.class == RecordClass::In,
            r.rtype == RecordType::Cname,
            r.ttl_secs == ttl_secs,
            r.rdata@ == rdata@,
    {
        AvahiRecord {
            interface: Interface::Unspecified,
            protocol: Protocol::Unspecified,
            flags: 0,
            name,
            class: RecordClass::In,
            rtype: RecordType::Cname,
            ttl_secs,
            rdata,
        }
    }
}

} // verus!
