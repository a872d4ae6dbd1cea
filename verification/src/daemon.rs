//! The daemon's decision logic: cheap change detection over the alias file's
//! metadata, and the records one publication cycle hands to the discovery
//! service.

use vstd::prelude::*;

use crate::aliases_file::AliasesFile;
use crate::aliases_file::valid_aliases_of;
use crate::avahi::Interface;
use crate::avahi::Protocol;
use crate::avahi::RecordClass;
use crate::avahi::RecordType;
use crate::avahi_record::AvahiRecord;

verus! {

/// A change-detection fingerprint of the alias file: its modification time
/// (as nanoseconds since the epoch) and its length. Two edits that preserve
/// both within the filesystem's timestamp granularity are missed - an
/// accepted approximation, not a content hash.
#[derive(Clone, Copy, Debug, PartialEq, Eq, Structural)]
pub struct ModifiedSize {
    /// Modification time, in nanoseconds since the epoch.
    pub unix_nanos: u128,
    /// The file's length, in bytes.
    pub len: u64,
}

/// The sentinel fingerprint the daemon starts from: the epoch and an empty
/// length, so that the first poll of an existing file triggers a load.
pub fn initial_modified_size() -> (r: ModifiedSize)
    ensures
        r.unix_nanos == 0,
        r.len == 0,
{
    ModifiedSize { unix_nanos: 0, len: 0 }
}

/// Whether a polling cycle must reload and republish: exactly when the
/// fingerprint changed.
pub fn needs_reload(last: &ModifiedSize, current: &ModifiedSize) -> (r: bool)
    ensures
        r == (last != current),
{
    !(last.unix_nanos == current.unix_nanos && last.len == current.len)
}

/// The records one publication cycle sends: a canonical-name record for
/// every valid alias in the file, in file order, all carrying the same
/// payload and time-to-live. Invalid candidates yield no record.
pub fn publication_records(file: &AliasesFile, rdata: &Vec<u8>, ttl_secs: u64) -> (r: Vec<
    AvahiRecord,
>)
    ensures
        r@.len() == valid_aliases_of(file.lines_spec()).len(),
        forall|i: int| 0 <= i < r@.len() ==> {
            let rec = #[trigger] r@[i];
            &&& rec.name@ == valid_aliases_of(file.lines_spec())[i]
            &&& rec.interface == Interface::Unspecified
            &&& rec.protocol == Protocol::Unspecified
            &&& rec.flags == 0
            &&& rec.class == RecordClass::In
            &&& rec.rtype == RecordType::Cname
            &&& rec.ttl_secs == ttl_secs
            &&& rec.rdata@ == rdata@
        },
{
    let names = file.aliases();
    let mut out: Vec<AvahiRecord> = Vec::new();
    let mut i: usize = 0;
    while i < names.len()
        invariant
            names@.len() == valid_aliases_of(file.lines_spec()).len(),
            forall|k: int| 0 <= k < names@.len() ==> (#[trigger] names@[k])@ == valid_aliases_of(
                file.lines_spec(),
            )[k],
            0 <= i <= names@.len(),
            out@.len() == i,
            forall|k: int| 0 <= k < i ==> {
                let rec = #[trigger] out@[k];
                &&& rec.name@ == valid_aliases_of(file.lines_spec())[k]
                &&& rec.interface == Interface::Unspecified
                &&& rec.protocol == Protocol::Unspecified
                &&& rec.flags == 0
                &&& rec.class == RecordClass::In
                &&& rec.rtype == RecordType::Cname
                &&& rec.ttl_secs == ttl_secs
                &&& rec.rdata@ == rdata@
            },
        decreases names@.len() - i,
    {
        out.push(AvahiRecord::new_cname(names[i].clone(), ttl_secs, clone_bytes(rdata)));
        i = i + 1;
    }
    out
}

/// A copy of a byte vector.
fn clone_bytes(v: &Vec<u8>) -> (r: Vec<u8>)
    ensures
        r@ == v@,
{
    let mut out: Vec<u8> = Vec::new();
    let mut i: usize = 0;
    while i < v.len()
        invariant
            0 <= i <= v@.len(),
            out@ == v@.take(i as int),
        decreases v@.len() - i,
    {
        let ghost prev = out@;
        out.push(v[i]);
        proof {
            assert(v@.take(i as int + 1) =~= prev + seq![v@[i as int]]);
        }
        i = i + 1;
    }
    proof {
        assert(v@.take(v@.len() as int) =~= v@);
    }
    out
}

} // verus!
