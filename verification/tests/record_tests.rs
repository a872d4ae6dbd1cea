use avahi_aliases::AvahiRecord;
use avahi_aliases::avahi::Interface;
use avahi_aliases::avahi::Protocol;
use avahi_aliases::avahi::RecordClass;
use avahi_aliases::avahi::RecordType;
use avahi_aliases::encoding::encode_rdata;
use avahi_aliases::encoding::to_ascii;

static TEST_RDATA: &[(&str, &[u8])] = &[
    ("a.local", &[1, b'a', 5, b'l', b'o', b'c', b'a', b'l', 0]),
    ("a0.local", &[2, b'a', b'0', 5, b'l', b'o', b'c', b'a', b'l', 0]),
    ("xyzzy.local", &[5, b'x', b'y', b'z', b'z', b'y', 5, b'l', b'o', b'c', b'a', b'l', 0]),
    ("a.z.local", &[1, b'a', 1, b'z', 5, b'l', b'o', b'c', b'a', b'l', 0]),
    ("a..local", &[1, b'a', 5, b'l', b'o', b'c', b'a', b'l', 0]),
];

static TEST_IDNA: &[(&str, &str)] = &[
    ("a.local", "a.local"),
    ("a0.local", "a0.local"),
    ("xyzzy.local", "xyzzy.local"),
    ("a.z.local", "a.z.local"),
    ("a..local", "a..local"),
];

#[test]
fn encore_rdata_encodes_correctly() {
    for (name, encoded) in TEST_RDATA {
        assert_eq!(encode_rdata(name).as_slice(), *encoded);
    }
}

#[test]
fn resource_records_are_encoded_correctly() {
    for (alias, resource_record) in TEST_RDATA {
        assert_eq!(*resource_record, encode_rdata(alias).as_slice());
    }
}

#[test]
fn to_ascii_encodes_correctly() {
    for (name, encoded) in TEST_IDNA {
        assert_eq!(to_ascii(name), *encoded);
    }
}

#[test]
fn avahi_record_works() {
    let rdata = encode_rdata("host.local");
    let avahi_record = AvahiRecord {
        interface: Interface::Unspecified,
        protocol: Protocol::Unspecified,
        flags: 0,
        name: String::from("alias.local"),
        class: RecordClass::In,
        rtype: RecordType::Cname,
        ttl_secs: 60,
        rdata: rdata.clone(),
    };
    assert_eq!(avahi_record.interface, Interface::Unspecified);
    assert_eq!(avahi_record.protocol, Protocol::Unspecified);
    assert_eq!(avahi_record.flags, 0);
    assert_eq!(avahi_record.name, "alias.local");
    assert_eq!(avahi_record.class, RecordClass::In);
    assert_eq!(avahi_record.rtype, RecordType::Cname);
    assert_eq!(avahi_record.ttl_secs, 60);
    assert_eq!(avahi_record.rdata, rdata);
}

#[test]
fn new_function_populates_fields_correctly() {
    let rdata = encode_rdata("host.local");
    let avahi_record = AvahiRecord::new(
        Interface::Unspecified,
        Protocol::Unspecified,
        0,
        String::from("alias.local"),
        RecordClass::In,
        RecordType::Cname,
        60,
        rdata.clone(),
    );
    assert_eq!(avahi_record.interface, Interface::Unspecified);
    assert_eq!(avahi_record.protocol, Protocol::Unspecified);
    assert_eq!(avahi_record.flags, 0);
    assert_eq!(avahi_record.name, "alias.local");
    assert_eq!(avahi_record.class, RecordClass::In);
    assert_eq!(avahi_record.rtype, RecordType::Cname);
    assert_eq!(avahi_record.ttl_secs, 60);
    assert_eq!(avahi_record.rdata, rdata);
}

#[test]
fn publication_records_cover_valid_aliases_only() {
    let content = "a.local\nx*.local\nb.local\n";
    let file =
        avahi_aliases::AliasesFile::from_text("avahi-aliases", content, true).unwrap();
    let rdata = encode_rdata("host.local");
    let records = avahi_aliases::daemon::publication_records(&file, &rdata, 60);
    assert_eq!(records.len(), 2);
    assert_eq!(records[0].name, "a.local");
    assert_eq!(records[1].name, "b.local");
    assert_eq!(records[0].rtype, RecordType::Cname);
    assert_eq!(records[0].rdata, rdata);
    assert_eq!(records[0].ttl_secs, 60);
}

#[test]
fn needs_reload_detects_fingerprint_change() {
    let first = avahi_aliases::daemon::initial_modified_size();
    let same = avahi_aliases::daemon::initial_modified_size();
    assert!(!avahi_aliases::daemon::needs_reload(&first, &same));
    let grown = avahi_aliases::daemon::ModifiedSize { unix_nanos: 5, len: 10 };
    assert!(avahi_aliases::daemon::needs_reload(&first, &grown));
    let touched = avahi_aliases::daemon::ModifiedSize { unix_nanos: 6, len: 10 };
    assert!(avahi_aliases::daemon::needs_reload(&grown, &touched));
}

#[test]
fn list_lines_flags_invalid_entries() {
    let content = "a.local\nx*.local\n";
    let file =
        avahi_aliases::AliasesFile::from_text("avahi-aliases", content, true).unwrap();
    let lines = avahi_aliases::commands::list_lines(&file);
    assert_eq!(lines.len(), 2);
    assert_eq!(lines[0], "a.local");
    assert_eq!(lines[1], "ERROR: invalid alias \"x*.local\"");
}

#[test]
fn split_aliases_partitions_by_presence() {
    let file_aliases = vec![String::from("a.local"), String::from("b.local")];
    let args =
        vec![String::from("b.local"), String::from("c.local"), String::from("a.local")];
    let (extant, fresh) = avahi_aliases::commands::split_aliases(&file_aliases, &args);
    assert_eq!(extant, vec![String::from("b.local"), String::from("a.local")]);
    assert_eq!(fresh, vec![String::from("c.local")]);
}
