use std::io;

use avahi_aliases::ErrorWrapper;

type TestResult = Result<(), ErrorWrapper>;

static TEST_ALIAS: &str = "a0.local";
static TEST_FILENAME: &str = "avahi-aliases";
static TEST_MESSAGE: &str = "message";

#[test]
fn dbus_error_creation_works() {
    if let Err(error) = Err(ErrorWrapper::DBusError { message: TEST_MESSAGE.to_owned() })
        as TestResult
    {
        let _ = error.message();
    }
}

#[test]
fn dbus_error_produces_correct_message() {
    if let Err(error) = Err(ErrorWrapper::DBusError { message: TEST_MESSAGE.to_owned() })
        as TestResult
    {
        assert_eq!(error.message(), format!(r#"D-Bus failure: {}"#, TEST_MESSAGE))
    }
}

#[test]
fn invalid_alias_error_creation_works() {
    if let Err(error) = Err(ErrorWrapper::InvalidAliasError { alias: TEST_ALIAS.to_owned() })
        as TestResult
    {
        let _ = error.message();
    }
}

#[test]
fn new_invalid_alias_error_creation_works() {
    let _ = ErrorWrapper::new_invalid_alias_error(TEST_ALIAS);
}

#[test]
fn invalid_alias_error_produces_correct_message() {
    if let Err(error) = Err(ErrorWrapper::InvalidAliasError { alias: TEST_ALIAS.to_owned() })
        as TestResult
    {
        assert_eq!(error.message(), format!(r#"invalid alias: "{}""#, TEST_ALIAS))
    }
}

#[test]
fn invalid_alias_file_error_creation_works() {
    if let Err(error) = Err(ErrorWrapper::InvalidAliasFileError {
        file_name: TEST_FILENAME.to_owned(),
        alias: TEST_ALIAS.to_owned(),
    }) as TestResult
    {
        let _ = error.message();
    }
}

#[test]
fn new_invalid_alias_file_error_creation_works() {
    let _ = ErrorWrapper::new_invalid_alias_file_error(TEST_FILENAME, TEST_ALIAS);
}

#[test]
fn invalid_alias_file_error_produces_correct_message() {
    if let Err(error) = Err(ErrorWrapper::InvalidAliasFileError {
        file_name: TEST_FILENAME.to_owned(),
        alias: TEST_ALIAS.to_owned(),
    }) as TestResult
    {
        assert_eq!(
            error.message(),
            format!(r#"invalid alias "{}" found in "{}""#, TEST_ALIAS, TEST_FILENAME)
        )
    }
}

#[test]
fn logging_error_creation_works() {
    if let Err(error) = Err(ErrorWrapper::LoggingError) as TestResult {
        let _ = error.message();
    }
}

#[test]
fn logging_error_produces_correct_message() {
    if let Err(error) = Err(ErrorWrapper::LoggingError) as TestResult {
        assert_eq!(error.message(), r#"logging error"#)
    }
}

#[test]
fn metadata_error_creation_works() {
    let source = io::Error::new(io::ErrorKind::AddrInUse, TEST_MESSAGE).to_string();
    if let Err(error) = Err(ErrorWrapper::MetadataError {
        file_name: TEST_FILENAME.to_owned(),
        source,
    }) as TestResult
    {
        let _ = error.message();
    }
}

#[test]
fn new_metadata_error_creation_works() {
    let source = io::Error::new(io::ErrorKind::AddrInUse, TEST_MESSAGE).to_string();
    let _ = ErrorWrapper::new_metadata_error(TEST_FILENAME, &source);
}

#[test]
fn metadata_error_produces_correct_message() {
    let source = io::Error::new(io::ErrorKind::AddrInUse, TEST_MESSAGE).to_string();
    if let Err(error) = Err(ErrorWrapper::MetadataError {
        file_name: TEST_FILENAME.to_owned(),
        source,
    }) as TestResult
    {
        assert_eq!(
            error.message(),
            format!(
                r#"could not get metadata for "{}": {}."#,
                TEST_FILENAME,
                io::Error::new(io::ErrorKind::AddrInUse, TEST_MESSAGE)
            )
        )
    }
}

#[test]
fn open_error_creation_works() {
    let source = io::Error::new(io::ErrorKind::AddrInUse, TEST_MESSAGE).to_string();
    if let Err(error) = Err(ErrorWrapper::OpenError {
        file_name: TEST_FILENAME.to_owned(),
        source,
    }) as TestResult
    {
        let _ = error.message();
    }
}

#[test]
fn new_open_error_creation_works() {
    let source = io::Error::new(io::ErrorKind::AddrInUse, TEST_MESSAGE).to_string();
    let _ = ErrorWrapper::new_open_error(TEST_FILENAME, &source);
}

#[test]
fn open_error_produces_correct_message() {
    let source = io::Error::new(io::ErrorKind::AddrInUse, TEST_MESSAGE).to_string();
    if let Err(error) = Err(ErrorWrapper::OpenError {
        file_name: TEST_FILENAME.to_owned(),
        source,
    }) as TestResult
    {
        assert_eq!(
            error.message(),
            format!(
                r#"could not open "{}": {}."#,
                TEST_FILENAME,
                io::Error::new(io::ErrorKind::AddrInUse, TEST_MESSAGE)
            )
        )
    }
}

#[test]
fn read_error_creation_works() {
    let source = io::Error::new(io::ErrorKind::AddrInUse, TEST_MESSAGE).to_string();
    if let Err(error) = Err(ErrorWrapper::ReadError {
        file_name: TEST_FILENAME.to_owned(),
        source,
    }) as TestResult
    {
        let _ = error.message();
    }
}

#[test]
fn new_read_error_creation_works() {
    let source = io::Error::new(io::ErrorKind::AddrInUse, TEST_MESSAGE).to_string();
    let _ = ErrorWrapper::new_read_error(TEST_FILENAME, &source);
}

#[test]
fn read_error_produces_correct_message() {
    let source = io::Error::new(io::ErrorKind::AddrInUse, TEST_MESSAGE).to_string();
    if let Err(error) = Err(ErrorWrapper::ReadError {
        file_name: TEST_FILENAME.to_owned(),
        source,
    }) as TestResult
    {
        assert_eq!(
            error.message(),
            format!(
                r#"could not read "{}": {}."#,
                TEST_FILENAME,
                io::Error::new(io::ErrorKind::AddrInUse, TEST_MESSAGE)
            )
        )
    }
}

#[test]
fn write_error_creation_works() {
    let source = io::Error::new(io::ErrorKind::AddrInUse, TEST_MESSAGE).to_string();
    if let Err(error) = Err(ErrorWrapper::WriteError {
        file_name: TEST_FILENAME.to_owned(),
        source,
    }) as TestResult
    {
        let _ = error.message();
    }
}

#[test]
fn new_write_error_creation_works() {
    let source = io::Error::new(io::ErrorKind::AddrInUse, TEST_MESSAGE).to_string();
    let _ = ErrorWrapper::new_write_error(TEST_FILENAME, &source);
}

#[test]
fn write_error_produces_correct_message() {
    let source = io::Error::new(io::ErrorKind::AddrInUse, TEST_MESSAGE).to_string();
    if let Err(error) = Err(ErrorWrapper::WriteError {
        file_name: TEST_FILENAME.to_owned(),
        source,
    }) as TestResult
    {
        assert_eq!(
            error.message(),
            format!(
                r#"could not write "{}": {}."#,
                TEST_FILENAME,
                io::Error::new(io::ErrorKind::AddrInUse, TEST_MESSAGE)
            )
        )
    }
}

#[test]
fn enum_out_of_range_error_creation_works() {
    let error = ErrorWrapper::new_enum_out_of_range_error("ServerState", 99);
    let _ = error.message();
}
