//! Error consolidation: one closed set of structured error variants, so that
//! callers can branch on kind and user-facing code can render a message.

use vstd::prelude::*;

use crate::num_text::dec_int_seq;
use crate::num_text::i64_to_string;

verus! {

/// Every error the library's operations can report. I/O causes are carried
/// as their rendered text; the caller that performed the I/O supplies it.
#[derive(Debug)]
pub enum ErrorWrapper {
    /// A failure in the message-bus binding.
    DBusError {
        /// What the bus reported.
        message: String,
    },
    /// An invalid alias supplied by a caller.
    InvalidAliasError {
        /// The invalid alias.
        alias: String,
    },
    /// An invalid alias found in the alias file during a strict load.
    InvalidAliasFileError {
        /// Name of the alias file containing the error.
        file_name: String,
        /// The first invalid alias, in file order.
        alias: String,
    },
    /// Logging could not be set up.
    LoggingError,
    /// The alias file's metadata could not be read.
    MetadataError {
        /// Name of the alias file.
        file_name: String,
        /// The underlying cause, rendered as text.
        source: String,
    },
    /// The alias file could not be opened.
    OpenError {
        /// Name of the alias file.
        file_name: String,
        /// The underlying cause, rendered as text.
        source: String,
    },
    /// The alias file could not be read.
    ReadError {
        /// Name of the alias file.
        file_name: String,
        /// The underlying cause, rendered as text.
        source: String,
    },
    /// The alias file could not be written.
    WriteError {
        /// Name of the alias file.
        file_name: String,
        /// The underlying cause, rendered as text.
        source: String,
    },
    /// A protocol value had no corresponding enumeration constant.
    EnumOutOfRangeError {
        /// Name of the enumeration.
        enum_name: String,
        /// The value that matched no constant.
        value: i64,
    },
}

/// The message text of an error.
pub open spec fn message_spec(e: ErrorWrapper) -> Seq<char> {
    match e {
        ErrorWrapper::DBusError { message } => "D-Bus failure: "@ + message@,
        ErrorWrapper::InvalidAliasError { alias } => "invalid alias: \""@ + alias@ + "\""@,
        ErrorWrapper::InvalidAliasFileError { file_name, alias } => "invalid alias \""@ + alias@
            + "\" found in \""@ + file_name@ + "\""@,
        ErrorWrapper::LoggingError => "logging error"@,
        ErrorWrapper::MetadataError { file_name, source } => "could not get metadata for \""@
            + file_name@ + "\": "@ + source@ + "."@,
        ErrorWrapper::OpenError { file_name, source } => "could not open \""@ + file_name@
            + "\": "@ + source@ + "."@,
        ErrorWrapper::ReadError { file_name, source } => "could not read \""@ + file_name@
            + "\": "@ + source@ + "."@,
        ErrorWrapper::WriteError { file_name, source } => "could not write \""@ + file_name@
            + "\": "@ + source@ + "."@,
        ErrorWrapper::EnumOutOfRangeError { enum_name, value } => "no "@ + enum_name@
            + " constant matches the value "@ + dec_int_seq(value as int),
    }
}

impl ErrorWrapper {
    /// Render the error as a message for user-facing and logging code.
    pub fn message(&self) -> (r: String)
        ensures
            r@ == message_spec(*self),
    {
        let mut s = String::new();
        match self {
            ErrorWrapper::DBusError { message } => {
                s.append("D-Bus failure: ");
                s.append(message.as_str());
            },
            ErrorWrapper::InvalidAliasError { alias } => {
                s.append("invalid alias: \"");
                s.append(alias.as_str());
                s.append("\"");
            },
            ErrorWrapper::InvalidAliasFileError { file_name, alias } => {
                s.append("invalid alias \"");
                s.append(alias.as_str());
                s.append("\" found in \"");
                s.append(file_name.as_str());
                s.append("\"");
            },
            ErrorWrapper::LoggingError => {
                s.append("logging error");
            },
            ErrorWrapper::MetadataError { file_name, source } => {
                s.append("could not get metadata for \"");
                s.append(file_name.as_str());
                s.append("\": ");
                s.append(source.as_str());
                s.append(".");
            },
            ErrorWrapper::OpenError { file_name, source } => {
                s.append("could not open \"");
                s.append(file_name.as_str());
                s.append("\": ");
                s.append(source.as_str());
                s.append(".");
            },
            ErrorWrapper::ReadError { file_name, source } => {
                s.append("could not read \"");
                s.append(file_name.as_str());
                s.append("\": ");
                s.append(source.as_str());
                s.append(".");
            },
            ErrorWrapper::WriteError { file_name, source } => {
                s.append("could not write \"");
                s.append(file_name.as_str());
                s.append("\": ");
                s.append(source.as_str());
                s.append(".");
            },
            ErrorWrapper::EnumOutOfRangeError { enum_name, value } => {
                s.append("no ");
                s.append(enum_name.as_str());
                s.append(" constant matches the value ");
                s.append(i64_to_string(*value).as_str());
            },
        }
        proof {
            assert(s@ =~= message_spec(*self));
        }
        s
    }

    /// Build an [`ErrorWrapper::InvalidAliasError`].
    pub fn new_invalid_alias_error(alias: &str) -> (r: ErrorWrapper)
        ensures
            r matches ErrorWrapper::InvalidAliasError { alias: a } && a@ == alias@,
    {
        ErrorWrapper::InvalidAliasError { alias: alias.to_owned() }
    }

    /// Build an [`ErrorWrapper::InvalidAliasFileError`].
    pub fn new_invalid_alias_file_error(file_name: &str, alias: &str) -> (r: ErrorWrapper)
        ensures
            r matches ErrorWrapper::InvalidAliasFileError { file_name: f, alias: a } && f@
                == file_name@ && a@ == alias@,
    {
        ErrorWrapper::InvalidAliasFileError {
            file_name: file_name.to_owned(),
            alias: alias.to_owned(),
        }
    }

    /// Build an [`ErrorWrapper::MetadataError`] from the cause's text.
    pub fn new_metadata_error(file_name: &str, source: &str) -> (r: ErrorWrapper)
        ensures
            r matches ErrorWrapper::MetadataError { file_name: f, source: s } && f@ == file_name@
                && s@ == source@,
    {
        ErrorWrapper::MetadataError {
            file_name: file_name.to_owned(),
            source: source.to_owned(),
        }
    }

    /// Build an [`ErrorWrapper::OpenError`] from the cause's text.
    pub fn new_open_error(file_name: &str, source: &str) -> (r: ErrorWrapper)
        ensures
            r matches ErrorWrapper::OpenError { file_name: f, source: s } && f@ == file_name@
                && s@ == source@,
    {
        ErrorWrapper::OpenError { file_name: file_name.to_owned(), source: source.to_owned() }
    }

    /// Build an [`ErrorWrapper::ReadError`] from the cause's text.
    pub fn new_read_error(file_name: &str, source: &str) -> (r: ErrorWrapper)
        ensures
            r matches ErrorWrapper::ReadError { file_name: f, source: s } && f@ == file_name@
                && s@ == source@,
    {
        ErrorWrapper::ReadError { file_name: file_name.to_owned(), source: source.to_owned() }
    }

    /// Build an [`ErrorWrapper::WriteError`] from the cause's text.
    pub fn new_write_error(file_name: &str, source: &str) -> (r: ErrorWrapper)
        ensures
            r matches ErrorWrapper::WriteError { file_name: f, source: s } && f@ == file_name@
                && s@ == source@,
    {
        ErrorWrapper::WriteError { file_name: file_name.to_owned(), source: source.to_owned() }
    }

    /// Build an [`ErrorWrapper::EnumOutOfRangeError`].
    pub fn new_enum_out_of_range_error(enum_name: &str, value: i64) -> (r: ErrorWrapper)
        ensures
            r matches ErrorWrapper::EnumOutOfRangeError { enum_name: n, value: v } && n@
                == enum_name@ && v == value,
    {
        ErrorWrapper::EnumOutOfRangeError { enum_name: enum_name.to_owned(), value }
    }
}

} // verus!
