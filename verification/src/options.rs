//! The options the command-line tool and the daemon run with, and the
//! validation of their numeric arguments.

use vstd::prelude::*;

use crate::num_text::num_body;
use crate::num_text::parse_fail_text;
use crate::num_text::parse_u64;
use crate::num_text::str_num;
use crate::num_text::u64_parse_ok;

verus! {

/// Options shared by every command: logging verbosity and the alias file's
/// path.
#[derive(Debug)]
pub struct CommonOpts {
    /// Print detailed progress messages.
    pub verbose: bool,
    /// Print detailed and debugging messages.
    pub debug: bool,
    /// The alias file to work on.
    pub file: String,
}

impl Default for CommonOpts {
    /// The defaults with no flags given: quiet, on the system alias file.
    fn default() -> (r: CommonOpts)
        ensures
            !r.verbose,
            !r.debug,
            r.file@ == "/etc/avahi/avahi-aliases"@,
    {
        CommonOpts { verbose: false, debug: false, file: "/etc/avahi/avahi-aliases".to_owned() }
    }
}

/// The subcommand the tool executes.
#[derive(Debug)]
pub enum Command {
    /// Add aliases.
    Add {
        /// Aliases to add.
        aliases: Vec<String>,
    },
    /// Remove aliases.
    Remove {
        /// Aliases to remove.
        aliases: Vec<String>,
        /// Also purge invalid aliases.
        force: bool,
    },
    /// List the existing aliases.
    List {},
}

/// The command-line tool's parsed arguments.
#[derive(Debug)]
pub struct CommandOpts {
    /// The subcommand to execute.
    pub cmd: Command,
    /// The shared options.
    pub common: CommonOpts,
}

/// The daemon's parsed arguments.
#[derive(Debug)]
pub struct DaemonOpts {
    /// The shared options.
    pub common: CommonOpts,
    /// Change-detection polling interval, in seconds.
    pub polling_interval: u64,
    /// Log to the system log rather than the console.
    pub syslog: bool,
    /// Connection timeout for the discovery service, in seconds.
    pub timeout: u64,
    /// Time-to-live of the published aliases, in seconds.
    pub ttl: u64,
}

impl Default for DaemonOpts {
    /// The defaults with no flags given: poll every thirty seconds, a
    /// one-minute timeout and time-to-live, console logging.
    fn default() -> (r: DaemonOpts)
        ensures
            !r.common.verbose,
            !r.common.debug,
            r.common.file@ == "/etc/avahi/avahi-aliases"@,
            r.polling_interval == 30,
            !r.syslog,
            r.timeout == 60,
            r.ttl == 60,
    {
        DaemonOpts {
            common: CommonOpts::default(),
            polling_interval: 30,
            syslog: false,
            timeout: 60,
            ttl: 60,
        }
    }
}

/// Check a polling-interval argument: a number of seconds from ten to
/// sixty.
pub fn validate_polling_interval(value: String) -> (r: Result<(), String>)
    ensures
        r is Ok <==> (u64_parse_ok(value@) && 10 <= str_num(num_body(value@)) <= 60),
        r matches Err(m) ==> m@ == (if u64_parse_ok(value@) {
            "polling interval must be 10-60 seconds"@
        } else {
            parse_fail_text(value@)
        }),
{
    match parse_u64(value.as_str()) {
        Err(e) => Err(e.message().to_owned()),
        Ok(v) => if v < 10 || v > 60 {
            Err("polling interval must be 10-60 seconds".to_owned())
        } else {
            Ok(())
        },
    }
}

/// Check a connection-timeout argument: a number of seconds from ten to
/// three hundred.
pub fn validate_timeout(value: String) -> (r: Result<(), String>)
    ensures
        r is Ok <==> (u64_parse_ok(value@) && 10 <= str_num(num_body(value@)) <= 300),
        r matches Err(m) ==> m@ == (if u64_parse_ok(value@) {
            "timeout must be 10-300 seconds"@
        } else {
            parse_fail_text(value@)
        }),
{
    match parse_u64(value.as_str()) {
        Err(e) => Err(e.message().to_owned()),
        Ok(v) => if v < 10 || v > 300 {
            Err("timeout must be 10-300 seconds".to_owned())
        } else {
            Ok(())
        },
    }
}

/// Check a time-to-live argument: a number of seconds that fits a signed
/// 32-bit value.
pub fn validate_ttl(value: String) -> (r: Result<(), String>)
    ensures
        r is Ok <==> (u64_parse_ok(value@) && str_num(num_body(value@)) <= i32::MAX),
        r matches Err(m) ==> m@ == (if u64_parse_ok(value@) {
            "time-to-live (TTL) must be less than 2,147,483,648 (2^31) seconds"@
        } else {
            parse_fail_text(value@)
        }),
{
    match parse_u64(value.as_str()) {
        Err(e) => Err(e.message().to_owned()),
        Ok(v) => if v > 0x7fff_ffff {
            Err("time-to-live (TTL) must be less than 2,147,483,648 (2^31) seconds".to_owned())
        } else {
            Ok(())
        },
    }
}

} // verus!
