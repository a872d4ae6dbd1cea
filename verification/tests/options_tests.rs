use avahi_aliases::CommonOpts;
use avahi_aliases::DaemonOpts;
use avahi_aliases::LogLevel;
use avahi_aliases::compute_log_level;
use avahi_aliases::options::validate_polling_interval;
use avahi_aliases::options::validate_timeout;
use avahi_aliases::options::validate_ttl;

#[test]
fn empty_common_opts_yields_defaults() {
    let common_opts = CommonOpts::default();
    assert!(!common_opts.debug);
    assert_eq!(common_opts.file, "/etc/avahi/avahi-aliases");
    assert!(!common_opts.verbose);
}

#[test]
fn empty_options_yields_defaults_for_daemon() {
    let opts = DaemonOpts::default();
    assert!(!opts.common.debug);
    assert_eq!(opts.common.file, "/etc/avahi/avahi-aliases");
    assert!(!opts.common.verbose);
    assert_eq!(opts.polling_interval, 30);
    assert_eq!(opts.timeout, 60);
    assert_eq!(opts.ttl, 60);
    assert!(!opts.syslog);
}

#[test]
fn polling_interval_validation_returns_ok_for_in_range_values() {
    assert!(validate_polling_interval(String::from("10")).is_ok());
    assert!(validate_polling_interval(String::from("30")).is_ok());
    assert!(validate_polling_interval(String::from("60")).is_ok());
}

#[test]
fn polling_interval_validation_returns_error_for_out_of_range_values() {
    assert!(validate_polling_interval(String::from("0")).is_err());
    assert!(validate_polling_interval(String::from("9")).is_err());
    assert!(validate_polling_interval(String::from("61")).is_err());
    assert!(validate_polling_interval(String::from("120")).is_err());
}

#[test]
fn polling_interval_validation_returns_error_for_invalid_values() {
    assert!(validate_polling_interval(String::from("not-a-number")).is_err());
}

#[test]
fn polling_interval_validation_returns_correct_message_on_error() {
    assert_eq!(
        validate_polling_interval(String::from("0")).unwrap_err(),
        "polling interval must be 10-60 seconds"
    );
    assert_eq!(
        validate_polling_interval(String::from("not-a-number")).unwrap_err(),
        "invalid digit found in string"
    );
}

#[test]
fn timeout_validation_returns_ok_for_in_range_values() {
    assert!(validate_timeout(String::from("10")).is_ok());
    assert!(validate_timeout(String::from("60")).is_ok());
    assert!(validate_timeout(String::from("300")).is_ok());
}

#[test]
fn timeout_validation_returns_error_for_out_of_range_values() {
    assert!(validate_timeout(String::from("0")).is_err());
    assert!(validate_timeout(String::from("9")).is_err());
    assert!(validate_timeout(String::from("301")).is_err());
    assert!(validate_timeout(String::from("600")).is_err());
}

#[test]
fn timeout_validation_returns_error_for_invalid_values() {
    assert!(validate_timeout(String::from("not-a-number")).is_err());
}

#[test]
fn timeout_validation_returns_correct_message_on_error() {
    assert_eq!(
        validate_timeout(String::from("0")).unwrap_err(),
        "timeout must be 10-300 seconds"
    );
    assert_eq!(
        validate_timeout(String::from("not-a-number")).unwrap_err(),
        "invalid digit found in string"
    );
}

#[test]
fn ttl_validation_returns_ok_for_in_range_values() {
    assert!(validate_ttl(String::from("0")).is_ok());
    assert!(validate_ttl(String::from("30")).is_ok());
    assert!(validate_ttl(String::from("86400")).is_ok());
    assert!(validate_ttl(i32::MAX.to_string()).is_ok());
}

#[test]
fn ttl_validation_returns_error_for_out_of_range_values() {
    assert!(validate_ttl(((i32::MAX as u64) + 1).to_string()).is_err());
    assert!(validate_ttl(u64::MAX.to_string()).is_err());
}

#[test]
fn ttl_validation_returns_error_for_invalid_values() {
    assert!(validate_ttl(String::from("not-a-number")).is_err());
}

#[test]
fn ttl_validation_returns_correct_message_on_error() {
    assert_eq!(
        validate_ttl(((i32::MAX as u64) + 1).to_string()).unwrap_err(),
        "time-to-live (TTL) must be less than 2,147,483,648 (2^31) seconds"
    );
    assert_eq!(
        validate_ttl(String::from("not-a-number")).unwrap_err(),
        "invalid digit found in string"
    );
}

#[test]
fn compute_log_level_yields_warn_as_default() {
    assert_eq!(compute_log_level(false, false), LogLevel::Warn);
}

#[test]
fn compute_log_level_yields_info_for_verbose() {
    assert_eq!(compute_log_level(true, false), LogLevel::Info);
}

#[test]
fn compute_log_level_yields_debug_for_debug() {
    assert_eq!(compute_log_level(false, true), LogLevel::Debug);
    assert_eq!(compute_log_level(true, true), LogLevel::Debug);
}

#[test]
fn parse_empty_and_overflow_messages_match_std() {
    assert_eq!(
        validate_ttl(String::from("")).unwrap_err(),
        "cannot parse integer from empty string"
    );
    assert_eq!(
        validate_ttl(String::from("99999999999999999999999")).unwrap_err(),
        "number too large to fit in target type"
    );
}

#[test]
fn validate_alias_enforces_the_alias_grammar() {
    assert!(avahi_aliases::validation::validate_alias("a.local").is_ok());
    assert!(avahi_aliases::validation::validate_alias("a-z.local").is_ok());
    assert!(avahi_aliases::validation::validate_alias(".local").is_err());
    assert!(avahi_aliases::validation::validate_alias("-.local").is_err());
    assert!(avahi_aliases::validation::validate_alias("a-.local").is_err());
    assert!(avahi_aliases::validation::validate_alias("x*.local").is_err());
    assert!(avahi_aliases::validation::validate_alias("xyzzy").is_err());
}

#[test]
fn leading_plus_sign_is_accepted_like_std_parse() {
    assert!(validate_polling_interval(String::from("+30")).is_ok());
    assert!(validate_timeout(String::from("+60")).is_ok());
    assert!(validate_ttl(String::from("+1")).is_ok());
    assert_eq!(
        validate_ttl(String::from("+")).unwrap_err(),
        "invalid digit found in string"
    );
    assert_eq!(
        validate_ttl(String::from("++1")).unwrap_err(),
        "invalid digit found in string"
    );
    assert_eq!(
        validate_ttl(String::from("-1")).unwrap_err(),
        "invalid digit found in string"
    );
    assert_eq!("+30".parse::<u64>().unwrap(), 30);
    assert!("+".parse::<u64>().is_err());
}
