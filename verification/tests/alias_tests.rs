use avahi_aliases::is_valid_alias;
use avahi_aliases::new_alias;
use avahi_aliases::validate_aliases;

static VALID_ALIASES: [&str; 4] = ["a.local", "xyzzy.local", "b0.local", "a-z.local"];
static INVALID_ALIASES: [&str; 5] = ["a. local", "xyzz*.local", ".local", "-.local", "a-.local"];

fn owned(items: &[&str]) -> Vec<String> {
    items.iter().map(|s| String::from(*s)).collect()
}

#[test]
fn alias_is_valid_returns_true_for_valid_alias() {
    VALID_ALIASES.iter().for_each(|a| assert!(is_valid_alias(a)))
}

#[test]
fn alias_is_valid_returns_false_for_invalid_alias() {
    INVALID_ALIASES.iter().for_each(|a| assert!(!is_valid_alias(a)))
}

#[test]
fn alias_validate_returns_ok_for_valid_alias() {
    VALID_ALIASES.iter().for_each(|a| assert!(new_alias(a).is_ok()))
}

#[test]
fn alias_validate_returns_err_for_invalid_alias() {
    INVALID_ALIASES.iter().for_each(|a| assert!(new_alias(a).is_err()))
}

#[test]
fn alias_validate_saves_valid_alias_as_ok() {
    VALID_ALIASES.iter().for_each(|a| assert_eq!(new_alias(a).unwrap(), *a))
}

#[test]
fn alias_validate_saves_invalid_alias_as_err() {
    INVALID_ALIASES.iter().for_each(|a| assert_eq!(new_alias(a).unwrap_err(), *a))
}

#[test]
fn alias_validate_aliases_returns_ok_for_valid_aliases() {
    let r = validate_aliases(&owned(&VALID_ALIASES));
    assert!(r.is_ok())
}

#[test]
fn alias_validate_aliases_returns_err_for_invalid_aliases() {
    let r = validate_aliases(&owned(&INVALID_ALIASES));
    assert!(r.is_err())
}

#[test]
fn alias_grammar_edge_cases() {
    // A bare single alphanumeric name is valid.
    assert!(is_valid_alias("a.local"));
    assert!(is_valid_alias("0.local"));
    // Empty, uppercase, a star, a missing suffix, a hyphen at either end:
    // all invalid.
    assert!(!is_valid_alias(""));
    assert!(!is_valid_alias("A.local"));
    assert!(!is_valid_alias("x*.local"));
    assert!(!is_valid_alias("xyzzy"));
    assert!(!is_valid_alias("-x.local"));
    assert!(!is_valid_alias("x-.local"));
    assert!(!is_valid_alias(".local"));
}

#[test]
fn validate_aliases_names_first_invalid() {
    let batch = owned(&["a.local", "b*.local", "c*.local"]);
    match validate_aliases(&batch) {
        Err(avahi_aliases::ErrorWrapper::InvalidAliasError { alias }) => {
            assert_eq!(alias, "b*.local")
        },
        _ => panic!("expected the first invalid alias to be reported"),
    }
}
