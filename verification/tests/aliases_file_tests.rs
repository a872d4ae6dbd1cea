use avahi_aliases::AliasesFile;
use avahi_aliases::ErrorWrapper;
use avahi_aliases::cnames::CNamesFile;

const FILE_HEADER: &str = "# This is a unit test temporary file";
const VALID_ALIASES: [&str; 5] = ["a.local", "b.local", "c.local", "d.local", "e.local"];
const INVALID_ALIASES: [&str; 5] = [".local", "x .local", "x*.local", "-.local", "*.local"];
const TEST_NAME: &str = "avahi-aliases";

fn make_content(line_count: usize, include_invalid: bool) -> String {
    let mut content = format!("{}\n", FILE_HEADER);
    for i in 0..line_count {
        content.push_str(&format!("{}\n", VALID_ALIASES[i]));
    }
    if include_invalid {
        content.push_str(&format!("{}\n", INVALID_ALIASES[line_count]));
    }
    content
}

fn owned(items: &[&str]) -> Vec<String> {
    items.iter().map(|s| String::from(*s)).collect()
}

#[test]
fn from_file_loads_expected_content() {
    for n in 0..5 {
        let content = make_content(n, true);
        let aliases_file = AliasesFile::from_text(TEST_NAME, &content, true).unwrap();
        assert_eq!(aliases_file.lines()[0].text(), FILE_HEADER);
        for i in 0..n {
            assert_eq!(aliases_file.lines()[i + 1].text(), VALID_ALIASES[i]);
        }
        assert_eq!(aliases_file.lines()[n + 1].text(), INVALID_ALIASES[n]);
    }
}

#[test]
fn alias_count_returns_correct_count() {
    for n in 0..5 {
        let content = make_content(n, false);
        let aliases_file = AliasesFile::from_text(TEST_NAME, &content, false).unwrap();
        assert_eq!(aliases_file.lines().len(), n + 1);
        assert_eq!(aliases_file.alias_count(), n);
    }
}

#[test]
fn load_fails_when_invalid_alias_not_allowed() {
    for n in 1..5 {
        let content = make_content(n, true);
        let aliases_file = AliasesFile::from_text(TEST_NAME, &content, false);
        assert!(aliases_file.is_err());
    }
}

#[test]
fn aliases_returns_expected_aliases() {
    for n in 0..5 {
        let content = make_content(n, true);
        let aliases_file = AliasesFile::from_text(TEST_NAME, &content, true).unwrap();
        for i in 0..n {
            assert_eq!(aliases_file.all_aliases()[i].clone().unwrap(), VALID_ALIASES[i]);
        }
    }
}

#[test]
fn all_aliases_returns_expected_aliases() {
    for n in 0..5 {
        let content = make_content(n, true);
        let aliases_file = AliasesFile::from_text(TEST_NAME, &content, true).unwrap();
        for i in 0..n {
            assert_eq!(aliases_file.all_aliases()[i].clone().unwrap(), VALID_ALIASES[i]);
        }
        assert_eq!(aliases_file.all_aliases()[n].clone().unwrap_err(), INVALID_ALIASES[n]);
    }
}

#[test]
fn load_succeeds_when_invalid_alias_allowed() {
    for n in 1..5 {
        let content = make_content(n, true);
        let aliases_file = AliasesFile::from_text(TEST_NAME, &content, true);
        assert!(aliases_file.is_ok());
    }
}

#[test]
fn append_appends() {
    for n in 0..5 {
        let content = make_content(n, false);
        let aliases_file = AliasesFile::from_text(TEST_NAME, &content, false).unwrap();
        let payload = aliases_file
            .append(&owned(&["b0.local"]))
            .unwrap_or_else(|error| panic!("Append failed: {}", error.message()));
        let rewritten = format!("{}{}", content, payload);
        let aliases_file = AliasesFile::from_text(TEST_NAME, &rewritten, false).unwrap();
        let aliases = aliases_file.aliases();
        assert_eq!(aliases[n], "b0.local");
    }
}

#[test]
fn remove_removes() {
    for n in 0..5 {
        let content = make_content(n, false);
        let aliases_file = AliasesFile::from_text(TEST_NAME, &content, false).unwrap();
        let rewritten = if n >= 2 {
            aliases_file
                .remove(&owned(&[VALID_ALIASES[0], VALID_ALIASES[2]]), false)
                .unwrap_or_else(|error| panic!("Remove failed: {}", error.message()))
        } else if n > 0 {
            aliases_file
                .remove(&owned(&[VALID_ALIASES[0]]), false)
                .unwrap_or_else(|error| panic!("Remove failed: {}", error.message()))
        } else {
            content.clone()
        };
        let aliases_file = AliasesFile::from_text(TEST_NAME, &rewritten, false).unwrap();
        let aliases = aliases_file.aliases();
        if n > 3 {
            assert_eq!(aliases[0], VALID_ALIASES[1]);
            assert_eq!(aliases[1], VALID_ALIASES[3]);
        } else if n > 1 {
            assert_eq!(aliases[0], VALID_ALIASES[1]);
        }
    }
}

#[test]
fn remove_force_removes_invalid_alias_in_avahi_aliases_file() {
    for n in 1..5 {
        let content = make_content(n, true);
        let aliases_file = AliasesFile::from_text(TEST_NAME, &content, true).unwrap();
        let rewritten = aliases_file.remove(&owned(&[]), false).unwrap();
        let aliases_file = AliasesFile::from_text(TEST_NAME, &rewritten, false);
        assert!(aliases_file.is_ok());
    }
}

#[test]
fn scenario_comments_and_blanks_never_surface() {
    let content = "a.local\n# comment\n\nb.local\n";
    let file = AliasesFile::from_text(TEST_NAME, content, true).unwrap();
    assert_eq!(file.aliases(), vec!["a.local".to_string(), "b.local".to_string()]);
    assert_eq!(file.all_aliases().len(), 2);
    assert!(AliasesFile::from_text(TEST_NAME, content, false).is_ok());
}

#[test]
fn scenario_strict_load_names_the_invalid_entry() {
    let content = "a.local\nx*.local\n";
    match AliasesFile::from_text(TEST_NAME, content, false) {
        Err(ErrorWrapper::InvalidAliasFileError { file_name, alias }) => {
            assert_eq!(file_name, TEST_NAME);
            assert_eq!(alias, "x*.local");
        },
        _ => panic!("expected the strict load to fail on the invalid entry"),
    }
    let file = AliasesFile::from_text(TEST_NAME, content, true).unwrap();
    assert_eq!(file.invalid_aliases(), vec!["x*.local".to_string()]);
}

#[test]
fn scenario_append_to_empty_file() {
    let file = AliasesFile::from_text(TEST_NAME, "", false).unwrap();
    let payload = file.append(&owned(&["b0.local"])).unwrap();
    let file = AliasesFile::from_text(TEST_NAME, &payload, false).unwrap();
    assert_eq!(file.aliases(), vec!["b0.local".to_string()]);
}

#[test]
fn append_preserves_prior_content_in_order() {
    let content = "# header\na.local\n\n";
    let file = AliasesFile::from_text(TEST_NAME, content, false).unwrap();
    let payload = file.append(&owned(&["b.local", "c.local"])).unwrap();
    let rewritten = format!("{}{}", content, payload);
    let file = AliasesFile::from_text(TEST_NAME, &rewritten, false).unwrap();
    assert_eq!(file.lines()[0].text(), "# header");
    assert_eq!(
        file.aliases(),
        vec!["a.local".to_string(), "b.local".to_string(), "c.local".to_string()]
    );
}

#[test]
fn remove_keeps_blank_and_comment_lines() {
    let content = "# header\na.local\n\nx*.local\nb.local\n";
    let file = AliasesFile::from_text(TEST_NAME, content, true).unwrap();
    let rewritten = file.remove(&owned(&["b.local"]), true).unwrap();
    assert_eq!(rewritten, "# header\na.local\n\n");
    let file = AliasesFile::from_text(TEST_NAME, &rewritten, false).unwrap();
    assert_eq!(file.aliases(), vec!["a.local".to_string()]);
    assert!(file.all_aliases_are_valid());
}

#[test]
fn nonforced_remove_still_purges_invalid_lines() {
    let content = "a.local\nx*.local\nb.local\n";
    let file = AliasesFile::from_text(TEST_NAME, content, true).unwrap();
    let rewritten = file.remove(&owned(&["a.local"]), false).unwrap();
    assert_eq!(rewritten, "b.local\n");
}

#[test]
fn append_rejects_invalid_batch_whole() {
    let file = AliasesFile::from_text(TEST_NAME, "a.local\n", false).unwrap();
    match file.append(&owned(&["b.local", "-bad.local"])) {
        Err(ErrorWrapper::InvalidAliasError { alias }) => assert_eq!(alias, "-bad.local"),
        _ => panic!("expected the invalid alias to abort the append"),
    }
}

#[test]
fn cnames_file_round_trip() {
    let content = "one.local\n# note\ntwo.local\n";
    let file = CNamesFile::from_text(TEST_NAME, content);
    assert_eq!(file.cnames(), vec!["one.local".to_string(), "two.local".to_string()]);
    let appended = file.append(&owned(&["three.local"]));
    assert_eq!(appended, "three.local\n");
    let rewritten = file.remove(&owned(&["one.local"]));
    assert_eq!(rewritten, "# note\ntwo.local\n");
}
