use avahi_aliases::Line;
use avahi_aliases::cnames;

#[test]
fn alias_only_yields_alias() {
    let data = ["a.local", "xyzzy.local"];
    for text in data {
        assert_eq!(Line::new(String::from(text)).alias().unwrap().unwrap(), text);
    }
}

#[test]
fn line_whitespace_is_ignored() {
    let data = [
        "a.local  ",
        "  a.local",
        "  a.local   ",
        "a.local\t",
        "\ta.local",
        "\ta.local\t",
        "a.local \t ",
        " \t a.local",
        " \t a.local \t ",
    ];
    for text in data {
        assert_eq!(Line::new(String::from(text)).alias().unwrap().unwrap(), "a.local");
    }
}

#[test]
fn line_trailing_comments_are_ignored() {
    let data = [
        "a.local# Comment",
        "a.local # Comment",
        "a.local  # Comment",
        "a.local \t # Comment",
        "a.local # A Long, Long Comment",
    ];
    for text in data {
        assert_eq!(Line::new(String::from(text)).alias().unwrap().unwrap(), "a.local");
    }
}

#[test]
fn line_comments_and_whitespace_are_ignored() {
    let data = [
        "a.local # Comment",
        "a.local #  Comment",
        "a.local # \t Comment",
        "a.local # Comment ",
        "a.local #  Comment\t",
        "a.local # \t Comment \t ",
        " a.local # Comment",
        "\ta.local #  Comment",
        " \t a.local # \t Comment",
        " a.local # Comment ",
        "\ta.local #  Comment\t",
        " \t a.local # \t Comment \t ",
    ];
    for text in data {
        assert_eq!(Line::new(String::from(text)).alias().unwrap().unwrap(), "a.local");
    }
}

#[test]
fn line_whitespace_lines_yield_none() {
    let data = ["", " ", "  ", "\t", "\t", "\t\t", " \t ", " \t ", " \t \t "];
    for text in data {
        assert!(Line::new(String::from(text)).alias().is_none())
    }
}

#[test]
fn line_comment_only_lines_yield_none() {
    let data = ["# Comment", " # Comment", " # Comment    "];
    for text in data {
        assert!(Line::new(String::from(text)).alias().is_none())
    }
}

#[test]
fn line_invalid_content_classified_invalid() {
    let l = Line::new(String::from("  x*.local  # nope"));
    assert_eq!(l.alias().unwrap().unwrap_err(), "x*.local");
}

#[test]
fn cname_only_yields_cname() {
    let data = ["a.local", "xyzzy.local"];
    for text in data {
        let l = cnames::Line::new(String::from(text));
        assert_eq!(l.cname().unwrap(), text);
    }
}

#[test]
fn cname_whitespace_and_comments_are_ignored() {
    let data = [" \t a.local # \t Comment \t ", "a.local# Comment", "  a.local   "];
    for text in data {
        let l = cnames::Line::new(String::from(text));
        assert_eq!(l.cname().unwrap(), "a.local");
    }
    let blank = cnames::Line::new(String::from(" # Comment"));
    assert!(blank.cname().is_none());
}
