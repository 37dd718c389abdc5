use ycm_core::blanker::{
    blank_matches, comment_and_string_pattern, comment_pieces, count_line_breaks,
    push_line_feeds, remove_identifier_free_text,
};

#[test]
fn pattern_joins_the_alternatives() {
    assert_eq!(
        comment_and_string_pattern(Some("rust")),
        r#"(?m:(//.*?$)|(?:[^\\])('(?:\\\\|\\'|.)*?')|(?:[^\\])("(?:\\\\|\\"|.)*?"))"#
    );
    assert_eq!(comment_pieces(None).len(), 8);
    assert_eq!(comment_pieces(Some("unknown")).len(), 8);
    assert_eq!(comment_pieces(Some("cpp")).len(), 4);
    assert_eq!(comment_pieces(Some("c")).len(), 4);
    assert_eq!(comment_pieces(Some("go")).len(), 5);
    assert_eq!(comment_pieces(Some("python")).len(), 5);
    assert_eq!(comment_pieces(Some("rust")).len(), 3);
}

#[test]
fn comments_over_several_lines_keep_the_lines() {
    assert_eq!(
        remove_identifier_free_text("foo /* a\nb\nc */ bar", None),
        "foo \n\n bar"
    );
    assert_eq!(
        remove_identifier_free_text("'''x\ny'''\nb", Some("python")),
        "\n\nb"
    );
    // Behind another character the first two quotes are an empty string.
    assert_eq!(
        remove_identifier_free_text("a\n'''x\ny'''\nb", Some("python")),
        "a\n'x\ny'\nb"
    );
    assert_eq!(
        remove_identifier_free_text("a // one\nb // two\nc", Some("cpp")),
        "a \nb \nc"
    );
}

#[test]
fn filetype_decides_what_a_comment_is() {
    let text = "a # b\nc // d";
    assert_eq!(remove_identifier_free_text(text, Some("python")), "a \nc // d");
    assert_eq!(remove_identifier_free_text(text, Some("cpp")), "a # b\nc ");
    assert_eq!(remove_identifier_free_text(text, None), "a \nc ");
    assert_eq!(remove_identifier_free_text("a `b` c", Some("go")), "a  c");
    assert_eq!(remove_identifier_free_text("a `b` c", Some("rust")), "a `b` c");
}

#[test]
fn character_before_a_string_is_kept() {
    assert_eq!(remove_identifier_free_text("x = \"foo\";", None), "x = ;");
    assert_eq!(remove_identifier_free_text("f('a', 'b')", None), "f(, )");
    // An escaped quote does not end the string.
    assert_eq!(
        remove_identifier_free_text(r#"s = "a\"b" + c"#, None),
        "s =  + c"
    );
    assert_eq!(remove_identifier_free_text("nothing here", None), "nothing here");
    assert_eq!(remove_identifier_free_text("", None), "");
    assert_eq!(remove_identifier_free_text("fäö // ü\nö", None), "fäö \nö");
}

#[test]
fn line_count_stays() {
    let texts = [
        "foo \nbar //foo \nqux",
        "foo \nbar #foo \nqux",
        "foo \nbar \"foo\"\nqux",
        "a /* b\n c\n d */ e\nf 'g' h\n",
        "\"\"\"doc\nstring\"\"\"\ncode # comment\n",
        "",
        "\n\n",
    ];
    for text in texts {
        for filetype in [None, Some("cpp"), Some("python"), Some("go"), Some("rust")] {
            let blanked = remove_identifier_free_text(text, filetype);
            assert_eq!(
                blanked.lines().count(),
                text.lines().count(),
                "{:?} as {:?}",
                text,
                filetype
            );
        }
    }
}

#[test]
fn line_feeds_stay() {
    let feeds = |text: &str| text.matches('\n').count();
    let texts = [
        "foo \nbar //foo \nqux",
        "a /* b\n c\n d */ e\nf 'g' h\n",
        // A comment at the very end, behind a line feed.
        "a\n//c",
        "a\n#c\n/* d */",
        "x = \"s\" # c\n'''doc\nstring'''\n",
        "fäö /* ü\nö */ ä\n",
        "",
    ];
    for text in texts {
        for filetype in [None, Some("cpp"), Some("python"), Some("go"), Some("rust")] {
            let blanked = remove_identifier_free_text(text, filetype);
            assert_eq!(feeds(&blanked), feeds(text), "{:?} as {:?}", text, filetype);
        }
    }
}

#[test]
fn line_breaks_are_counted() {
    assert_eq!(count_line_breaks(""), 0);
    assert_eq!(count_line_breaks("abc"), 0);
    assert_eq!(count_line_breaks("a\nb"), 1);
    assert_eq!(count_line_breaks("a\nb\n"), 1);
    assert_eq!(count_line_breaks("\n"), 0);
    assert_eq!(count_line_breaks("\n\n"), 1);
    assert_eq!(count_line_breaks("ä\r\nö\nü"), 2);
    let mut out = String::from("x");
    push_line_feeds(&mut out, 3);
    assert_eq!(out, "x\n\n\n");
    push_line_feeds(&mut out, 0);
    assert_eq!(out, "x\n\n\n");
}

#[test]
fn matches_are_replaced_in_place() {
    let text = "ab\ncd ef";
    // Without groups the whole match is blanked.
    let whole = vec![vec![Some((1, 4))], vec![Some((6, 7))]];
    assert_eq!(blank_matches(text, &whole), "a\nd f");
    // With groups, what stands before a group is kept.
    let guarded = vec![vec![Some((0, 4)), None, Some((1, 4))]];
    assert_eq!(blank_matches(text, &guarded), "a\nd ef");
    // What follows the last group is dropped.
    let tail = vec![vec![Some((0, 5)), Some((1, 2))]];
    assert_eq!(blank_matches(text, &tail), "a ef");
    // A match of which no group took part leaves nothing.
    let none = vec![vec![Some((0, 2)), None]];
    assert_eq!(blank_matches(text, &none), "\ncd ef");
    assert_eq!(blank_matches(text, &vec![]), text);
}
