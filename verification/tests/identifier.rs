use ycm_core::blanker::remove_identifier_free_text;
use ycm_core::identifier::{is_identifier, start_of_longest_identifier_ending_at_index};

#[test]
fn remove_identifier_free_text_cpp_comments_test() {
    assert_eq!(
        "foo \nbar \nqux",
        &remove_identifier_free_text("foo \nbar //foo \nqux", None)
    );
}

#[test]
fn remove_identifier_free_text_python_comments_test() {
    assert_eq!(
        "foo \nbar \nqux",
        &remove_identifier_free_text("foo \nbar #foo \nqux", None)
    );
}

#[test]
fn remove_identifier_free_text_simple_double_quoted() {
    assert_eq!(
        "foo \nbar \nqux",
        &remove_identifier_free_text("foo \nbar \"foo\"\nqux", None)
    );
}

#[test]
fn is_identifier_generic() {
    assert!(is_identifier("foo", None));
    assert!(is_identifier("foo129", None));
    assert!(is_identifier("f12", None));
    assert!(is_identifier("f12", None));

    assert!(is_identifier("_foo", None));
    assert!(is_identifier("_foo129", None));
    assert!(is_identifier("_f12", None));
    assert!(is_identifier("_f12", None));

    assert!(is_identifier("uniçode", None));
    assert!(is_identifier("uç", None));
    assert!(is_identifier("ç", None));
    assert!(is_identifier("çode", None));

    assert!(!is_identifier("1foo129", None));
    assert!(!is_identifier("-foo", None));
    assert!(!is_identifier("foo-", None));
    assert!(!is_identifier("font-face", None));
    assert!(!is_identifier("", None));
}

#[test]
fn is_identifier_js() {
    assert!(is_identifier("_føo1", Some("javascript")));
    assert!(is_identifier("fø_o1", Some("javascript")));
    assert!(is_identifier("$føo1", Some("javascript")));
    assert!(is_identifier("fø$o1", Some("javascript")));

    assert!(!is_identifier("1føo", Some("javascript")));
}

#[test]
fn is_identifier_ts() {
    assert!(is_identifier("_føo1", Some("typescript")));
    assert!(is_identifier("fø_o1", Some("typescript")));
    assert!(is_identifier("$føo1", Some("typescript")));
    assert!(is_identifier("fø$o1", Some("typescript")));

    assert!(!is_identifier("1føo", Some("typescript")));
}

#[test]
fn is_identifier_css() {
    assert!(is_identifier("foo", Some("css")));
    assert!(is_identifier("a", Some("css")));
    assert!(is_identifier("a1", Some("css")));
    assert!(is_identifier("a-", Some("css")));
    assert!(is_identifier("a-b", Some("css")));
    assert!(is_identifier("_b", Some("css")));
    assert!(is_identifier("-ms-foo", Some("css")));
    assert!(is_identifier("-_o", Some("css")));
    assert!(is_identifier("font-face", Some("css")));
    assert!(is_identifier("αβγ", Some("css")));

    assert!(!is_identifier("-3b", Some("css")));
    assert!(!is_identifier("-3", Some("css")));
    assert!(!is_identifier("--", Some("css")));
    assert!(!is_identifier("3", Some("css")));
    assert!(!is_identifier("€", Some("css")));
    assert!(!is_identifier("", Some("css")));
}

#[test]
fn is_identifier_r() {
    assert!(is_identifier("a", Some("r")));
    assert!(is_identifier("a.b", Some("r")));
    assert!(is_identifier("a.b.c", Some("r")));
    assert!(is_identifier("a_b", Some("r")));
    assert!(is_identifier("a1", Some("r")));
    assert!(is_identifier("a_1", Some("r")));
    assert!(is_identifier(".a", Some("r")));
    assert!(is_identifier(".a_b", Some("r")));
    assert!(is_identifier(".a1", Some("r")));
    assert!(is_identifier("...", Some("r")));
    assert!(is_identifier("..1", Some("r")));

    assert!(!is_identifier(".1a", Some("r")));
    assert!(!is_identifier(".1", Some("r")));
    assert!(!is_identifier("1a", Some("r")));
    assert!(!is_identifier("123", Some("r")));
    assert!(!is_identifier("_1a", Some("r")));
    assert!(!is_identifier("_a", Some("r")));
    assert!(!is_identifier("", Some("r")));
}

#[test]
fn is_identifier_clojure() {
    assert!(is_identifier("foo", Some("clojure")));
    assert!(is_identifier("f9", Some("clojure")));
    assert!(is_identifier("a.b.c", Some("clojure")));
    assert!(is_identifier("a.c", Some("clojure")));
    assert!(is_identifier("a/c", Some("clojure")));
    assert!(is_identifier("*", Some("clojure")));
    assert!(is_identifier("a*b", Some("clojure")));
    assert!(is_identifier("?", Some("clojure")));
    assert!(is_identifier("a?b", Some("clojure")));
    assert!(is_identifier(":", Some("clojure")));
    assert!(is_identifier("a:b", Some("clojure")));
    assert!(is_identifier("+", Some("clojure")));
    assert!(is_identifier("a+b", Some("clojure")));
    assert!(is_identifier("-", Some("clojure")));
    assert!(is_identifier("a-b", Some("clojure")));
    assert!(is_identifier("!", Some("clojure")));
    assert!(is_identifier("a!b", Some("clojure")));

    assert!(!is_identifier("9f", Some("clojure")));
    assert!(!is_identifier("9", Some("clojure")));
    assert!(!is_identifier("a/b/c", Some("clojure")));
    assert!(!is_identifier("(a)", Some("clojure")));
    assert!(!is_identifier("", Some("clojure")));
}

#[test]
fn is_identifier_elisp() {
    // elisp is using the clojure regexes, so we're testing this more lightly
    assert!(is_identifier("foo", Some("elisp")));
    assert!(is_identifier("f9", Some("elisp")));
    assert!(is_identifier("a.b.c", Some("elisp")));
    assert!(is_identifier("a/c", Some("elisp")));

    assert!(!is_identifier("9f", Some("elisp")));
    assert!(!is_identifier("9", Some("elisp")));
    assert!(!is_identifier("a/b/c", Some("elisp")));
    assert!(!is_identifier("(a)", Some("elisp")));
    assert!(!is_identifier("", Some("elisp")));
}

#[test]
fn is_identifier_haskell() {
    assert!(is_identifier("foo", Some("haskell")));
    assert!(is_identifier("foo'", Some("haskell")));
    assert!(is_identifier("x'", Some("haskell")));
    assert!(is_identifier("_x'", Some("haskell")));
    assert!(is_identifier("_x", Some("haskell")));
    assert!(is_identifier("x9", Some("haskell")));

    assert!(!is_identifier("'x", Some("haskell")));
    assert!(!is_identifier("9x", Some("haskell")));
    assert!(!is_identifier("9", Some("haskell")));
    assert!(!is_identifier("", Some("haskell")));
}

#[test]
fn is_identifier_tex() {
    assert!(is_identifier("foo", Some("tex")));
    assert!(is_identifier("fig:foo", Some("tex")));
    assert!(is_identifier("fig:foo-bar", Some("tex")));
    assert!(is_identifier("sec:summary", Some("tex")));
    assert!(is_identifier("eq:bar_foo", Some("tex")));
    assert!(is_identifier("fōo", Some("tex")));
    assert!(is_identifier("some8", Some("tex")));

    assert!(!is_identifier("\\section", Some("tex")));
    assert!(!is_identifier("foo:", Some("tex")));
    assert!(!is_identifier("-bar", Some("tex")));
    assert!(!is_identifier("", Some("tex")));
}

#[test]
fn is_identifier_perl() {
    assert!(is_identifier("foo", Some("perl6")));
    assert!(is_identifier("f-o", Some("perl6")));
    assert!(is_identifier("x'y", Some("perl6")));
    assert!(is_identifier("_x-y", Some("perl6")));
    assert!(is_identifier("x-y'a", Some("perl6")));
    assert!(is_identifier("x-_", Some("perl6")));
    assert!(is_identifier("x-_7", Some("perl6")));
    assert!(is_identifier("_x", Some("perl6")));
    assert!(is_identifier("x9", Some("perl6")));

    assert!(!is_identifier("'x", Some("perl6")));
    assert!(!is_identifier("x'", Some("perl6")));
    assert!(!is_identifier("-x", Some("perl6")));
    assert!(!is_identifier("x-", Some("perl6")));
    assert!(!is_identifier("x-1", Some("perl6")));
    assert!(!is_identifier("x--", Some("perl6")));
    assert!(!is_identifier("x--a", Some("perl6")));
    assert!(!is_identifier("x-'", Some("perl6")));
    assert!(!is_identifier("x-'a", Some("perl6")));
    assert!(!is_identifier("x-a-", Some("perl6")));
    assert!(!is_identifier("x+", Some("perl6")));
    assert!(!is_identifier("9x", Some("perl6")));
    assert!(!is_identifier("9", Some("perl6")));
    assert!(!is_identifier("", Some("perl6")));
}

#[test]
fn is_identifier_scheme() {
    assert!(is_identifier("λ", Some("scheme")));
    assert!(is_identifier("_", Some("scheme")));
    assert!(is_identifier("+", Some("scheme")));
    assert!(is_identifier("-", Some("scheme")));
    assert!(is_identifier("...", Some("scheme")));
    assert!(is_identifier(r"\x01;", Some("scheme")));
    assert!(is_identifier(r"h\x65;lle", Some("scheme")));
    assert!(is_identifier("foo", Some("scheme")));
    assert!(is_identifier("foo+-*/1-1", Some("scheme")));
    assert!(is_identifier("call/cc", Some("scheme")));

    assert!(!is_identifier(".", Some("scheme")));
    assert!(!is_identifier("..", Some("scheme")));
    assert!(!is_identifier("--", Some("scheme")));
    assert!(!is_identifier("++", Some("scheme")));
    assert!(!is_identifier("+1", Some("scheme")));
    assert!(!is_identifier("-1", Some("scheme")));
    assert!(!is_identifier("-abc", Some("scheme")));
    assert!(!is_identifier("-<abc", Some("scheme")));
    assert!(!is_identifier("@", Some("scheme")));
    assert!(!is_identifier("@a", Some("scheme")));
    assert!(!is_identifier("-@a", Some("scheme")));
    assert!(!is_identifier("-12a", Some("scheme")));
    assert!(!is_identifier("12a", Some("scheme")));
    assert!(!is_identifier("\\", Some("scheme")));
    assert!(!is_identifier(r"\x", Some("scheme")));
    assert!(!is_identifier(r"\x123", Some("scheme")));
    assert!(!is_identifier(r"aa\x123;cc\x", Some("scheme")));
}

#[test]
fn start_of_longest_identifier_ending_at_index_simple() {
    assert_eq!(
        0,
        start_of_longest_identifier_ending_at_index("foo", 3, None)
    );
    assert_eq!(
        0,
        start_of_longest_identifier_ending_at_index("f12", 3, None)
    );
}
#[test]
fn start_of_longest_identifier_ending_at_index_badinput() {
    assert_eq!(0, start_of_longest_identifier_ending_at_index("", 0, None));
    assert_eq!(1, start_of_longest_identifier_ending_at_index("", 1, None));
    assert_eq!(5, start_of_longest_identifier_ending_at_index("", 5, None));
    assert_eq!(
        usize::MAX,
        start_of_longest_identifier_ending_at_index("foo", usize::MAX, None)
    );
    assert_eq!(
        10,
        start_of_longest_identifier_ending_at_index("foo", 10, None)
    );
}

#[test]
fn start_of_longest_identifier_ending_at_index_punctuation() {
    assert_eq!(
        1,
        start_of_longest_identifier_ending_at_index("(foo", 4, None)
    );
    assert_eq!(
        6,
        start_of_longest_identifier_ending_at_index("      foo", 9, None)
    );
    assert_eq!(
        4,
        start_of_longest_identifier_ending_at_index("gar;foo", 7, None)
    );
    assert_eq!(
        2,
        start_of_longest_identifier_ending_at_index("...", 2, None)
    );
}

#[test]
fn start_of_longest_identifier_ending_at_index_unicode() {
    assert_eq!(
        1,
        start_of_longest_identifier_ending_at_index("(fäö", 4, None)
    );
    assert_eq!(
        6,
        start_of_longest_identifier_ending_at_index("fäö(fäö", 11, None)
    );
    assert_eq!(
        2,
        start_of_longest_identifier_ending_at_index("  fäö", 5, None)
    );
}
