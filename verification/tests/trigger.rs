use regex::RegexSet;
use ycm_core::trigger::{parse_triggers, trigger_pattern, PatternMatcher, TriggerTable};

fn get_default() -> Vec<(String, Vec<String>)> {
    vec![
        ("c".into(), vec![".".into(), "->".into()]),
        (
            "objc,objcpp".into(),
            vec!["->".into(), ".".into(), r"re!\[[_a-zA-Z]+\w*\s".into()],
        ),
        ("objc".into(), vec!["foo".into()]),
    ]
}

fn set_of(table: &TriggerTable, filetype: &str) -> RegexSet {
    RegexSet::new(table.patterns(filetype).unwrap()).unwrap()
}

#[test]
fn test_triggers() {
    let input = get_default();

    let output = parse_triggers(vec![input], &vec![]);

    assert_eq!(3, output.len());
    assert!(set_of(&output, "c").is_match("."));
    assert!(set_of(&output, "c").is_match("->"));

    assert!(set_of(&output, "objcpp").is_match("."));
    assert!(set_of(&output, "objcpp").is_match("->"));
    assert!(set_of(&output, "objcpp").is_match("[asdf_asdasFF_FF asdf asdf "));

    assert!(set_of(&output, "objc").is_match("."));
    assert!(set_of(&output, "objc").is_match("->"));
    assert!(set_of(&output, "objc").is_match("[asdf_asdasFF_FF asdf asdf "));

    assert!(set_of(&output, "objc").is_match("foo"));
    assert!(!set_of(&output, "objcpp").is_match("foo"));
}

#[test]
fn test_matcher() {
    let triggers = parse_triggers(vec![get_default()], &vec![]);
    assert!(triggers.matches_for_filetype("c", "foo->bar", 5, 9));
    assert!(!triggers.matches_for_filetype("c", "foo::bar", 5, 9));
}

#[test]
fn triggers_are_taken_literally() {
    let triggers = parse_triggers(vec![get_default()], &vec![]);
    // A dot that stood for any character would fire here.
    assert!(!triggers.matches_for_filetype("c", "fooxbar", 4, 7));
    assert!(triggers.matches_for_filetype("c", "foo.bar", 4, 7));
    assert_eq!(trigger_pattern("."), r"\.");
    assert_eq!(trigger_pattern("->"), r"\->");
    assert_eq!(trigger_pattern(r"re!\[[_a-zA-Z]+\w*\s"), r"\[[_a-zA-Z]+\w*\s");
    assert_eq!(trigger_pattern("re!"), "");
    assert_eq!(trigger_pattern("re"), "re");
}

#[test]
fn patterns_are_kept_per_filetype() {
    let output = parse_triggers(vec![get_default()], &vec![]);
    assert_eq!(output.patterns("c").unwrap(), &vec![r"\.", r"\->"]);
    assert_eq!(
        output.patterns("objcpp").unwrap(),
        &vec![r"\->", r"\.", r"\[[_a-zA-Z]+\w*\s"]
    );
    // What comes later is put in front.
    assert_eq!(
        output.patterns("objc").unwrap(),
        &vec!["foo", r"\->", r"\.", r"\[[_a-zA-Z]+\w*\s"]
    );
    assert!(output.patterns("python").is_none());
    assert_eq!(output.position("c"), Some(0));
    assert_eq!(output.position("objc"), Some(1));
    assert_eq!(output.position("objcpp"), Some(2));
}

#[test]
fn filter_keeps_the_filetypes_it_names() {
    let filter = vec![String::from("objc"), String::from("python")];
    let output = parse_triggers(vec![get_default()], &filter);
    assert_eq!(1, output.len());
    assert!(output.patterns("c").is_none());
    assert!(output.patterns("objcpp").is_none());
    assert_eq!(output.patterns("objc").unwrap().len(), 4);
}

#[test]
fn several_maps_accumulate() {
    let first = vec![("c".to_string(), vec![".".to_string()])];
    let second = vec![
        ("c".to_string(), vec!["->".to_string()]),
        ("go".to_string(), vec![]),
    ];
    let output = parse_triggers(vec![first, second], &vec![]);
    assert_eq!(2, output.len());
    assert_eq!(output.patterns("c").unwrap(), &vec![r"\->", r"\."]);
    assert!(output.patterns("go").unwrap().is_empty());
    let none = parse_triggers(vec![], &vec![]);
    assert_eq!(0, none.len());
}

#[test]
fn a_hit_fires_between_start_and_cursor() {
    let triggers = parse_triggers(vec![get_default()], &vec![]);
    // The arrow ends at byte 5.
    assert!(triggers.matches_for_filetype("c", "foo->bar", 5, 5));
    assert!(triggers.matches_for_filetype("c", "foo->bar", 0, 8));
    assert!(!triggers.matches_for_filetype("c", "foo->bar", 6, 9));
    // Only the line up to the cursor is looked at.
    assert!(!triggers.matches_for_filetype("c", "foo->bar", 0, 4));
    // A filetype without triggers never fires.
    assert!(!triggers.matches_for_filetype("python", "foo->bar", 5, 9));
    // Nor does a cursor inside a character.
    assert!(!triggers.matches_for_filetype("c", "ä.ö", 0, 1));
    assert!(triggers.matches_for_filetype("c", "ä.ö", 0, 3));
    assert!(triggers.matches_for_filetype("objc", "x [foo bar", 0, 7));
}
