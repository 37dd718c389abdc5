use ycm_core::candidate::Candidate;
use ycm_core::character::{Character, MalformedGrapheme};
use ycm_core::filter::filter_and_sort_candidates;
use ycm_core::query::{QueryResult, Word};

fn character(s: &str) -> Character {
    Character::new(s).unwrap()
}

#[test]
fn query_test_query_match() {
    let s = "acb";
    let c = Candidate::new(&s);
    let q = Word::new("ab");
    assert_eq!(
        c.matches_query(&q),
        QueryResult::new(true, false, 2, &c, &q)
    );
    let q = Word::new("ba");
    assert_eq!(c.matches_query(&q), QueryResult::default());
    let miss = c.matches_query(&q);
    assert!(!miss.is_subsequence);
    assert!(!miss.query_is_prefix);
    assert!(!miss.first_char_is_same);
    assert_eq!(miss.char_match_index_sum, 0);
    assert_eq!(miss.num_wb_matches, 0);
    assert!(miss.candidate.is_none());
    assert!(miss.query.is_none());
}

#[test]
fn lib_test_query_match() {
    let s = "acb";
    let c = Candidate::new(&s);
    let q = Word::new("ab");
    let hit = c.matches_query(&q);
    assert_eq!(hit, QueryResult::new(true, false, 2, &c, &q));
    assert!(hit.is_subsequence);
    assert!(!hit.query_is_prefix);
    assert_eq!(hit.char_match_index_sum, 2);
    let q = Word::new("ba");
    assert_eq!(c.matches_query(&q), QueryResult::default());
}

#[test]
fn query_test_filter_and_sort() {
    let candidates = ["acb", "ab", "Ab", "bab", "A , B", "BA"]
        .into_iter()
        .map(Candidate::new)
        .collect::<Vec<_>>();
    let q = Word::new("ab");

    let results = filter_and_sort_candidates(&candidates, &q, usize::MAX);
    let expected_candidates = vec!["A , B", "ab", "Ab", "acb", "bab"];
    let result_strings = results
        .into_iter()
        .map(|r| r.candidate.unwrap().text)
        .collect::<Vec<_>>();
    assert_eq!(expected_candidates, result_strings);
}

#[test]
fn lib_test_filter_and_sort() {
    let texts = ["acb", "ab", "Ab", "bab", "A , B", "BA"];
    let candidates = texts.iter().map(|s| Candidate::new(s)).collect::<Vec<_>>();
    let q = Word::new("ab");
    let results = filter_and_sort_candidates(&candidates, &q, usize::MAX);
    let expected_candidates = vec!["A , B", "ab", "Ab", "acb", "bab"];
    let result_strings = results
        .iter()
        .map(|r| r.candidate.unwrap().text)
        .collect::<Vec<_>>();
    assert_eq!(expected_candidates, result_strings);
}

#[test]
fn empty_query_keeps_every_candidate() {
    let candidates = ["foo", "bar"]
        .into_iter()
        .map(Candidate::new)
        .collect::<Vec<_>>();
    let q = Word::new("");
    let results = filter_and_sort_candidates(&candidates, &q, usize::MAX);
    let texts = results
        .iter()
        .map(|r| r.candidate.unwrap().text)
        .collect::<Vec<_>>();
    // The case-swapped keys are "BAR" and "FOO".
    assert_eq!(texts, vec!["bar", "foo"]);
    for r in &results {
        assert!(r.is_subsequence);
        assert!(r.query_is_prefix);
        assert_eq!(r.char_match_index_sum, 0);
    }
}

#[test]
fn front_of_the_ranking_is_sorted() {
    let candidates = ["bab", "acb", "Ab", "ab", "BA", "A , B"]
        .into_iter()
        .map(Candidate::new)
        .collect::<Vec<_>>();
    let q = Word::new("ab");
    let results = filter_and_sort_candidates(&candidates, &q, 2);
    assert_eq!(results.len(), 5);
    assert_eq!(results[0].candidate.unwrap().text, "A , B");
    assert_eq!(results[1].candidate.unwrap().text, "ab");
    let results = filter_and_sort_candidates(&candidates, &q, 0);
    assert_eq!(results.len(), 5);
}

#[test]
fn character_refuses_empty_input() {
    assert_eq!(Character::new("").err(), Some(MalformedGrapheme));
    assert!(Character::new("a").is_ok());
}

#[test]
fn character_forms() {
    let c = character("A");
    assert_eq!(c.normal.to_vec(), vec!['A']);
    assert_eq!(c.base.to_vec(), vec!['a']);
    assert_eq!(c.folded_case.to_vec(), vec!['a']);
    assert_eq!(c.swapped_case.to_vec(), vec!['a']);
    assert!(c.is_base);
    assert!(c.is_uppercase);
    assert!(!c.is_punctuation);
    assert!(c.is_letter);

    let c = character("é");
    assert_eq!(c.normal.to_vec(), vec!['e', '\u{301}']);
    assert_eq!(c.base.to_vec(), vec!['e']);
    assert!(!c.is_base);
    assert_eq!(c.folded_case.to_vec(), vec!['e', '\u{301}']);
    assert_eq!(c.swapped_case.to_vec(), vec!['E', '\u{301}']);
    assert!(!c.is_uppercase);
    assert!(c.is_letter);

    let c = character(" ");
    assert!(c.base.to_vec().is_empty());
    assert!(!c.is_base);
    assert!(c.is_punctuation);
    assert!(!c.is_letter);

    let c = character(",");
    assert!(c.is_punctuation);
}

#[test]
fn smartcaseeq_is_reflexive() {
    for s in ["e", "E", "é", "É", " ", ",", "ß", "1", "\u{1F600}"] {
        let c = character(s);
        assert!(c.smartcaseeq(&c), "{:?}", s);
    }
}

#[test]
fn smartcaseeq_cases() {
    let e = character("e");
    let upper_e = character("E");
    let e_acute = character("é");
    let upper_e_acute = character("É");
    // e matches e, é, E, É
    assert!(e.smartcaseeq(&e));
    assert!(e.smartcaseeq(&e_acute));
    assert!(e.smartcaseeq(&upper_e));
    assert!(e.smartcaseeq(&upper_e_acute));
    // E matches E, É but not e, é
    assert!(upper_e.smartcaseeq(&upper_e));
    assert!(upper_e.smartcaseeq(&upper_e_acute));
    assert!(!upper_e.smartcaseeq(&e));
    assert!(!upper_e.smartcaseeq(&e_acute));
    // é matches é, É but not e, E
    assert!(e_acute.smartcaseeq(&e_acute));
    assert!(e_acute.smartcaseeq(&upper_e_acute));
    assert!(!e_acute.smartcaseeq(&e));
    assert!(!e_acute.smartcaseeq(&upper_e));
}

#[test]
fn candidate_word_boundaries() {
    let c = Candidate::new("A , B");
    assert_eq!(c.characters.len(), 5);
    let wb = c
        .word_boundary_chars
        .iter()
        .map(|c| c.normal.to_vec())
        .collect::<Vec<_>>();
    assert_eq!(wb, vec![vec!['A'], vec!['B']]);
    assert!(!c.text_is_lowercase);
    assert_eq!(c.case_swapped, vec!['a', ' ', ',', ' ', 'b']);
    assert_eq!(c.text, "A , B");
    assert!(!c.is_empty());

    let c = Candidate::new("fooBar_baz");
    let wb = c
        .word_boundary_chars
        .iter()
        .map(|c| c.normal.to_vec())
        .collect::<Vec<_>>();
    assert_eq!(wb, vec![vec!['f'], vec!['B'], vec!['b']]);

    let c = Candidate::new("");
    assert!(c.is_empty());
    assert!(c.word_boundary_chars.is_empty());
    assert!(c.text_is_lowercase);
}

#[test]
fn query_result_scores() {
    let c = Candidate::new("fooBar");
    let q = Word::new("fb");
    let r = c.matches_query(&q);
    assert!(r.is_subsequence);
    assert!(!r.query_is_prefix);
    assert!(r.first_char_is_same);
    assert_eq!(r.char_match_index_sum, 3);
    assert_eq!(r.num_wb_matches, 2);

    let q = Word::new("foo");
    let r = c.matches_query(&q);
    assert!(r.query_is_prefix);
    assert_eq!(r.char_match_index_sum, 3);
    assert_eq!(r.num_wb_matches, 1);
}
