//! The snippet completer: it keeps the snippets that the editor last
//! announced and offers those that the query occurs in.

use vstd::prelude::*;
use crate::completer::{
    funnel, insertion_texts, long_enough, query_length_above_min_threshold, Completer,
    CompletionConfig, EventNotification,
};
use crate::filter::is_top_ranked;
use crate::request::{copy_of, SimpleRequest};
use crate::ycmd_types::{Candidate, Event, UltisnipSnippet};

verus! {

/// What the menu shows in front of the description of a snippet.
pub const SNIPPET_MARK: &'static str = "<snip> ";

/// Offers the snippets of the buffer that was visited last.
pub struct UltisnipsCompleter {
    pub config: CompletionConfig,
    pub candidates: Vec<Candidate>,
}

/// The candidate stands for the snippet: it inserts the trigger, and shows
/// the description behind the mark.
pub open spec fn stands_for(candidate: Candidate, snippet: UltisnipSnippet) -> bool {
    &&& candidate.insertion_text@ == snippet.trigger@
    &&& candidate.menu_text is Some
    &&& candidate.menu_text.unwrap()@ == SNIPPET_MARK@ + snippet.description@
    &&& candidate.extra_menu_info is None
    &&& candidate.detailed_info is None
    &&& candidate.kind is None
    &&& candidate.extra_data is None
}

/// Each candidate stands for the snippet at its position.
pub open spec fn stand_for(candidates: Seq<Candidate>, snippets: Seq<UltisnipSnippet>) -> bool {
    &&& candidates.len() == snippets.len()
    &&& forall|i: int| 0 <= i < candidates.len() ==> stands_for(#[trigger] candidates[i], snippets[i])
}

/// The copy shows and inserts the same texts as the candidate it was made from.
pub open spec fn same_texts(copy: Candidate, source: Candidate) -> bool {
    &&& copy.insertion_text@ == source.insertion_text@
    &&& copy.menu_text is Some == source.menu_text is Some
    &&& copy.menu_text is Some ==> copy.menu_text.unwrap()@ == source.menu_text.unwrap()@
    &&& copy.extra_menu_info is Some == source.extra_menu_info is Some
    &&& copy.extra_menu_info is Some ==> copy.extra_menu_info.unwrap()@
        == source.extra_menu_info.unwrap()@
    &&& copy.detailed_info is Some == source.detailed_info is Some
    &&& copy.detailed_info is Some ==> copy.detailed_info.unwrap()@
        == source.detailed_info.unwrap()@
    &&& copy.kind is Some == source.kind is Some
    &&& copy.kind is Some ==> copy.kind.unwrap()@ == source.kind.unwrap()@
    &&& copy.extra_data is Some == source.extra_data is Some
}

/// Each copy shows and inserts the same texts as the candidate at its
/// position.
pub open spec fn copies_of(copies: Seq<Candidate>, sources: Seq<Candidate>) -> bool {
    &&& copies.len() == sources.len()
    &&& forall|i: int| 0 <= i < copies.len() ==> same_texts(#[trigger] copies[i], sources[i])
}

/// A copy of an optional text.
pub fn copy_text(text: &Option<String>) -> (r: Option<String>)
    ensures
        r is Some == text is Some,
        r is Some ==> r.unwrap()@ == text.unwrap()@,
{
    match text {
        Some(t) => Some(copy_of(t.as_str())),
        None => None,
    }
}

/// A copy of a candidate.
pub fn copy_candidate(candidate: &Candidate) -> (r: Candidate)
    ensures
        same_texts(r, *candidate),
{
    Candidate {
        insertion_text: copy_of(candidate.insertion_text.as_str()),
        menu_text: copy_text(&candidate.menu_text),
        extra_menu_info: copy_text(&candidate.extra_menu_info),
        detailed_info: copy_text(&candidate.detailed_info),
        kind: copy_text(&candidate.kind),
        extra_data: match &candidate.extra_data {
            Some(data) => Some(data.clone()),
            None => None,
        },
    }
}

/// A copy of each candidate.
pub fn copy_candidates(candidates: &Vec<Candidate>) -> (r: Vec<Candidate>)
    ensures
        copies_of(r@, candidates@),
{
    let mut copies: Vec<Candidate> = Vec::new();
    let mut i: usize = 0;
    while i < candidates.len()
        invariant
            i <= candidates.len(),
            copies@.len() == i,
            forall|j: int| 0 <= j < i ==> same_texts(#[trigger] copies@[j], candidates@[j]),
        decreases candidates.len() - i,
    {
        copies.push(copy_candidate(&candidates[i]));
        i += 1;
    }
    copies
}

/// The candidate that stands for a snippet.
pub fn snippet_candidate(snippet: &UltisnipSnippet) -> (r: Candidate)
    ensures
        stands_for(r, *snippet),
{
    let mut menu = copy_of(SNIPPET_MARK);
    vstd::string::StringExecFns::append(&mut menu, snippet.description.as_str());
    Candidate {
        insertion_text: copy_of(snippet.trigger.as_str()),
        menu_text: Some(menu),
        extra_menu_info: None,
        detailed_info: None,
        kind: None,
        extra_data: None,
    }
}

/// The candidates that stand for a list of snippets.
pub fn snippet_candidates(snippets: &Vec<UltisnipSnippet>) -> (r: Vec<Candidate>)
    ensures
        stand_for(r@, snippets@),
{
    let mut candidates: Vec<Candidate> = Vec::new();
    let mut i: usize = 0;
    while i < snippets.len()
        invariant
            i <= snippets.len(),
            candidates@.len() == i,
            forall|j: int| 0 <= j < i ==> stands_for(#[trigger] candidates@[j], snippets@[j]),
        decreases snippets.len() - i,
    {
        candidates.push(snippet_candidate(&snippets[i]));
        i += 1;
    }
    candidates
}

impl UltisnipsCompleter {
    /// A completer that knows no snippet yet.
    pub fn new(config: CompletionConfig) -> (r: Self)
        ensures
            r.config == config,
            r.candidates@.len() == 0,
    {
        UltisnipsCompleter { config, candidates: Vec::new() }
    }
}

impl Completer for UltisnipsCompleter {
    fn get_settings(&self) -> (r: &CompletionConfig)
        ensures
            *r == self.config,
    {
        &self.config
    }

    fn set_settings(&mut self, settings: CompletionConfig)
        ensures
            final(self).config == settings,
            final(self).candidates == old(self).candidates,
    {
        self.config = settings;
    }

    /// On a visit to a buffer that comes with snippets, replaces what the
    /// completer offers by those snippets. Any other event changes nothing.
    fn on_event(&mut self, event: &EventNotification)
        ensures
            final(self).config == old(self).config,
            event.event_name == Event::BufferVisit && event.ultisnips_snippets is Some
                ==> stand_for(final(self).candidates@, event.ultisnips_snippets.unwrap()@),
            !(event.event_name == Event::BufferVisit && event.ultisnips_snippets is Some)
                ==> final(self).candidates == old(self).candidates,
    {
        if event.event_name == Event::BufferVisit {
            match &event.ultisnips_snippets {
                Some(snippets) => {
                    self.candidates = snippet_candidates(snippets);
                },
                None => {},
            }
        }
    }

    /// The completer runs where the query is long enough: it has at least
    /// as many bytes as the settings ask for.
    fn should_use_now(&self, request: &SimpleRequest) -> (r: bool)
        ensures
            r == match request.start_model() {
                Some(start) => long_enough(
                    start as usize,
                    (request.column_num - 1) as usize,
                    self.config.min_num_chars,
                ),
                None => false,
            },
    {
        match request.start_column() {
            Ok(start) => query_length_above_min_threshold(
                start,
                request.column_num - 1,
                self.config.min_num_chars,
            ),
            Err(_) => false,
        }
    }

    /// The snippets that the query occurs in, the best first.
    fn compute_candidates(&self, request: &mut SimpleRequest) -> (r: Vec<Candidate>)
        ensures
            *final(request) == *old(request),
            match old(request).query_model() {
                None => r@.len() == 0,
                Some(query) => exists|pool: Seq<Candidate>|
                    copies_of(pool, self.candidates@) && #[trigger] is_top_ranked(
                        r@,
                        pool,
                        insertion_texts(pool),
                        query,
                        self.config.max_candidates,
                    ),
            },
    {
        let pool = copy_candidates(&self.candidates);
        funnel(pool, request, self.config.max_candidates)
    }
}

} // verus!
