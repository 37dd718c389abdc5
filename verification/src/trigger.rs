//! Triggers: per filetype, the patterns whose match just before the cursor
//! says that a semantic completion is due.

use vstd::prelude::*;
use crate::pattern::{
    all_matches_of, escape, escaped_of, find_all, set_matches, set_matches_of, texts_of,
};
use crate::text::{
    after_prefix, byte_len, byte_length, byte_slice, lemma_ends_are_boundaries, on_boundary,
    pieces_of, same_text, slice, split_on, starts_with, strip_prefix,
};
use crate::request::copy_of;

verus! {

/// A trigger that starts with this is a regular expression; any other is
/// taken literally.
pub const REGEX_PREFIX: &'static str = "re!";

/// The patterns of one filetype.
#[derive(Clone, Debug)]
pub struct TriggerEntry {
    pub filetype: String,
    pub patterns: Vec<String>,
}

/// The patterns of every filetype that has any. No filetype has two
/// entries.
#[derive(Clone, Debug)]
pub struct TriggerTable {
    pub entries: Vec<TriggerEntry>,
}

/// A trigger table as a list of filetypes, each with its patterns.
pub type TableModel = Seq<(Seq<char>, Seq<Seq<char>>)>;

impl View for TriggerTable {
    type V = TableModel;

    open spec fn view(&self) -> TableModel {
        Seq::new(self.entries@.len(), |i: int| (self.entries@[i].filetype@, texts_of(self.entries@[i].patterns@)))
    }
}

/// The position of the first entry for the filetype, from `i` on; the
/// length of the table if there is none.
pub open spec fn entry_of(table: TableModel, filetype: Seq<char>, i: int) -> int
    decreases table.len() - i,
{
    if i < 0 || i >= table.len() {
        table.len() as int
    } else if table[i].0 == filetype {
        i
    } else {
        entry_of(table, filetype, i + 1)
    }
}

/// The patterns of a filetype, if it has an entry.
pub open spec fn patterns_for(table: TableModel, filetype: Seq<char>) -> Option<Seq<Seq<char>>> {
    let at = entry_of(table, filetype, 0);
    if at < table.len() {
        Some(table[at].1)
    } else {
        None
    }
}

/// No filetype has two entries.
pub open spec fn distinct_filetypes(table: TableModel) -> bool {
    forall|i: int, j: int| 0 <= i < j < table.len() ==> (#[trigger] table[i]).0 != (#[trigger] table[j]).0
}

/// The pattern that a trigger stands for: what follows `re!`, or the trigger
/// with its meta characters escaped.
pub open spec fn pattern_of_trigger(trigger: Seq<char>) -> Seq<char> {
    if starts_with(trigger, REGEX_PREFIX@) {
        after_prefix(trigger, REGEX_PREFIX@)
    } else {
        escaped_of(trigger)
    }
}

/// The patterns that a list of triggers stands for.
pub open spec fn patterns_of_triggers(triggers: Seq<Seq<char>>) -> Seq<Seq<char>> {
    Seq::new(triggers.len(), |i: int| pattern_of_trigger(triggers[i]))
}

/// A filetype is wanted if the filter is empty or names it.
pub open spec fn wanted(filter: Seq<Seq<char>>, filetype: Seq<char>) -> bool {
    filter.len() == 0 || filter.contains(filetype)
}

/// The table with `patterns` put in front of the patterns of the filetype,
/// in a new entry at the end if the filetype had none.
pub open spec fn with_patterns(
    table: TableModel,
    filetype: Seq<char>,
    patterns: Seq<Seq<char>>,
) -> TableModel {
    let at = entry_of(table, filetype, 0);
    if at < table.len() {
        table.update(at, (filetype, patterns + table[at].1))
    } else {
        table.push((filetype, patterns))
    }
}

/// The table after the first `n` filetypes of a key have received the
/// patterns, as far as they are wanted.
pub open spec fn with_key(
    table: TableModel,
    filetypes: Seq<Seq<char>>,
    n: int,
    filter: Seq<Seq<char>>,
    patterns: Seq<Seq<char>>,
) -> TableModel
    decreases n,
{
    if n <= 0 {
        table
    } else {
        let before = with_key(table, filetypes, n - 1, filter, patterns);
        if wanted(filter, filetypes[n - 1]) {
            with_patterns(before, filetypes[n - 1], patterns)
        } else {
            before
        }
    }
}

/// One list of triggers: its key, a comma-separated list of filetypes, and
/// the triggers.
pub type TriggerList = (Seq<char>, Seq<Seq<char>>);

/// The table after the first `n` lists of a map have been taken in.
pub open spec fn with_lists(
    table: TableModel,
    lists: Seq<TriggerList>,
    n: int,
    filter: Seq<Seq<char>>,
) -> TableModel
    decreases n,
{
    if n <= 0 {
        table
    } else {
        let before = with_lists(table, lists, n - 1, filter);
        let filetypes = pieces_of(lists[n - 1].0, 44);
        with_key(
            before,
            filetypes,
            filetypes.len() as int,
            filter,
            patterns_of_triggers(lists[n - 1].1),
        )
    }
}

/// The table after the first `n` maps have been taken in.
pub open spec fn with_maps(maps: Seq<Seq<TriggerList>>, n: int, filter: Seq<Seq<char>>) -> TableModel
    decreases n,
{
    if n <= 0 {
        Seq::empty()
    } else {
        with_lists(with_maps(maps, n - 1, filter), maps[n - 1], maps[n - 1].len() as int, filter)
    }
}

/// The lists of a map, as texts.
pub open spec fn lists_of(map: Seq<(String, Vec<String>)>) -> Seq<TriggerList> {
    Seq::new(map.len(), |i: int| (map[i].0@, texts_of(map[i].1@)))
}

/// The maps of a configuration, as texts.
pub open spec fn maps_of(maps: Seq<Vec<(String, Vec<String>)>>) -> Seq<Seq<TriggerList>> {
    Seq::new(maps.len(), |i: int| lists_of(maps[i]@))
}

/// Putting patterns in keeps the filetypes distinct.
pub proof fn lemma_with_patterns_distinct(
    table: TableModel,
    filetype: Seq<char>,
    patterns: Seq<Seq<char>>,
)
    requires
        distinct_filetypes(table),
    ensures
        distinct_filetypes(with_patterns(table, filetype, patterns)),
{
    let at = entry_of(table, filetype, 0);
    lemma_entry_of(table, filetype, 0);
    let after = with_patterns(table, filetype, patterns);
    assert forall|i: int, j: int| 0 <= i < j < after.len() implies (#[trigger] after[i]).0 != (
    #[trigger] after[j]).0 by {
        if at < table.len() {
            assert(table[i].0 != table[j].0);
        } else if j < table.len() {
            assert(table[i].0 != table[j].0);
        }
    }
}

/// `entry_of` finds the first entry of the filetype at or after `i`.
pub proof fn lemma_entry_of(table: TableModel, filetype: Seq<char>, i: int)
    requires
        0 <= i <= table.len(),
    ensures
        i <= entry_of(table, filetype, i) <= table.len(),
        entry_of(table, filetype, i) < table.len() ==> table[entry_of(table, filetype, i)].0
            == filetype,
        forall|j: int| i <= j < entry_of(table, filetype, i) ==> (#[trigger] table[j]).0 != filetype,
    decreases table.len() - i,
{
    if i < table.len() && table[i].0 != filetype {
        lemma_entry_of(table, filetype, i + 1);
    }
}

/// Whether a list of strings holds the text.
pub fn contains_text(list: &Vec<String>, text: &str) -> (r: bool)
    ensures
        r == texts_of(list@).contains(text@),
{
    let mut i: usize = 0;
    while i < list.len()
        invariant
            i <= list.len(),
            forall|j: int| 0 <= j < i ==> texts_of(list@)[j] != text@,
        decreases list.len() - i,
    {
        if same_text(list[i].as_str(), text) {
            assert(texts_of(list@)[i as int] == text@);
            return true;
        }
        i += 1;
    }
    false
}

/// The pattern that a trigger stands for.
pub fn trigger_pattern(trigger: &str) -> (r: String)
    ensures
        r@ == pattern_of_trigger(trigger@),
{
    match strip_prefix(trigger, REGEX_PREFIX) {
        Some(rest) => copy_of(rest),
        None => escape(trigger),
    }
}

impl TriggerTable {
    /// A table without entries.
    pub fn empty() -> (r: TriggerTable)
        ensures
            r@ == Seq::<(Seq<char>, Seq<Seq<char>>)>::empty(),
    {
        let r = TriggerTable { entries: Vec::new() };
        assert(r@ =~= Seq::<(Seq<char>, Seq<Seq<char>>)>::empty());
        r
    }

    /// The number of filetypes that have an entry.
    pub fn len(&self) -> (r: usize)
        ensures
            r == self@.len(),
    {
        self.entries.len()
    }

    /// The position of the entry of a filetype.
    pub fn position(&self, filetype: &str) -> (r: Option<usize>)
        ensures
            match r {
                Some(at) => at < self@.len() && at == entry_of(self@, filetype@, 0),
                None => entry_of(self@, filetype@, 0) == self@.len(),
            },
    {
        let mut i: usize = 0;
        while i < self.entries.len()
            invariant
                i <= self.entries.len(),
                entry_of(self@, filetype@, 0) == entry_of(self@, filetype@, i as int),
            decreases self.entries.len() - i,
        {
            assert(self@[i as int].0 == self.entries@[i as int].filetype@);
            if same_text(self.entries[i].filetype.as_str(), filetype) {
                return Some(i);
            }
            i += 1;
        }
        None
    }

    /// The patterns of a filetype, if it has an entry.
    pub fn patterns(&self, filetype: &str) -> (r: Option<&Vec<String>>)
        ensures
            match r {
                Some(p) => patterns_for(self@, filetype@) == Some(texts_of(p@)),
                None => patterns_for(self@, filetype@) is None,
            },
    {
        match self.position(filetype) {
            Some(at) => Some(&self.entries[at].patterns),
            None => None,
        }
    }

    /// Puts `patterns` in front of the patterns of the filetype.
    pub fn extend_filetype(&mut self, filetype: &str, patterns: &Vec<String>)
        ensures
            final(self)@ == with_patterns(old(self)@, filetype@, texts_of(patterns@)),
            distinct_filetypes(old(self)@) ==> distinct_filetypes(final(self)@),
    {
        let ghost before = self@;
        proof {
            if distinct_filetypes(before) {
                lemma_with_patterns_distinct(before, filetype@, texts_of(patterns@));
            }
        }
        match self.position(filetype) {
            Some(at) => {
                let mut all: Vec<String> = Vec::new();
                copy_texts(&mut all, patterns);
                copy_texts(&mut all, &self.entries[at].patterns);
                assert(texts_of(Seq::<String>::empty()) =~= Seq::<Seq<char>>::empty());
                let entry = TriggerEntry { filetype: copy_of(filetype), patterns: all };
                self.entries.set(at, entry);
                assert(self@ =~= with_patterns(before, filetype@, texts_of(patterns@)));
            },
            None => {
                let mut all: Vec<String> = Vec::new();
                copy_texts(&mut all, patterns);
                assert(texts_of(Seq::<String>::empty()) =~= Seq::<Seq<char>>::empty());
                self.entries.push(TriggerEntry { filetype: copy_of(filetype), patterns: all });
                assert(self@ =~= with_patterns(before, filetype@, texts_of(patterns@)));
            },
        }
    }
}

/// Appends a copy of each text of `src` to `dst`.
pub fn copy_texts(dst: &mut Vec<String>, src: &Vec<String>)
    ensures
        texts_of(final(dst)@) == texts_of(old(dst)@) + texts_of(src@),
{
    let mut i: usize = 0;
    assert(texts_of(dst@) =~= texts_of(old(dst)@) + texts_of(src@.take(0)));
    while i < src.len()
        invariant
            i <= src.len(),
            texts_of(dst@) == texts_of(old(dst)@) + texts_of(src@.take(i as int)),
        decreases src.len() - i,
    {
        let ghost before = texts_of(dst@);
        dst.push(copy_of(src[i].as_str()));
        assert(texts_of(dst@) =~= before.push(src@[i as int]@));
        assert(texts_of(src@.take(i + 1)) =~= texts_of(src@.take(i as int)).push(src@[i as int]@));
        i += 1;
    }
    assert(src@.take(src.len() as int) =~= src@);
}

/// Builds the trigger table of a configuration. Each map is a list of
/// entries, a key and its triggers; the key is a comma-separated list of
/// filetypes. Every filetype of a key that the filter wants (all, if the
/// filter is empty) receives the patterns of the triggers, in front of those
/// it already has.
pub fn parse_triggers(triggers: Vec<Vec<(String, Vec<String>)>>, filetypes: &Vec<String>) -> (r:
    TriggerTable)
    ensures
        r@ == with_maps(maps_of(triggers@), triggers@.len() as int, texts_of(filetypes@)),
        distinct_filetypes(r@),
{
    let ghost maps = maps_of(triggers@);
    let ghost filter = texts_of(filetypes@);
    let mut res = TriggerTable::empty();
    let mut m: usize = 0;
    while m < triggers.len()
        invariant
            m <= triggers.len(),
            maps == maps_of(triggers@),
            filter == texts_of(filetypes@),
            res@ == with_maps(maps, m as int, filter),
            distinct_filetypes(res@),
        decreases triggers.len() - m,
    {
        let map = &triggers[m];
        let ghost lists = lists_of(map@);
        assert(maps[m as int] == lists);
        let ghost start = res@;
        let mut e: usize = 0;
        while e < map.len()
            invariant
                e <= map.len(),
                lists == lists_of(map@),
                filter == texts_of(filetypes@),
                res@ == with_lists(start, lists, e as int, filter),
                distinct_filetypes(res@),
            decreases map.len() - e,
        {
            let key = &map[e].0;
            let list = &map[e].1;
            assert(lists[e as int] == (key@, texts_of(list@)));
            let mut patterns: Vec<String> = Vec::new();
            let mut p: usize = 0;
            while p < list.len()
                invariant
                    p <= list.len(),
                    patterns@.len() == p,
                    forall|j: int|
                        0 <= j < p ==> (#[trigger] patterns@[j])@ == pattern_of_trigger(
                            list@[j]@,
                        ),
                decreases list.len() - p,
            {
                patterns.push(trigger_pattern(list[p].as_str()));
                p += 1;
            }
            assert(texts_of(patterns@) =~= patterns_of_triggers(texts_of(list@)));
            let names = split_on(key.as_str(), 44);
            let ghost pieces = pieces_of(key@, 44);
            assert(texts_of(names@) =~= pieces);
            let ghost before = res@;
            let mut n: usize = 0;
            while n < names.len()
                invariant
                    n <= names.len(),
                    texts_of(names@) == pieces,
                    filter == texts_of(filetypes@),
                    res@ == with_key(before, pieces, n as int, filter, texts_of(patterns@)),
                    distinct_filetypes(res@),
                decreases names.len() - n,
            {
                let name = names[n].as_str();
                assert(pieces[n as int] == name@);
                if filetypes.len() == 0 || contains_text(filetypes, name) {
                    res.extend_filetype(name, &patterns);
                }
                n += 1;
            }
            e += 1;
        }
        m += 1;
    }
    res
}

/// The part of the line that triggers are looked for in: the line up to
/// byte `column`, or all of it if it is not longer. `None` if `column` falls
/// inside a character.
pub open spec fn line_upto(line: Seq<char>, column: int) -> Option<Seq<char>> {
    if column < byte_len(line) {
        if on_boundary(line, column) {
            Some(byte_slice(line, 0, column))
        } else {
            None
        }
    } else {
        Some(line)
    }
}

/// A hit fires if it ends between the start of the token and the cursor.
pub open spec fn hit_fires(hit: (usize, usize), start: usize, column: usize) -> bool {
    start <= hit.1 <= column
}

/// One of the hits fires.
pub open spec fn some_hit_fires(hits: Seq<(usize, usize)>, start: usize, column: usize) -> bool {
    exists|i: int| 0 <= i < hits.len() && hit_fires(#[trigger] hits[i], start, column)
}

/// One of the patterns that the set reports as matching has a hit that
/// fires.
pub open spec fn some_pattern_fires(
    patterns: Seq<Seq<char>>,
    text: Seq<char>,
    start: usize,
    column: usize,
) -> bool {
    let matching = set_matches_of(patterns, text);
    exists|k: int|
        0 <= k < matching.len() && (#[trigger] matching[k]) < patterns.len() && some_hit_fires(
            all_matches_of(patterns[matching[k] as int], text),
            start,
            column,
        )
}

/// A trigger of the filetype fires on the line.
pub open spec fn trigger_fires(
    table: TableModel,
    filetype: Seq<char>,
    line: Seq<char>,
    start: usize,
    column: usize,
) -> bool {
    match (patterns_for(table, filetype), line_upto(line, column as int)) {
        (Some(patterns), Some(text)) => some_pattern_fires(patterns, text, start, column),
        _ => false,
    }
}

/// Whether one of the hits ends between the start of the token and the
/// cursor.
pub fn any_hit_fires(hits: &Vec<(usize, usize)>, start: usize, column: usize) -> (r: bool)
    ensures
        r == some_hit_fires(hits@, start, column),
{
    let mut i: usize = 0;
    while i < hits.len()
        invariant
            i <= hits.len(),
            forall|j: int| 0 <= j < i ==> !hit_fires(#[trigger] hits@[j], start, column),
        decreases hits.len() - i,
    {
        let end = hits[i].1;
        if start <= end && end <= column {
            return true;
        }
        i += 1;
    }
    false
}

/// Whether one of the patterns has, in the text, a hit that fires.
pub fn any_pattern_fires(patterns: &Vec<String>, text: &str, start: usize, column: usize) -> (r:
    bool)
    ensures
        r == some_pattern_fires(texts_of(patterns@), text@, start, column),
{
    let matching = set_matches(patterns, text);
    let ghost all = texts_of(patterns@);
    let mut k: usize = 0;
    while k < matching.len()
        invariant
            k <= matching.len(),
            all == texts_of(patterns@),
            matching@ == set_matches_of(all, text@),
            forall|j: int|
                0 <= j < k ==> !((#[trigger] matching@[j]) < all.len() && some_hit_fires(
                    all_matches_of(all[matching@[j] as int], text@),
                    start,
                    column,
                )),
        decreases matching.len() - k,
    {
        let m = matching[k];
        if m < patterns.len() {
            assert(all[m as int] == patterns@[m as int]@);
            let hits = find_all(patterns[m].as_str(), text);
            if any_hit_fires(&hits, start, column) {
                return true;
            }
        }
        k += 1;
    }
    false
}

/// Something that can tell whether a trigger fires.
pub trait PatternMatcher {
    /// Whether a trigger of the filetype fires on the line, for a token
    /// that starts at byte `start_codepoint` and a cursor at byte
    /// `column_codepoint`.
    fn matches_for_filetype(
        &self,
        filetype: &str,
        line: &str,
        start_codepoint: usize,
        column_codepoint: usize,
    ) -> bool;
}

impl PatternMatcher for TriggerTable {
    /// Looks for the triggers of the filetype in the line up to the cursor.
    /// A trigger fires if one of its hits ends at or after the start of the
    /// token and at or before the cursor.
    fn matches_for_filetype(
        &self,
        filetype: &str,
        line: &str,
        start_codepoint: usize,
        column_codepoint: usize,
    ) -> (r: bool)
        ensures
            r == trigger_fires(self@, filetype@, line@, start_codepoint, column_codepoint),
    {
        let text = if column_codepoint < byte_length(line) {
            if !line.is_char_boundary(column_codepoint) {
                return false;
            }
            proof {
                lemma_ends_are_boundaries(line@);
            }
            slice(line, 0, column_codepoint)
        } else {
            proof {
                lemma_ends_are_boundaries(line@);
            }
            line
        };
        match self.patterns(filetype) {
            None => false,
            Some(patterns) => any_pattern_fires(patterns, text, start_codepoint, column_codepoint),
        }
    }
}

} // verus!
