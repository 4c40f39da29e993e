//! Structural extractor: turns page markup and three structural selectors
//! into a map from labels to positive counts.
//!
//! The selection of container elements and of their label and count
//! descendants is done by the `scraper` crate behind a trusted scan; the
//! digit filtering, the count parsing, the label fallback and the map
//! construction are verified here against `counter_map_of`.

use vstd::prelude::*;
use vstd::string::*;

use crate::error::ProfileError;
use crate::text::{filter_digits, filter_digits_exec, parse_u32, parse_u32_spec, str_eq, str_to_chars};

verus! {

/// One container element's scanned fields: the text of its first label
/// descendant and the text of its first count descendant, each absent when
/// the container has no such descendant.
pub struct ScanItem {
    pub label: Option<String>,
    pub count: Option<String>,
}

impl View for ScanItem {
    type V = (Option<Seq<char>>, Option<Seq<char>>);

    open spec fn view(&self) -> Self::V {
        (
            match self.label {
                Some(s) => Some(s@),
                None => None,
            },
            match self.count {
                Some(s) => Some(s@),
                None => None,
            },
        )
    }
}

/// The views of a sequence of scanned items, in order.
pub open spec fn items_view(s: Seq<ScanItem>) -> Seq<(Option<Seq<char>>, Option<Seq<char>>)>
    decreases s.len(),
{
    if s.len() == 0 {
        Seq::empty()
    } else {
        items_view(s.drop_last()).push(s.last()@)
    }
}

/// The label an item contributes: its scanned label text, or the fallback
/// literal where the label descendant was absent.
pub open spec fn item_label(it: (Option<Seq<char>>, Option<Seq<char>>), fallback: Seq<char>) -> Seq<
    char,
> {
    match it.0 {
        Some(l) => l,
        None => fallback,
    }
}

/// The count an item contributes: the ASCII digits of its scanned count
/// text (empty where absent), parsed as a `u32` with 0 on any failure.
pub open spec fn item_count(it: (Option<Seq<char>>, Option<Seq<char>>)) -> u32 {
    parse_u32_spec(
        filter_digits(
            match it.1 {
                Some(t) => t,
                None => Seq::empty(),
            },
        ),
    )
}

/// The counter map drawn from a sequence of scanned items: each item with a
/// positive count inserts its label, later items winning on equal labels;
/// items whose count resolves to zero are dropped.
pub open spec fn counter_map_of(
    items: Seq<(Option<Seq<char>>, Option<Seq<char>>)>,
    fallback: Seq<char>,
) -> Map<Seq<char>, u32>
    decreases items.len(),
{
    if items.len() == 0 {
        Map::empty()
    } else {
        let m = counter_map_of(items.drop_last(), fallback);
        let n = item_count(items.last());
        if n > 0 {
            m.insert(item_label(items.last(), fallback), n)
        } else {
            m
        }
    }
}

/// A mapping from labels to positive counts, viewed as a `Map` from the
/// label's characters to its count; on repeated labels the last insertion
/// wins.
#[derive(Debug, PartialEq)]
pub struct CounterMap {
    entries: Vec<(String, u32)>,
}

/// The map an entry sequence denotes, later entries winning.
pub open spec fn map_of(s: Seq<(String, u32)>) -> Map<Seq<char>, u32>
    decreases s.len(),
{
    if s.len() == 0 {
        Map::empty()
    } else {
        map_of(s.drop_last()).insert(s.last().0@, s.last().1)
    }
}

impl View for CounterMap {
    type V = Map<Seq<char>, u32>;

    closed spec fn view(&self) -> Map<Seq<char>, u32> {
        map_of(self.entries@)
    }
}

impl CounterMap {
    /// An empty mapping.
    pub fn new() -> (r: CounterMap)
        ensures
            r@ == Map::<Seq<char>, u32>::empty(),
    {
        let r = CounterMap { entries: Vec::new() };
        proof {
            assert(r.entries@ =~= Seq::<(String, u32)>::empty());
        }
        r
    }

    /// Inserts `value` under `key`; an earlier count under the same label
    /// is superseded.
    pub fn insert(&mut self, key: String, value: u32)
        ensures
            final(self)@ == old(self)@.insert(key@, value),
    {
        self.entries.push((key, value));
        proof {
            assert(self.entries@.drop_last() =~= old(self).entries@);
        }
    }

    /// The count stored under `key`, if any.
    pub fn get(&self, key: &str) -> (r: Option<u32>)
        ensures
            self@.contains_key(key@) ==> r == Some(self@[key@]),
            !self@.contains_key(key@) ==> r is None,
    {
        let mut i: usize = self.entries.len();
        proof {
            assert(self.entries@.subrange(0, self.entries@.len() as int) =~= self.entries@);
        }
        while i > 0
            invariant
                i <= self.entries@.len(),
                map_of(self.entries@).contains_key(key@) == map_of(
                    self.entries@.subrange(0, i as int),
                ).contains_key(key@),
                map_of(self.entries@).contains_key(key@) ==> map_of(self.entries@)[key@]
                    == map_of(self.entries@.subrange(0, i as int))[key@],
            decreases i,
        {
            proof {
                assert(self.entries@.subrange(0, i as int).drop_last() =~= self.entries@.subrange(
                    0,
                    i - 1,
                ));
                assert(self.entries@.subrange(0, i as int).last() == self.entries@[i - 1]);
            }
            if str_eq(self.entries[i - 1].0.as_str(), key) {
                return Some(self.entries[i - 1].1);
            }
            i -= 1;
        }
        proof {
            assert(self.entries@.subrange(0, 0) =~= Seq::<(String, u32)>::empty());
        }
        None
    }

    /// The entries as plain pairs; their map is this map.
    pub fn to_pairs(&self) -> (r: Vec<(String, u32)>)
        ensures
            map_of(r@) == self@,
    {
        let mut out: Vec<(String, u32)> = Vec::new();
        let mut i: usize = 0;
        while i < self.entries.len()
            invariant
                i <= self.entries@.len(),
                map_of(out@) == map_of(self.entries@.subrange(0, i as int)),
            decreases self.entries@.len() - i,
        {
            let k = self.entries[i].0.clone();
            let v = self.entries[i].1;
            let ghost prev = out@;
            out.push((k, v));
            proof {
                assert(out@.drop_last() =~= prev);
                assert(self.entries@.subrange(0, i + 1).drop_last() =~= self.entries@.subrange(
                    0,
                    i as int,
                ));
                assert(self.entries@.subrange(0, i + 1).last() == self.entries@[i as int]);
            }
            i += 1;
        }
        proof {
            assert(self.entries@.subrange(0, self.entries@.len() as int) =~= self.entries@);
        }
        out
    }
}

/// What `scraper` finds in `markup` for a container selector and two field
/// selectors: for each element matching the container selector, in the
/// order `Html::select` yields them (the parsed tree's node creation
/// order), the text of its first descendant matching each field selector.
pub uninterp spec fn scan_of(
    markup: Seq<char>,
    csel: Seq<char>,
    lsel: Seq<char>,
    nsel: Seq<char>,
) -> Seq<(Option<Seq<char>>, Option<Seq<char>>)>;

/// Whether `scraper::Selector::parse` accepts `sel` as a selector expression.
pub uninterp spec fn selector_valid(sel: Seq<char>) -> bool;

/// Relies on `scraper::Selector::parse`: whether the selector expression is
/// accepted; the outcome depends on the expression alone.
#[verifier::external_body]
pub(crate) fn check_selector(sel: &str) -> (r: bool)
    ensures
        r == selector_valid(sel@),
{
    scraper::Selector::parse(sel).is_ok()
}

/// Relies on `scraper::Html::parse_document`, `scraper::Selector::parse` and
/// `scraper::ElementRef::{select, text}`: parses `markup`, selects every
/// element matching `csel`, and hands back, per element, the concatenated
/// text of its first descendant matching `lsel` and of its first descendant
/// matching `nsel`; `None` where `Selector::parse` rejects a selector. The
/// result depends on the arguments alone.
#[verifier::external_body]
fn scan_containers(markup: &str, csel: &str, lsel: &str, nsel: &str) -> (r: Option<Vec<ScanItem>>)
    ensures
        r is Some == (selector_valid(csel@) && selector_valid(lsel@) && selector_valid(nsel@)),
        r matches Some(v) ==> items_view(v@) == scan_of(markup@, csel@, lsel@, nsel@),
{
    let doc = scraper::Html::parse_document(markup);
    let c = scraper::Selector::parse(csel).ok()?;
    let l = scraper::Selector::parse(lsel).ok()?;
    let n = scraper::Selector::parse(nsel).ok()?;
    Some(
        doc.select(&c).map(
            |el| ScanItem {
                label: el.select(&l).next().map(|e| e.text().collect()),
                count: el.select(&n).next().map(|e| e.text().collect()),
            },
        ).collect(),
    )
}

/// The counter map drawn from scanned items, as `counter_map_of` gives it:
/// per item, the count is the item's count text with every non-digit
/// dropped and the rest parsed (0 on absence or parse failure), the label
/// is the item's label text or `fallback`, and only items with a positive
/// count are inserted, later ones winning.
pub fn build_counter_map(items: &Vec<ScanItem>, fallback: &str) -> (r: CounterMap)
    ensures
        r@ == counter_map_of(items_view(items@), fallback@),
{
    let mut m = CounterMap::new();
    let mut i: usize = 0;
    while i < items.len()
        invariant
            i <= items@.len(),
            m@ == counter_map_of(items_view(items@.subrange(0, i as int)), fallback@),
        decreases items@.len() - i,
    {
        proof {
            assert(items@.subrange(0, i + 1).drop_last() =~= items@.subrange(0, i as int));
            assert(items@.subrange(0, i + 1).last() == items@[i as int]);
            assert(items_view(items@.subrange(0, i + 1)).drop_last() =~= items_view(
                items@.subrange(0, i as int),
            ));
        }
        let count_chars = match &items[i].count {
            Some(t) => str_to_chars(t.as_str()),
            None => Vec::new(),
        };
        proof {
            assert(count_chars@ =~= match items@[i as int]@.1 {
                Some(t) => t,
                None => Seq::<char>::empty(),
            });
        }
        let digits = filter_digits_exec(&count_chars);
        let n = parse_u32(&digits);
        if n > 0 {
            let label = match &items[i].label {
                Some(l) => l.clone(),
                None => String::from_str(fallback),
            };
            m.insert(label, n);
        }
        i += 1;
    }
    proof {
        assert(items@.subrange(0, items@.len() as int) =~= items@);
    }
    m
}

/// Extracts a counter map from `markup`: every element matching `csel`
/// yields one labeled count, read through `lsel` and `nsel` as
/// `counter_map_of` states. The only surfaced error is an invalid selector
/// expression; every extraction miss degrades to a default instead.
pub fn extract(markup: &str, csel: &str, lsel: &str, nsel: &str, fallback: &str) -> (r: Result<
    CounterMap,
    ProfileError,
>)
    ensures
        r is Ok <==> selector_valid(csel@) && selector_valid(lsel@) && selector_valid(nsel@),
        r matches Ok(m) ==> m@ == counter_map_of(scan_of(markup@, csel@, lsel@, nsel@), fallback@),
        r matches Err(e) ==> e is SelectorError,
{
    match scan_containers(markup, csel, lsel, nsel) {
        Some(items) => Ok(build_counter_map(&items, fallback)),
        None => Err(ProfileError::SelectorError(String::from_str("invalid selector expression"))),
    }
}

/// The activity counters page's selectors, applied to its markup: one
/// counter per profile count link, labeled by the count link label, with
/// a visible fallback literal where the label is absent.
pub fn activities_from_markup(markup: &str) -> (r: Result<CounterMap, ProfileError>)
    ensures
        r is Ok <==> selector_valid("div.profile_count_link"@) && selector_valid(
            "span.count_link_label"@,
        ) && selector_valid("span.profile_count_link_total"@),
        r matches Ok(m) ==> m@ == counter_map_of(
            scan_of(
                markup@,
                "div.profile_count_link"@,
                "span.count_link_label"@,
                "span.profile_count_link_total"@,
            ),
            "Unknown"@,
        ),
        r matches Err(e) ==> e is SelectorError,
{
    extract(
        markup,
        "div.profile_count_link",
        "span.count_link_label",
        "span.profile_count_link_total",
        "Unknown",
    )
}

/// The inventory page's selectors, applied to its markup: one counter per
/// games list tab, labeled by the tab's name, a fixed fallback literal
/// where the name is absent.
pub fn inventory_from_markup(markup: &str) -> (r: Result<CounterMap, ProfileError>)
    ensures
        r is Ok <==> selector_valid("a.games_list_tab"@) && selector_valid(
            "span.games_list_tab_name"@,
        ) && selector_valid("span.games_list_tab_number"@),
        r matches Ok(m) ==> m@ == counter_map_of(
            scan_of(
                markup@,
                "a.games_list_tab"@,
                "span.games_list_tab_name"@,
                "span.games_list_tab_number"@,
            ),
            "Game Name Not Found"@,
        ),
        r matches Err(e) ==> e is SelectorError,
{
    extract(
        markup,
        "a.games_list_tab",
        "span.games_list_tab_name",
        "span.games_list_tab_number",
        "Game Name Not Found",
    )
}

/// Law: every label in a counter map comes from a scanned item with that
/// label whose filtered count is positive — containers whose count
/// resolves to zero never appear in the result map.
pub proof fn lemma_counter_map_from_positive_item(
    items: Seq<(Option<Seq<char>>, Option<Seq<char>>)>,
    fallback: Seq<char>,
    l: Seq<char>,
)
    requires
        counter_map_of(items, fallback).contains_key(l),
    ensures
        exists|i: int|
            #![trigger items[i]]
            0 <= i < items.len() && item_label(items[i], fallback) == l && item_count(items[i])
                > 0,
    decreases items.len(),
{
    let last = items.last();
    if item_count(last) > 0 && item_label(last, fallback) == l {
        assert(items[items.len() - 1] == last);
    } else {
        lemma_counter_map_from_positive_item(items.drop_last(), fallback, l);
        let i = choose|i: int|
            #![trigger items.drop_last()[i]]
            0 <= i < items.drop_last().len() && item_label(items.drop_last()[i], fallback) == l
                && item_count(items.drop_last()[i]) > 0;
        assert(items[i] == items.drop_last()[i]);
    }
}

/// Law: every count stored in a counter map is positive; a count that
/// resolves to zero is dropped, never stored.
pub proof fn lemma_counter_map_counts_positive(
    items: Seq<(Option<Seq<char>>, Option<Seq<char>>)>,
    fallback: Seq<char>,
    l: Seq<char>,
)
    requires
        counter_map_of(items, fallback).contains_key(l),
    ensures
        counter_map_of(items, fallback)[l] > 0,
    decreases items.len(),
{
    let last = items.last();
    if !(item_count(last) > 0 && item_label(last, fallback) == l) {
        lemma_counter_map_counts_positive(items.drop_last(), fallback, l);
    }
}

/// Law: the structural extractor is deterministic, so re-running it on the
/// same markup and selectors yields an identical map — any two counter maps
/// that `extract`'s contract admits for the same inputs are equal.
pub proof fn lemma_extract_deterministic(
    m1: Map<Seq<char>, u32>,
    m2: Map<Seq<char>, u32>,
    markup: Seq<char>,
    csel: Seq<char>,
    lsel: Seq<char>,
    nsel: Seq<char>,
    fallback: Seq<char>,
)
    requires
        m1 == counter_map_of(scan_of(markup, csel, lsel, nsel), fallback),
        m2 == counter_map_of(scan_of(markup, csel, lsel, nsel), fallback),
    ensures
        m1 == m2,
{
}

} // verus!
