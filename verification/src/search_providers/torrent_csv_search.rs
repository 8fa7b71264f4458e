//! The Torrents-CSV backend: its request, and the decoding of its answer, a
//! JSON list of entries, into torrent records.

use crate::error::SearchError;
use crate::json::{json_integer, json_items, json_member, json_null, json_text, parsed_json};
use crate::search_providers::{
    accepted, answers, append_encoded, encoded_term, user_agent, SearchProvider, SearchRequest,
};
use crate::torrent::{all_magnets, magnet_link, magnet_of, views, Torrent, TorrentView};
use vstd::string::StringExecFns;
use vstd::prelude::*;
use vstd::utf8::{
    decode_utf8, encode_utf8, encode_utf8_decode_utf8, encode_utf8_valid_utf8, valid_utf8,
};

verus! {

/// The mathematical value of an [`Entry`].
pub struct EntryView {
    pub infohash: Seq<char>,
    pub name: Seq<char>,
    pub size_bytes: Option<u32>,
    pub created_unix: Option<u32>,
    pub seeders: Option<u32>,
    pub leechers: Option<u32>,
    pub completed: Option<u32>,
    pub scraped_date: Option<i32>,
}

/// One element of the backend's answer.
#[derive(Clone, Debug, PartialEq, Eq)]
pub struct Entry {
    pub infohash: String,
    pub name: String,
    pub size_bytes: Option<u32>,
    pub created_unix: Option<u32>,
    pub seeders: Option<u32>,
    pub leechers: Option<u32>,
    pub completed: Option<u32>,
    pub scraped_date: Option<i32>,
}

impl View for Entry {
    type V = EntryView;

    open spec fn view(&self) -> EntryView {
        EntryView {
            infohash: self.infohash@,
            name: self.name@,
            size_bytes: self.size_bytes,
            created_unix: self.created_unix,
            seeders: self.seeders,
            leechers: self.leechers,
            completed: self.completed,
            scraped_date: self.scraped_date,
        }
    }
}

/// The string that `v` holds under `key`, if it holds one.
pub open spec fn text_member(v: serde_json::Value, key: Seq<char>) -> Option<Seq<char>> {
    match json_member(v, key) {
        Some(m) => json_text(m),
        None => None,
    }
}

/// The optional integer that `v` holds under `key`: `Some(None)` where the
/// key is absent or holds `null`, `Some(Some(n))` where it holds the integer
/// `n`, and `None` where it holds anything else.
pub open spec fn integer_member(v: serde_json::Value, key: Seq<char>) -> Option<Option<i64>> {
    match json_member(v, key) {
        None => Some(None),
        Some(m) => if json_null(m) {
            Some(None)
        } else {
            match json_integer(m) {
                Some(n) => Some(Some(n)),
                None => None,
            }
        },
    }
}

/// The optional count that `v` holds under `key`. An integer outside `u32`
/// is none: the result is then `None`, as for what is no integer.
pub open spec fn count_member(v: serde_json::Value, key: Seq<char>) -> Option<Option<u32>> {
    match integer_member(v, key) {
        Some(Some(n)) => if 0 <= n <= u32::MAX {
            Some(Some(n as u32))
        } else {
            None
        },
        Some(None) => Some(None),
        None => None,
    }
}

/// The optional date that `v` holds under `key`, an integer within `i32`.
pub open spec fn date_member(v: serde_json::Value, key: Seq<char>) -> Option<Option<i32>> {
    match integer_member(v, key) {
        Some(Some(n)) => if i32::MIN <= n <= i32::MAX {
            Some(Some(n as i32))
        } else {
            None
        },
        Some(None) => Some(None),
        None => None,
    }
}

/// Whether `v` can become a record: it holds an info-hash and a name, both
/// strings, and each optional field is absent, `null` or a number of its
/// type.
pub open spec fn usable(v: serde_json::Value) -> bool {
    &&& text_member(v, "infohash"@) is Some
    &&& text_member(v, "name"@) is Some
    &&& count_member(v, "size_bytes"@) is Some
    &&& count_member(v, "created_unix"@) is Some
    &&& count_member(v, "seeders"@) is Some
    &&& count_member(v, "leechers"@) is Some
    &&& count_member(v, "completed"@) is Some
    &&& date_member(v, "scraped_date"@) is Some
}

/// The entry that `v` decodes to, or `None` where `v` is not usable.
pub open spec fn decoded_entry(v: serde_json::Value) -> Option<EntryView> {
    if usable(v) {
        Some(
            EntryView {
                infohash: text_member(v, "infohash"@).unwrap(),
                name: text_member(v, "name"@).unwrap(),
                size_bytes: count_member(v, "size_bytes"@).unwrap(),
                created_unix: count_member(v, "created_unix"@).unwrap(),
                seeders: count_member(v, "seeders"@).unwrap(),
                leechers: count_member(v, "leechers"@).unwrap(),
                completed: count_member(v, "completed"@).unwrap(),
                scraped_date: date_member(v, "scraped_date"@).unwrap(),
            },
        )
    } else {
        None
    }
}

/// The record of an entry: the name and the counts as they are, and the
/// magnet link of the info-hash.
pub open spec fn record_of(e: EntryView) -> TorrentView {
    TorrentView {
        name: e.name,
        magnet_link: magnet_of(e.infohash),
        seeders: e.seeders,
        leechers: e.leechers,
    }
}

/// The records of a list of elements: one for each usable element, in the
/// order of the list. Elements that are not usable leave no trace.
pub open spec fn records_of(items: Seq<serde_json::Value>) -> Seq<TorrentView>
    decreases items.len(),
{
    if items.len() == 0 {
        Seq::empty()
    } else {
        let front = records_of(items.drop_last());
        match decoded_entry(items.last()) {
            Some(e) => front.push(record_of(e)),
            None => front,
        }
    }
}

/// What a decoded list of elements answers a search with: its records, or
/// `Decode` where the list has elements and none of them is usable.
pub open spec fn outcome_of_items(items: Seq<serde_json::Value>) -> Result<
    Seq<TorrentView>,
    SearchError,
> {
    if items.len() > 0 && records_of(items).len() == 0 {
        Err(SearchError::Decode)
    } else {
        Ok(records_of(items))
    }
}

/// What a decoded JSON value answers a search with: `Parse` unless it is a
/// list.
pub open spec fn outcome_of_value(v: serde_json::Value) -> Result<Seq<TorrentView>, SearchError> {
    match json_items(v) {
        Some(items) => outcome_of_items(items),
        None => Err(SearchError::Parse),
    }
}

/// What a response text answers a search with: `Parse` unless it is JSON.
pub open spec fn outcome_of_text(text: Seq<char>) -> Result<Seq<TorrentView>, SearchError> {
    match parsed_json(text) {
        Some(v) => outcome_of_value(v),
        None => Err(SearchError::Parse),
    }
}

/// What a response body answers a search with: `Parse` unless it is UTF-8.
pub open spec fn outcome_of_body(body: Seq<u8>) -> Result<Seq<TorrentView>, SearchError> {
    if valid_utf8(body) {
        outcome_of_text(decode_utf8(body))
    } else {
        Err(SearchError::Parse)
    }
}

fn text_field(v: &serde_json::Value, key: &str) -> (r: Option<String>)
    ensures
        match r {
            Some(s) => text_member(*v, key@) == Some(s@),
            None => text_member(*v, key@) is None,
        },
{
    match crate::json::member(v, key) {
        Some(m) => crate::json::text(m),
        None => None,
    }
}

fn integer_field(v: &serde_json::Value, key: &str) -> (r: Option<Option<i64>>)
    ensures
        r == integer_member(*v, key@),
{
    match crate::json::member(v, key) {
        None => Some(None),
        Some(m) => if crate::json::is_null(m) {
            Some(None)
        } else {
            match crate::json::integer(m) {
                Some(n) => Some(Some(n)),
                None => None,
            }
        },
    }
}

fn count_field(v: &serde_json::Value, key: &str) -> (r: Option<Option<u32>>)
    ensures
        r == count_member(*v, key@),
{
    match integer_field(v, key) {
        Some(Some(n)) => if 0 <= n && n <= 0xffff_ffff {
            Some(Some(n as u32))
        } else {
            None
        },
        Some(None) => Some(None),
        None => None,
    }
}

fn date_field(v: &serde_json::Value, key: &str) -> (r: Option<Option<i32>>)
    ensures
        r == date_member(*v, key@),
{
    match integer_field(v, key) {
        Some(Some(n)) => if -0x8000_0000 <= n && n <= 0x7fff_ffff {
            Some(Some(n as i32))
        } else {
            None
        },
        Some(None) => Some(None),
        None => None,
    }
}

impl Entry {
    /// Decodes one element of the backend's list. An element gives `None`
    /// where it has no info-hash or no name, or where an optional field
    /// holds what is no number of its type; an optional field that is absent
    /// or `null` is left unset.
    pub fn decode(v: &serde_json::Value) -> (r: Option<Entry>)
        ensures
            match r {
                Some(e) => decoded_entry(*v) == Some(e@),
                None => decoded_entry(*v) is None,
            },
    {
        let infohash = text_field(v, "infohash")?;
        let name = text_field(v, "name")?;
        let size_bytes = count_field(v, "size_bytes")?;
        let created_unix = count_field(v, "created_unix")?;
        let seeders = count_field(v, "seeders")?;
        let leechers = count_field(v, "leechers")?;
        let completed = count_field(v, "completed")?;
        let scraped_date = date_field(v, "scraped_date")?;
        Some(
            Entry {
                infohash,
                name,
                size_bytes,
                created_unix,
                seeders,
                leechers,
                completed,
                scraped_date,
            },
        )
    }

    /// The record of this entry.
    pub fn to_torrent(&self) -> (t: Torrent)
        ensures
            t@ == record_of(self@),
            t.well_formed(),
    {
        Torrent {
            name: self.name.clone(),
            magnet_link: magnet_link(self.infohash.as_str()),
            seeders: self.seeders,
            leechers: self.leechers,
        }
    }
}

/// Every record of a list carries a magnet link, and there are no more
/// records than elements.
pub proof fn lemma_records_are_magnets(items: Seq<serde_json::Value>)
    ensures
        all_magnets(records_of(items)),
        records_of(items).len() <= items.len(),
    decreases items.len(),
{
    if items.len() > 0 {
        lemma_records_are_magnets(items.drop_last());
        match decoded_entry(items.last()) {
            Some(e) => {
                let link = record_of(e).magnet_link;
                assert(link.subrange(0, crate::torrent::magnet_prefix().len() as int)
                    =~= crate::torrent::magnet_prefix());
            },
            None => {},
        }
    }
}

/// Turns the elements of a decoded list into records.
pub fn records_from_items(items: &Vec<serde_json::Value>) -> (r: Result<Vec<Torrent>, SearchError>)
    ensures
        answers(r, outcome_of_items(items@)),
        r is Ok ==> all_magnets(views(r.unwrap()@)),
{
    let mut records: Vec<Torrent> = Vec::new();
    let mut i: usize = 0;
    while i < items.len()
        invariant
            i <= items.len(),
            views(records@) == records_of(items@.take(i as int)),
        decreases items.len() - i,
    {
        proof {
            assert(items@.take(i + 1).drop_last() =~= items@.take(i as int));
            assert(items@.take(i + 1).last() == items@[i as int]);
        }
        match Entry::decode(&items[i]) {
            Some(entry) => {
                let record = entry.to_torrent();
                proof {
                    assert(views(records@.push(record)) =~= views(records@).push(record@));
                }
                records.push(record);
            },
            None => {},
        }
        i += 1;
    }
    proof {
        assert(items@.take(items@.len() as int) =~= items@);
        lemma_records_are_magnets(items@);
    }
    if items.len() > 0 && records.len() == 0 {
        Err(SearchError::Decode)
    } else {
        Ok(records)
    }
}

/// Turns a decoded JSON value into records: `Parse` unless it is a list.
pub fn records_from_value(v: &serde_json::Value) -> (r: Result<Vec<Torrent>, SearchError>)
    ensures
        answers(r, outcome_of_value(*v)),
        r is Ok ==> all_magnets(views(r.unwrap()@)),
{
    match crate::json::items(v) {
        Some(items) => records_from_items(items),
        None => Err(SearchError::Parse),
    }
}

/// Decodes the text of a response into records, in the order of the
/// response. Text that is no JSON list gives `Parse`; a list with elements of
/// which none is usable gives `Decode`; an empty list gives no records.
pub fn parse_torrent_csv(content: &str) -> (r: Result<Vec<Torrent>, SearchError>)
    ensures
        answers(r, outcome_of_text(content@)),
        r is Ok ==> all_magnets(views(r.unwrap()@)),
{
    match crate::json::parse(content) {
        Ok(v) => records_from_value(&v),
        Err(_) => Err(SearchError::Parse),
    }
}

/// Calls `std::str::from_utf8`. Trusted: the call succeeds exactly on valid
/// UTF-8, and the bytes of the text it then returns are the bytes given.
#[verifier::external_body]
fn utf8_text(bytes: &[u8]) -> (r: Option<&str>)
    ensures
        match r {
            Some(s) => encode_utf8(s@) == bytes@,
            None => !valid_utf8(bytes@),
        },
{
    std::str::from_utf8(bytes).ok()
}

/// Decodes the whole body of a response into records. A body that is not
/// UTF-8 gives `Parse`.
pub fn parse_body(body: &[u8]) -> (r: Result<Vec<Torrent>, SearchError>)
    ensures
        answers(r, outcome_of_body(body@)),
        r is Ok ==> all_magnets(views(r.unwrap()@)),
{
    match utf8_text(body) {
        Some(content) => {
            proof {
                encode_utf8_valid_utf8(content@);
                encode_utf8_decode_utf8(content@);
            }
            parse_torrent_csv(content)
        },
        None => Err(SearchError::Parse),
    }
}

/// What a response answers a search with: `BackendRejected` unless the
/// status reports success, else what the body decodes to.
pub open spec fn outcome_of_response(status: u16, body: Seq<u8>) -> Result<
    Seq<TorrentView>,
    SearchError,
> {
    if accepted(status) {
        outcome_of_body(body)
    } else {
        Err(SearchError::BackendRejected)
    }
}

/// The backend's search URL up to the term: the address and the cap on the
/// number of results.
pub open spec fn search_endpoint() -> Seq<char> {
    "https://torrents-csv.ml/service/search?size=300&q="@
}

/// The URL that searches the backend for `term`.
pub open spec fn search_url(term: Seq<char>) -> Seq<char> {
    search_endpoint() + encoded_term(term)
}

/// The Torrents-CSV backend.
#[derive(Clone, Copy, Debug)]
pub struct TorrentCsvSearch {}

impl TorrentCsvSearch {
    /// The provider, ready for any number of searches.
    pub fn new() -> (provider: TorrentCsvSearch)
        ensures
            provider.label() == "TC"@,
    {
        TorrentCsvSearch {  }
    }
}

impl SearchProvider for TorrentCsvSearch {
    open spec fn label(&self) -> Seq<char> {
        "TC"@
    }

    open spec fn endpoint(&self) -> Seq<char> {
        search_endpoint()
    }

    open spec fn outcome_for(&self, status: u16, body: Seq<u8>) -> Result<
        Seq<TorrentView>,
        SearchError,
    > {
        outcome_of_response(status, body)
    }

    fn get_name(&self) -> (name: &'static str) {
        "TC"
    }

    fn request(&self, term: &str) -> (r: SearchRequest) {
        let mut url = String::from_str("https://torrents-csv.ml/service/search?size=300&q=");
        append_encoded(&mut url, term);
        SearchRequest { url, user_agent: user_agent() }
    }

    fn read_response(&self, status: u16, body: &[u8]) -> (r: Result<Vec<Torrent>, SearchError>) {
        if 200 <= status && status <= 299 {
            parse_body(body)
        } else {
            Err(SearchError::BackendRejected)
        }
    }
}

/// The records of two lists, one after the other, are the records of the
/// first and then those of the second.
pub proof fn lemma_records_of_concat(a: Seq<serde_json::Value>, b: Seq<serde_json::Value>)
    ensures
        records_of(a + b) == records_of(a) + records_of(b),
    decreases b.len(),
{
    if b.len() == 0 {
        assert(a + b =~= a);
        assert(records_of(a) + records_of(b) =~= records_of(a));
    } else {
        lemma_records_of_concat(a, b.drop_last());
        assert((a + b).drop_last() =~= a + b.drop_last());
        assert((a + b).last() == b.last());
        match decoded_entry(b.last()) {
            Some(e) => {
                assert((records_of(a) + records_of(b.drop_last())).push(record_of(e))
                    =~= records_of(a) + records_of(b.drop_last()).push(record_of(e)));
            },
            None => {},
        }
    }
}

/// The elements of the list that a response text holds, or `None` where the
/// text is no JSON list.
pub open spec fn listing_of(text: Seq<char>) -> Option<Seq<serde_json::Value>> {
    match parsed_json(text) {
        Some(v) => json_items(v),
        None => None,
    }
}

/// A response whose elements are all usable gives one record for each
/// element, in order, each with a magnet link, and is never an error.
pub proof fn lemma_usable_list_keeps_every_entry(text: Seq<char>, items: Seq<serde_json::Value>)
    requires
        listing_of(text) == Some(items),
        forall|i: int| 0 <= i < items.len() ==> usable(#[trigger] items[i]),
    ensures
        outcome_of_text(text) == Ok::<Seq<TorrentView>, SearchError>(records_of(items)),
        records_of(items).len() == items.len(),
        forall|i: int|
            0 <= i < items.len() ==> #[trigger] records_of(items)[i] == record_of(
                decoded_entry(items[i]).unwrap(),
            ),
        all_magnets(records_of(items)),
{
    lemma_records_are_magnets(items);
    lemma_usable_items_keep_every_entry(items);
}

proof fn lemma_usable_items_keep_every_entry(items: Seq<serde_json::Value>)
    requires
        forall|i: int| 0 <= i < items.len() ==> usable(#[trigger] items[i]),
    ensures
        records_of(items).len() == items.len(),
        forall|i: int|
            0 <= i < items.len() ==> #[trigger] records_of(items)[i] == record_of(
                decoded_entry(items[i]).unwrap(),
            ),
    decreases items.len(),
{
    if items.len() > 0 {
        let front = items.drop_last();
        assert forall|i: int| 0 <= i < front.len() implies usable(#[trigger] front[i]) by {
            assert(front[i] == items[i]);
        }
        lemma_usable_items_keep_every_entry(front);
        assert(usable(items[items.len() - 1]));
        assert forall|i: int| 0 <= i < items.len() implies #[trigger] records_of(items)[i]
            == record_of(decoded_entry(items[i]).unwrap()) by {
            if i < front.len() {
                assert(front[i] == items[i]);
                assert(records_of(items)[i] == records_of(front)[i]);
            }
        }
    }
}

/// A response that holds a list without elements gives no records, and no
/// error.
pub proof fn lemma_empty_list_is_success(text: Seq<char>)
    requires
        listing_of(text) == Some(Seq::<serde_json::Value>::empty()),
    ensures
        outcome_of_text(text) == Ok::<Seq<TorrentView>, SearchError>(Seq::empty()),
{
}

/// An element that is not usable leaves the records of the elements around
/// it as they are; where those give a record, the response is no error.
pub proof fn lemma_unusable_entry_is_dropped(
    text: Seq<char>,
    before: Seq<serde_json::Value>,
    v: serde_json::Value,
    after: Seq<serde_json::Value>,
)
    requires
        listing_of(text) == Some(before.push(v) + after),
        !usable(v),
    ensures
        records_of(before.push(v) + after) == records_of(before + after),
        records_of(before + after).len() > 0 ==> outcome_of_text(text) == Ok::<
            Seq<TorrentView>,
            SearchError,
        >(records_of(before + after)),
{
    lemma_records_of_concat(before.push(v), after);
    lemma_records_of_concat(before, after);
    assert(before.push(v).drop_last() =~= before);
    assert(before.push(v).last() == v);
}

/// A usable element in which the seeders, or the leechers, are absent or
/// `null` gives a record in which that count is unset.
pub proof fn lemma_absent_counts_stay_unset(v: serde_json::Value)
    requires
        usable(v),
    ensures
        (json_member(v, "seeders"@) matches Some(m) ==> json_null(m)) ==> record_of(
            decoded_entry(v).unwrap(),
        ).seeders is None,
        (json_member(v, "leechers"@) matches Some(m) ==> json_null(m)) ==> record_of(
            decoded_entry(v).unwrap(),
        ).leechers is None,
{
}

} // verus!
