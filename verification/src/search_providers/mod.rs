//! The capability that every backend offers, and what all backends share:
//! the user agent and the encoding of a search term for a URL.

pub mod torrent_csv_search;

use crate::error::SearchError;
use crate::torrent::{views, Torrent, TorrentView};
use vstd::prelude::*;
use vstd::utf8::encode_utf8;

verus! {

/// The one request of a search: a GET of `url` that carries `user_agent`.
#[derive(Clone, Debug, PartialEq, Eq)]
pub struct SearchRequest {
    pub url: String,
    pub user_agent: &'static str,
}

/// A torrent-indexing backend. A search is one request and the reading of
/// its response; the transport between the two belongs to the caller. No
/// method changes the provider, and each result depends on the arguments
/// alone.
pub trait SearchProvider {
    /// The provider's short name.
    spec fn label(&self) -> Seq<char>;

    /// The backend's search URL up to the place of the term.
    spec fn endpoint(&self) -> Seq<char>;

    /// What a response with this status and body answers a search with.
    spec fn outcome_for(&self, status: u16, body: Seq<u8>) -> Result<Seq<TorrentView>, SearchError>;

    /// The provider's short name, for diagnostics and attribution.
    fn get_name(&self) -> (name: &'static str)
        ensures
            name@ == self.label(),
    ;

    /// The request that searches for `term`: the term is embedded encoded,
    /// whatever it holds, and the shared user agent is attached.
    fn request(&self, term: &str) -> (r: SearchRequest)
        ensures
            r.url@ == self.endpoint() + encoded_term(term@),
            r.user_agent@ == shared_user_agent(),
    ;

    /// Reads the backend's response, whole, into records.
    fn read_response(&self, status: u16, body: &[u8]) -> (r: Result<Vec<Torrent>, SearchError>)
        ensures
            answers(r, self.outcome_for(status, body@)),
    ;
}

/// What a search through `provider` comes to once the transport is done:
/// `Network` where it brought nothing back, else what the provider reads
/// from the status and body.
pub open spec fn outcome_of_exchange<P: SearchProvider>(
    provider: &P,
    fetched: Option<(u16, Vec<u8>)>,
) -> Result<Seq<TorrentView>, SearchError> {
    match fetched {
        Some((status, body)) => provider.outcome_for(status, body@),
        None => Err(SearchError::Network),
    }
}

/// Concludes a search from what the transport brought back: the status and
/// the whole body, or nothing where the transport failed.
pub fn conclude<P: SearchProvider>(provider: &P, fetched: Option<(u16, Vec<u8>)>) -> (r: Result<
    Vec<Torrent>,
    SearchError,
>)
    ensures
        answers(r, outcome_of_exchange(provider, fetched)),
{
    match fetched {
        Some((status, body)) => provider.read_response(status, body.as_slice()),
        None => Err(SearchError::Network),
    }
}

/// Whether the result `r` is the outcome `expected`: the same error, or
/// records with the expected views.
pub open spec fn answers(
    r: Result<Vec<Torrent>, SearchError>,
    expected: Result<Seq<TorrentView>, SearchError>,
) -> bool {
    match (r, expected) {
        (Ok(records), Ok(s)) => views(records@) == s,
        (Err(e), Err(f)) => e == f,
        _ => false,
    }
}

/// Two results that answer one outcome agree: the same error, or records
/// with the same views. So what a provider returns for a response does not
/// depend on any other search made through it.
pub proof fn lemma_answer_is_determined(
    first: Result<Vec<Torrent>, SearchError>,
    second: Result<Vec<Torrent>, SearchError>,
    expected: Result<Seq<TorrentView>, SearchError>,
)
    requires
        answers(first, expected),
        answers(second, expected),
    ensures
        match (first, second) {
            (Ok(a), Ok(b)) => views(a@) == views(b@),
            (Err(e), Err(f)) => e == f,
            _ => false,
        },
{
}

/// Whether a response status reports success.
pub open spec fn accepted(status: u16) -> bool {
    200 <= status <= 299
}

/// The user agent that every provider sends.
pub open spec fn shared_user_agent() -> Seq<char> {
    "torrent-search/0.1"@
}

/// The user agent that every provider sends.
pub fn user_agent() -> (agent: &'static str)
    ensures
        agent@ == shared_user_agent(),
{
    "torrent-search/0.1"
}

/// Whether a byte stands for itself in a URL: an ASCII letter or digit, or
/// one of `-`, `.`, `_`, `~`.
pub open spec fn unreserved(b: u8) -> bool {
    ||| 0x41 <= b <= 0x5a
    ||| 0x61 <= b <= 0x7a
    ||| 0x30 <= b <= 0x39
    ||| b == 0x2d
    ||| b == 0x2e
    ||| b == 0x5f
    ||| b == 0x7e
}

/// The upper-case hexadecimal digit of a value below 16.
pub open spec fn hex_digit(n: u8) -> char {
    if n < 10 {
        (0x30 + n) as u8 as char
    } else {
        (0x37 + n) as u8 as char
    }
}

/// One byte as it stands in a URL: itself where it is unreserved, else `%`
/// and its two hexadecimal digits.
pub open spec fn encoded_byte(b: u8) -> Seq<char> {
    if unreserved(b) {
        seq![b as char]
    } else {
        seq!['%', hex_digit(b / 16), hex_digit(b % 16)]
    }
}

/// A sequence of bytes as it stands in a URL.
pub open spec fn encoded_bytes(bytes: Seq<u8>) -> Seq<char>
    decreases bytes.len(),
{
    if bytes.len() == 0 {
        Seq::empty()
    } else {
        encoded_bytes(bytes.drop_last()) + encoded_byte(bytes.last())
    }
}

/// A search term as it stands in a URL: its UTF-8 bytes, each encoded.
pub open spec fn encoded_term(term: Seq<char>) -> Seq<char> {
    encoded_bytes(encode_utf8(term))
}

/// Whether a character may stand in an encoded term.
pub open spec fn url_safe(c: char) -> bool {
    c == '%' || (c as u32 <= 0x7f && unreserved(c as u8))
}

/// Calls `String::push`. Trusted: the character is appended.
#[verifier::external_body]
fn push_char(s: &mut String, c: char)
    ensures
        final(s)@ == old(s)@.push(c),
{
    s.push(c)
}

fn hex_char(n: u8) -> (c: char)
    requires
        n < 16,
    ensures
        c == hex_digit(n),
{
    if n < 10 {
        (0x30 + n) as char
    } else {
        (0x37 + n) as char
    }
}

fn is_unreserved(b: u8) -> (r: bool)
    ensures
        r == unreserved(b),
{
    (0x41 <= b && b <= 0x5a) || (0x61 <= b && b <= 0x7a) || (0x30 <= b && b <= 0x39) || b == 0x2d
        || b == 0x2e || b == 0x5f || b == 0x7e
}

/// Appends `term`, encoded for a URL, to `url`.
pub fn append_encoded(url: &mut String, term: &str)
    ensures
        final(url)@ == old(url)@ + encoded_term(term@),
{
    let bytes = term.as_bytes();
    let mut i: usize = 0;
    while i < bytes.len()
        invariant
            i <= bytes.len(),
            bytes@ == encode_utf8(term@),
            url@ == old(url)@ + encoded_bytes(bytes@.take(i as int)),
        decreases bytes.len() - i,
    {
        let b = bytes[i];
        proof {
            assert(bytes@.take(i + 1).drop_last() =~= bytes@.take(i as int));
            assert(bytes@.take(i + 1).last() == b);
        }
        let ghost before = url@;
        if is_unreserved(b) {
            push_char(url, b as char);
            assert(url@ =~= before + encoded_byte(b));
        } else {
            push_char(url, '%');
            push_char(url, hex_char(b / 16));
            push_char(url, hex_char(b % 16));
            assert(url@ =~= before + encoded_byte(b));
        }
        assert(url@ =~= old(url)@ + encoded_bytes(bytes@.take(i + 1)));
        i += 1;
    }
    proof {
        assert(bytes@.take(bytes@.len() as int) =~= bytes@);
    }
}

/// The term encoded for a URL.
pub fn url_encode(term: &str) -> (encoded: String)
    ensures
        encoded@ == encoded_term(term@),
{
    let mut encoded = String::new();
    append_encoded(&mut encoded, term);
    assert(encoded@ =~= encoded_term(term@));
    encoded
}

/// An encoded sequence of bytes holds only `%` and unreserved characters,
/// and one to three characters for each byte.
pub proof fn lemma_encoded_is_url_safe(bytes: Seq<u8>)
    ensures
        forall|i: int| 0 <= i < encoded_bytes(bytes).len() ==> url_safe(#[trigger] encoded_bytes(bytes)[i]),
        bytes.len() <= encoded_bytes(bytes).len() <= 3 * bytes.len(),
    decreases bytes.len(),
{
    if bytes.len() > 0 {
        lemma_encoded_is_url_safe(bytes.drop_last());
        let b = bytes.last();
        let tail = encoded_byte(b);
        assert forall|k: int| 0 <= k < tail.len() implies url_safe(#[trigger] tail[k]) by {
            lemma_hex_digit_is_url_safe(b / 16);
            lemma_hex_digit_is_url_safe(b % 16);
        }
    }
}

/// A hexadecimal digit is an ASCII digit or one of `A` to `F`.
pub proof fn lemma_hex_digit_is_url_safe(n: u8)
    requires
        n < 16,
    ensures
        url_safe(hex_digit(n)),
{
}

} // verus!
