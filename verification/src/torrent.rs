use vstd::prelude::*;
use vstd::string::StringExecFns;

verus! {

/// The mathematical value of a [`Torrent`].
pub struct TorrentView {
    pub name: Seq<char>,
    pub magnet_link: Seq<char>,
    pub seeders: Option<u32>,
    pub leechers: Option<u32>,
}

/// The normalised descriptor of one torrent, whatever backend reported it.
#[derive(Clone, Debug, PartialEq, Eq)]
pub struct Torrent {
    pub name: String,
    pub magnet_link: String,
    pub seeders: Option<u32>,
    pub leechers: Option<u32>,
}

impl View for Torrent {
    type V = TorrentView;

    open spec fn view(&self) -> TorrentView {
        TorrentView {
            name: self.name@,
            magnet_link: self.magnet_link@,
            seeders: self.seeders,
            leechers: self.leechers,
        }
    }
}

/// What every magnet link starts with; the info-hash follows it.
pub open spec fn magnet_prefix() -> Seq<char> {
    "magnet:?xt=urn:btih:"@
}

/// The magnet link of an info-hash: the prefix, then the hash verbatim.
pub open spec fn magnet_of(infohash: Seq<char>) -> Seq<char> {
    magnet_prefix() + infohash
}

/// Whether `link` begins with the magnet prefix.
pub open spec fn is_magnet(link: Seq<char>) -> bool {
    magnet_prefix().is_prefix_of(link)
}

/// The views of a sequence of records, in order.
pub open spec fn views(records: Seq<Torrent>) -> Seq<TorrentView> {
    records.map_values(|t: Torrent| t@)
}

/// Whether every record of `records` carries a magnet link.
pub open spec fn all_magnets(records: Seq<TorrentView>) -> bool {
    forall|i: int| 0 <= i < records.len() ==> is_magnet(#[trigger] records[i].magnet_link)
}

/// Builds the magnet link of `infohash`.
pub fn magnet_link(infohash: &str) -> (link: String)
    ensures
        link@ == magnet_of(infohash@),
        is_magnet(link@),
{
    let mut link = String::from_str("magnet:?xt=urn:btih:");
    link.append(infohash);
    assert(magnet_prefix().is_prefix_of(magnet_prefix() + infohash@)) by {
        assert((magnet_prefix() + infohash@).subrange(0, magnet_prefix().len() as int)
            =~= magnet_prefix());
    }
    link
}

impl Torrent {
    /// The invariant of a record: its link is a magnet link.
    pub open spec fn well_formed(&self) -> bool {
        is_magnet(self.magnet_link@)
    }

    /// A record with the same fields.
    pub fn duplicate(&self) -> (copy: Torrent)
        ensures
            copy@ == self@,
    {
        Torrent {
            name: self.name.clone(),
            magnet_link: self.magnet_link.clone(),
            seeders: self.seeders,
            leechers: self.leechers,
        }
    }
}

} // verus!
