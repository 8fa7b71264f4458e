use torrent_search::error::SearchError;
use torrent_search::search_providers::torrent_csv_search::{
    parse_body, parse_torrent_csv, records_from_items, records_from_value, Entry,
};
use torrent_search::torrent::{magnet_link, Torrent};

const LISTING: &str = r#"[
  {"infohash":"dd8255ecdc7ca55fb0bbf81323d87062db1f6d1c","name":"Big Buck Bunny","size_bytes":276445467,"created_unix":1504163914,"seeders":115,"leechers":6,"completed":6895,"scraped_date":1639768311},
  {"infohash":"08ada5a7a6183aae1e09d831df6748d566095a10","name":"Sintel","size_bytes":129241752,"created_unix":1490916601,"seeders":92,"leechers":3,"completed":4021,"scraped_date":1639768311},
  {"infohash":"209c8226b299b308beaf2b9cd3fb49212dbd13ec","name":"Tears of Steel","size_bytes":571346576,"created_unix":1490916637,"seeders":60,"leechers":2,"completed":2550,"scraped_date":1639768312},
  {"infohash":"a88fda5954e89178c372716a6a78b8180ed4dad3","name":"The WIRED CD","size_bytes":56385294,"created_unix":1490916617,"seeders":17,"leechers":0,"completed":321,"scraped_date":1639768312},
  {"infohash":"c9e15763f722f23e98a29decdfae341b98d53056","name":"Cosmos Laundromat","size_bytes":220514438,"created_unix":1490916611,"seeders":44,"leechers":1,"completed":1890,"scraped_date":1639768313},
  {"infohash":"6a9759bffd5c0af65319979fb7832189f4f3c35d","name":"Elephants Dream","size_bytes":425000000,"created_unix":1490916605,"seeders":12,"leechers":4,"completed":975,"scraped_date":1639768313},
  {"infohash":"3b245504cf5f11bbdbe1201cea6a6bf45aee1bc0","name":"ubuntu-20.04.3-desktop-amd64.iso","size_bytes":3071934464,"created_unix":1629994408,"seeders":811,"leechers":19,"completed":40112,"scraped_date":1639768314},
  {"infohash":"f09c8d0884590088f4004e010a928f8b6178c2fd","name":"debian-11.2.0-amd64-netinst.iso","size_bytes":396361728,"created_unix":1639833600,"seeders":301,"leechers":7,"completed":12003,"scraped_date":1639768314}
]"#;

fn value(text: &str) -> serde_json::Value {
    serde_json::from_str(text).unwrap()
}

#[test]
fn test_parse_torrent_csv() {
    let torrents = parse_torrent_csv(LISTING).unwrap();
    assert_eq!(torrents.len(), 8);
    for torrent in torrents.iter() {
        assert!(torrent.magnet_link.starts_with("magnet:?"));
        assert!(torrent.seeders.is_some());
        assert!(torrent.leechers.is_some());
    }
}

#[test]
fn test_parse_torrent_csv_empty() {
    let torrents = parse_torrent_csv("[]").unwrap();
    assert_eq!(torrents.len(), 0);
}

#[test]
fn listing_keeps_order_and_fields() {
    let torrents = parse_torrent_csv(LISTING).unwrap();
    assert_eq!(
        torrents[0],
        Torrent {
            name: "Big Buck Bunny".to_string(),
            magnet_link: "magnet:?xt=urn:btih:dd8255ecdc7ca55fb0bbf81323d87062db1f6d1c".to_string(),
            seeders: Some(115),
            leechers: Some(6),
        }
    );
    assert_eq!(torrents[3].name, "The WIRED CD");
    assert_eq!(torrents[3].leechers, Some(0));
    assert_eq!(torrents[7].name, "debian-11.2.0-amd64-netinst.iso");
    for torrent in torrents.iter() {
        assert!(torrent.magnet_link.starts_with("magnet:?xt=urn:btih:"));
    }
}

#[test]
fn every_usable_entry_gives_one_record() {
    let torrents =
        parse_torrent_csv(r#"[{"infohash":"a","name":"x"},{"infohash":"b","name":"y"},{"infohash":"c","name":"z"}]"#)
            .unwrap();
    assert_eq!(torrents.len(), 3);
    assert_eq!(torrents[0].magnet_link, "magnet:?xt=urn:btih:a");
    assert_eq!(torrents[1].magnet_link, "magnet:?xt=urn:btih:b");
    assert_eq!(torrents[2].magnet_link, "magnet:?xt=urn:btih:c");
}

#[test]
fn entry_without_infohash_is_dropped() {
    let torrents = parse_torrent_csv(
        r#"[{"infohash":"a","name":"first"},{"name":"no hash"},{"infohash":"c","name":"third"}]"#,
    )
    .unwrap();
    assert_eq!(torrents.len(), 2);
    assert_eq!(torrents[0].name, "first");
    assert_eq!(torrents[1].name, "third");
    assert_eq!(torrents[1].magnet_link, "magnet:?xt=urn:btih:c");
}

#[test]
fn entry_without_name_or_of_another_shape_is_dropped() {
    let torrents = parse_torrent_csv(
        r#"[{"infohash":"a"},17,"text",null,[1,2],{"infohash":5,"name":"n"},{"infohash":"z","name":"kept"}]"#,
    )
    .unwrap();
    assert_eq!(torrents.len(), 1);
    assert_eq!(torrents[0].name, "kept");
}

#[test]
fn absent_counts_are_unset_not_zero() {
    let torrents = parse_torrent_csv(r#"[{"infohash":"abc","name":"bare"}]"#).unwrap();
    assert_eq!(torrents.len(), 1);
    assert_eq!(torrents[0].seeders, None);
    assert_eq!(torrents[0].leechers, None);
    let torrents =
        parse_torrent_csv(r#"[{"infohash":"abc","name":"half","seeders":0,"leechers":null}]"#).unwrap();
    assert_eq!(torrents[0].seeders, Some(0));
    assert_eq!(torrents[0].leechers, None);
}

#[test]
fn entry_with_a_malformed_count_is_dropped() {
    let torrents = parse_torrent_csv(
        r#"[{"infohash":"a","name":"edge","seeders":4294967295,"leechers":0},
            {"infohash":"b","name":"too many","seeders":1,"leechers":4294967296},
            {"infohash":"c","name":"negative","seeders":-1},
            {"infohash":"d","name":"text","leechers":"seven"},
            {"infohash":"e","name":"fraction","seeders":1.5},
            {"infohash":"f","name":"bad size","size_bytes":true},
            {"infohash":"g","name":"bad date","scraped_date":2147483648},
            {"infohash":"h","name":"last","seeders":2,"leechers":3,"scraped_date":-2147483648}]"#,
    )
    .unwrap();
    assert_eq!(torrents.len(), 2);
    assert_eq!(torrents[0].name, "edge");
    assert_eq!(torrents[0].seeders, Some(4294967295));
    assert_eq!(torrents[0].leechers, Some(0));
    assert_eq!(torrents[1].name, "last");
    assert_eq!(torrents[1].magnet_link, "magnet:?xt=urn:btih:h");
    assert_eq!(torrents[1].seeders, Some(2));
    assert_eq!(torrents[1].leechers, Some(3));
}

#[test]
fn unknown_fields_are_ignored() {
    let torrents =
        parse_torrent_csv(r#"[{"infohash":"h","name":"n","rating":9,"tags":["a","b"]}]"#).unwrap();
    assert_eq!(torrents.len(), 1);
    assert_eq!(torrents[0].magnet_link, "magnet:?xt=urn:btih:h");
}

#[test]
fn text_that_is_no_json_is_a_parse_error() {
    assert_eq!(parse_torrent_csv("<html>"), Err(SearchError::Parse));
    assert_eq!(parse_torrent_csv(""), Err(SearchError::Parse));
    assert_eq!(parse_torrent_csv("[{"), Err(SearchError::Parse));
}

#[test]
fn json_that_is_no_list_is_a_parse_error() {
    assert_eq!(parse_torrent_csv(r#"{"infohash":"a","name":"b"}"#), Err(SearchError::Parse));
    assert_eq!(parse_torrent_csv("42"), Err(SearchError::Parse));
    assert_eq!(parse_torrent_csv("null"), Err(SearchError::Parse));
    assert_eq!(records_from_value(&value(r#""list""#)), Err(SearchError::Parse));
}

#[test]
fn list_without_any_usable_entry_is_a_decode_error() {
    assert_eq!(parse_torrent_csv(r#"[{"name":"a"},{"name":"b"}]"#), Err(SearchError::Decode));
    assert_eq!(parse_torrent_csv("[1]"), Err(SearchError::Decode));
    assert_eq!(records_from_items(&vec![value("{}")]), Err(SearchError::Decode));
    assert_eq!(records_from_items(&vec![]), Ok(vec![]));
}

#[test]
fn body_is_read_as_utf8() {
    let torrents = parse_body(r#"[{"infohash":"h","name":"café ☕"}]"#.as_bytes()).unwrap();
    assert_eq!(torrents[0].name, "café ☕");
    assert_eq!(parse_body(b"[]"), Ok(vec![]));
    assert_eq!(parse_body(&[0x5b, 0xff, 0x5d]), Err(SearchError::Parse));
    assert_eq!(parse_body(&[0xc3]), Err(SearchError::Parse));
}

#[test]
fn entry_decodes_every_field() {
    let v = value(
        r#"{"infohash":"abc","name":"n","size_bytes":10,"created_unix":20,"seeders":30,"leechers":40,"completed":50,"scraped_date":-60}"#,
    );
    let entry = Entry::decode(&v).unwrap();
    assert_eq!(
        entry,
        Entry {
            infohash: "abc".to_string(),
            name: "n".to_string(),
            size_bytes: Some(10),
            created_unix: Some(20),
            seeders: Some(30),
            leechers: Some(40),
            completed: Some(50),
            scraped_date: Some(-60),
        }
    );
    assert_eq!(Entry::decode(&value(r#"{"name":"n"}"#)), None);
    assert_eq!(Entry::decode(&value(r#"{"infohash":"i"}"#)), None);
    assert_eq!(Entry::decode(&value(r#"["infohash","name"]"#)), None);
    assert_eq!(Entry::decode(&value(r#"{"infohash":"i","name":"n","scraped_date":2147483648}"#)), None);
    assert_eq!(Entry::decode(&value(r#"{"infohash":"i","name":"n","size_bytes":-5}"#)), None);
    assert_eq!(Entry::decode(&value(r#"{"infohash":"i","name":"n","completed":"3"}"#)), None);
    assert_eq!(Entry::decode(&value(r#"{"infohash":"i","name":null}"#)), None);
    let unset = Entry::decode(&value(
        r#"{"infohash":"i","name":"n","size_bytes":null,"seeders":null,"scraped_date":null}"#,
    ))
    .unwrap();
    assert_eq!(unset.size_bytes, None);
    assert_eq!(unset.created_unix, None);
    assert_eq!(unset.seeders, None);
    assert_eq!(unset.scraped_date, None);
    let edge = Entry::decode(&value(r#"{"infohash":"i","name":"n","scraped_date":-2147483648}"#))
        .unwrap();
    assert_eq!(edge.scraped_date, Some(-2147483648));
}

#[test]
fn entry_becomes_a_record() {
    let entry = Entry {
        infohash: "0123abcd".to_string(),
        name: "Some Title".to_string(),
        size_bytes: Some(1),
        created_unix: None,
        seeders: Some(7),
        leechers: None,
        completed: None,
        scraped_date: None,
    };
    assert_eq!(
        entry.to_torrent(),
        Torrent {
            name: "Some Title".to_string(),
            magnet_link: "magnet:?xt=urn:btih:0123abcd".to_string(),
            seeders: Some(7),
            leechers: None,
        }
    );
}

#[test]
fn magnet_link_is_prefix_then_hash() {
    assert_eq!(magnet_link("ABCDEF"), "magnet:?xt=urn:btih:ABCDEF");
    assert_eq!(magnet_link(""), "magnet:?xt=urn:btih:");
}

#[test]
fn duplicate_keeps_the_fields() {
    let t = Torrent {
        name: "n".to_string(),
        magnet_link: "magnet:?xt=urn:btih:1".to_string(),
        seeders: None,
        leechers: Some(2),
    };
    assert_eq!(t.duplicate(), t);
}
