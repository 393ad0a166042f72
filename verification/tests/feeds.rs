use tosho::database::{get_show_id, statements, ShowRow};
use tosho::dognzb;
use tosho::groups::group_matches;
use tosho::models::Quality;
use tosho::options::{AddOpts, RecheckOpts};
use tosho::rss::{element_content, field_of, parse_date, Enclosure, Error, Field, Item, PubDate};
use tosho::sabnzbd::{handle_response, Error as SabnzbdError, JsonResponse, SabnzbdClient};
use tosho::tosho::{feed, search};

#[test]
fn feed_addresses() {
    assert_eq!(feed(&1), "https://feed.animetosho.org/rss2?page=1");
    assert_eq!(feed(&0), "https://feed.animetosho.org/rss2?page=0");
    assert_eq!(feed(&42), "https://feed.animetosho.org/rss2?page=42");
    assert_eq!(feed(&255), "https://feed.animetosho.org/rss2?page=255");
    assert_eq!(feed(&100), "https://feed.animetosho.org/rss2?page=100");
}

#[test]
fn search_addresses() {
    assert_eq!(
        search("Judas Dorohedoro 08", Some(3)),
        "https://feed.animetosho.org/rss2?q=Judas+Dorohedoro+08&page=3"
    );
    assert_eq!(search("a  b ", None), "https://feed.animetosho.org/rss2?q=a++b+&page=1");
    assert_eq!(search("", Some(10)), "https://feed.animetosho.org/rss2?q=&page=10");
    assert_eq!(search("字 幕", None), "https://feed.animetosho.org/rss2?q=字+幕&page=1");
}

#[test]
fn groups() {
    assert!(group_matches("Judas", "Judas"));
    assert!(!group_matches("Judas", "judas"));
    assert!(!group_matches("Judas", "Judas2"));
    assert!(!group_matches("", "Judas"));
    assert!(group_matches("", ""));
    // a pattern is held against the whole name
    assert!(group_matches("Erai*", "Erai-raws"));
    assert!(group_matches("*raws", "Erai-raws"));
    assert!(group_matches("*", "Erai-raws"));
    assert!(!group_matches("Erai*", "Judas"));
    assert!(!group_matches("*Erai", "Erai-raws"));
    // only `*` makes a name a pattern
    assert!(!group_matches("Jud?s", "Judas"));
    assert!(group_matches("Jud?s*", "Judas"));
}

#[test]
fn show_of_a_release() {
    let rows = vec![
        ShowRow { show_id: 1, group: "Judas".to_string(), quality: Some(Quality::Mid_720p) },
        ShowRow { show_id: 2, group: "Erai*".to_string(), quality: Some(Quality::HD_1080p) },
        ShowRow { show_id: 3, group: "Judas".to_string(), quality: Some(Quality::HD_1080p) },
        ShowRow { show_id: 4, group: "*".to_string(), quality: None },
        ShowRow { show_id: 5, group: "Judas".to_string(), quality: Some(Quality::HD_1080p) },
    ];
    assert_eq!(get_show_id(&rows, "Judas", &Some(Quality::HD_1080p)), Some(3));
    assert_eq!(get_show_id(&rows, "Judas", &Some(Quality::Mid_720p)), Some(1));
    assert_eq!(get_show_id(&rows, "Erai-raws", &Some(Quality::HD_1080p)), Some(2));
    assert_eq!(get_show_id(&rows, "Erai-raws", &Some(Quality::Mid_720p)), None);
    assert_eq!(get_show_id(&rows, "anyone", &None), Some(4));
    assert_eq!(get_show_id(&rows, "Judas", &Some(Quality::Low_480p)), None);
    assert_eq!(get_show_id(&Vec::new(), "Judas", &None), None);
}

#[test]
fn statements_of_a_script() {
    assert_eq!(
        statements(" CREATE TABLE a (x);\n\nCREATE TABLE b (y) ;; \n"),
        vec!["CREATE TABLE a (x)".to_string(), "CREATE TABLE b (y)".to_string()]
    );
    assert_eq!(statements("one"), vec!["one".to_string()]);
    assert_eq!(statements(""), Vec::<String>::new());
    assert_eq!(statements(" ; ;"), Vec::<String>::new());
    assert_eq!(statements(";a;"), vec!["a".to_string()]);
}

#[test]
fn queue_answers() {
    let ok = JsonResponse { status: true, error: Some("ignored".to_string()), nzo_ids: None };
    assert!(handle_response(ok).is_ok());
    let refused = JsonResponse { status: false, error: Some("no key".to_string()), nzo_ids: None };
    match handle_response(refused) {
        Err(SabnzbdError::StatusFalse(reason)) => assert_eq!(reason, "no key"),
        other => panic!("{:?}", other),
    }
    let silent = JsonResponse { status: false, error: None, nzo_ids: Some(Vec::new()) };
    match handle_response(silent) {
        Err(SabnzbdError::StatusFalse(reason)) => assert_eq!(reason, "Unknown error"),
        other => panic!("{:?}", other),
    }
}

#[test]
fn queue_requests() {
    let client = SabnzbdClient::new("http://localhost:8080/sabnzbd/", "k&y");
    assert_eq!(client.host(), "http://localhost:8080/sabnzbd/");
    assert_eq!(client.apikey(), "k&y");
    assert_eq!(
        client.addurl("http://x.org/a b.nzb", "anime").ok(),
        Some(
            "http://localhost:8080/sabnzbd/api?apikey=k%26y&output=json&mode=addurl&name=http%3A%2F%2Fx.org%2Fa+b.nzb&cat=anime"
                .to_string()
        )
    );
    // without the slash at its end the last part of the host's path gives way
    assert_eq!(
        SabnzbdClient::new("http://localhost:8080/sabnzbd", "k").addurl("u", "").ok(),
        Some("http://localhost:8080/api?apikey=k&output=json&mode=addurl&name=u&cat=".to_string())
    );
    assert!(matches!(
        SabnzbdClient::new("localhost", "k").addurl("u", ""),
        Err(SabnzbdError::UrlParseError(_))
    ));
    assert!(matches!(
        SabnzbdClient::new("mailto:someone", "k").addurl("u", ""),
        Err(SabnzbdError::UrlParseError(_))
    ));
}

#[test]
fn queue_request_too_long() {
    let client = SabnzbdClient::new("http://localhost:8080/", "k");
    // twelve bytes for each character of the link pass what an address holds
    let link = "a".repeat(357_913_942);
    assert!(matches!(client.addurl(&link, "anime"), Err(SabnzbdError::UrlTooLong)));
    assert!(matches!(client.addurl("u", &link), Err(SabnzbdError::UrlTooLong)));
    assert!(matches!(
        SabnzbdClient::new("http://localhost:8080/", &link).addurl("u", ""),
        Err(SabnzbdError::UrlTooLong)
    ));
    let short = "a".repeat(1000);
    let address = client.addurl(&short, "anime").expect("an address");
    assert!(address.ends_with(&format!("&name={}&cat=anime", short)));
}

#[test]
fn dates() {
    let date = parse_date("Sun, 01 Mar 2020 17:46:01 +0000").expect("a date");
    assert_eq!(date, PubDate { seconds: 1583084761, nanos: 0 });
    let east = parse_date("Sun, 01 Mar 2020 19:46:01 +0200").expect("a date");
    assert_eq!(east, date);
    assert!(matches!(parse_date("yesterday"), Err(Error::ChronoParseError(_))));
    assert!(matches!(parse_date(""), Err(Error::ChronoParseError(_))));
    let later = PubDate { seconds: 1583084761, nanos: 1 };
    assert!(date.is_before(&later));
    assert!(!later.is_before(&date));
    assert!(!date.is_before(&date));
    assert!(PubDate { seconds: -1, nanos: 999 }.is_before(&PubDate { seconds: 0, nanos: 0 }));
    assert!(!PubDate { seconds: 1, nanos: 0 }.is_before(&PubDate { seconds: 0, nanos: 999 }));
}

#[test]
fn entry_fields() {
    assert_eq!(field_of("enclosure"), Field::Enclosure);
    assert_eq!(field_of("title"), Field::Title);
    assert_eq!(field_of("link"), Field::Link);
    assert_eq!(field_of("pubDate"), Field::PubDate);
    assert_eq!(field_of("guid"), Field::Guid);
    assert_eq!(field_of("pubdate"), Field::Other);
    assert_eq!(field_of("description"), Field::Other);
    assert_eq!(field_of(""), Field::Other);

    let mut item = Item::default();
    assert_eq!(item.title, "");
    assert_eq!(item.pub_date, PubDate { seconds: 946684800, nanos: 0 });
    assert!(item.set_field(Field::Title, "[Judas] Dorohedoro - 09 [1080p]").is_ok());
    assert!(item.set_field(Field::Link, "https://animetosho.org/view/x").is_ok());
    assert!(item.set_field(Field::PubDate, "Sun, 08 Mar 2020 08:56:16 +0000").is_ok());
    assert!(item.set_field(Field::Guid, "https://animetosho.org/view/a344016").is_ok());
    assert!(item.set_field(Field::Other, "ignored").is_ok());
    assert!(item.set_field(Field::Enclosure, "ignored").is_ok());
    assert_eq!(item.title, "[Judas] Dorohedoro - 09 [1080p]");
    assert_eq!(item.link, "https://animetosho.org/view/x");
    assert_eq!(item.pub_date, PubDate { seconds: 1583657776, nanos: 0 });
    assert_eq!(item.guid, "a344016");
    assert!(item.set_field(Field::Guid, "https://mirror.animetosho.org/view/b1").is_ok());
    assert_eq!(item.guid, "b1");
    assert!(item.set_field(Field::Guid, "http://elsewhere.org/view/c2").is_ok());
    assert_eq!(item.guid, "b1");
    assert!(matches!(item.set_field(Field::PubDate, "never"), Err(Error::ChronoParseError(_))));
    assert_eq!(item.pub_date, PubDate { seconds: 1583657776, nanos: 0 });
}

#[test]
fn enclosures() {
    let mut nzb = Enclosure::default();
    nzb.set_attribute("url", "http://animetosho.org/storage/nzbs/a.nzb".to_string());
    nzb.set_attribute("type", "application/x-nzb".to_string());
    nzb.set_attribute("length", "0".to_string());
    nzb.set_attribute("other", "x".to_string());
    assert_eq!(nzb.url, "http://animetosho.org/storage/nzbs/a.nzb");
    assert_eq!(nzb.mime_type, "application/x-nzb");
    assert_eq!(nzb.length, "0");
    let torrent = Enclosure {
        url: "http://animetosho.org/storage/torrent/a.torrent".to_string(),
        length: "0".to_string(),
        mime_type: "application/x-bittorrent".to_string(),
    };
    assert!(Enclosure::reads("url"));
    assert!(Enclosure::reads("length"));
    assert!(Enclosure::reads("type"));
    assert!(!Enclosure::reads("other"));
    assert!(!Enclosure::reads("URL"));
    assert!(!Enclosure::reads(""));
    let other = Enclosure { url: "x".to_string(), length: String::new(), mime_type: "text/plain".to_string() };
    let mut item = Item::default();
    item.set_enclosure(torrent);
    item.set_enclosure(nzb);
    item.set_enclosure(other);
    assert_eq!(item.nzb_link, "http://animetosho.org/storage/nzbs/a.nzb");
    assert_eq!(item.torrent_link, "http://animetosho.org/storage/torrent/a.torrent");
}

#[test]
fn content_of_an_element() {
    assert_eq!(element_content(vec!["a".to_string(), "b".to_string()]).ok(), Some("b".to_string()));
    assert!(matches!(element_content(Vec::new()), Err(Error::MissingExpectedValue)));
}

#[test]
fn bookmarks() {
    assert_eq!(dognzb::get_bookmarks("abc"), "https://dognzb.cr/rss.cfm?r=abc&t=9000");
    assert_eq!(dognzb::field_of("description"), dognzb::Field::Description);
    assert_eq!(dognzb::field_of("enclosure"), dognzb::Field::Other);
    let mut item = dognzb::Item::default();
    assert!(item.set_field(dognzb::Field::Title, "t").is_ok());
    assert!(item.set_field(dognzb::Field::Link, "l").is_ok());
    assert!(item.set_field(dognzb::Field::Description, "d").is_ok());
    assert!(item.set_field(dognzb::Field::Guid, "https://animetosho.org/view/g").is_ok());
    assert!(item.set_field(dognzb::Field::PubDate, "Sun, 01 Mar 2020 17:46:01 +0000").is_ok());
    assert!(item.set_field(dognzb::Field::PubDate, "x").is_err());
    assert_eq!(item.title, "t");
    assert_eq!(item.link, "l");
    assert_eq!(item.description, "d");
    assert_eq!(item.guid, "https://animetosho.org/view/g");
    assert_eq!(item.category, "");
    assert_eq!(item.pub_date, PubDate { seconds: 1583084761, nanos: 0 });
}

#[test]
fn command_line() {
    let mut opts = AddOpts {
        help: false,
        group: "[Judas]".to_string(),
        show: "Dorohedoro".to_string(),
        quality: None,
        start: None,
    };
    assert_eq!(opts.group_name(), "Judas");
    assert_eq!(opts.start_episode(), 1);
    opts.group = "Judas".to_string();
    opts.start = Some(7);
    assert_eq!(opts.group_name(), "Judas");
    assert_eq!(opts.start_episode(), 7);
    opts.group = "[]".to_string();
    assert_eq!(opts.group_name(), "");
    opts.group = "[字".to_string();
    assert_eq!(opts.group_name(), "");
    opts.group = String::new();
    assert_eq!(opts.group_name(), "");
    assert_eq!(RecheckOpts { page: None }.page_number(), 1);
    assert_eq!(RecheckOpts { page: Some(9) }.page_number(), 9);
}
