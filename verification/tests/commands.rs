use tosho::commands::{
    fresh_releases, missing_terms, next_feed_page, next_search_page, releases_of_episode,
    releases_of_show, releases_on_page, FIRST_PAGE, LAST_SEARCH_PAGE,
};
use tosho::models::Quality;
use tosho::rss::{Item, PubDate};

fn item(title: &str, nzb_link: &str, seconds: i64) -> Item {
    let mut item = Item::default();
    item.title = title.to_string();
    item.nzb_link = nzb_link.to_string();
    item.pub_date = PubDate { seconds, nanos: 0 };
    item
}

fn page() -> Vec<Item> {
    vec![
        item("[Judas] Dorohedoro - 09 [1080p][HEVC].mkv", "nzb9", 900),
        item("[Judas] Dorohedoro - 08 v2 [1080p][HEVC].mkv", "nzb8", 800),
        item("not a release", "other", 700),
        item("[Judas] Dorohedoro - 08 [720p].mkv", "low8", 600),
        item("[Erai-raws] Dorohedoro - 07 [1080p].mkv", "", 500),
        item("[Judas] Vinland Saga - 07 [1080p].mkv", "v7", 400),
        item("[Judas] Dorohedoro - 06 [1080p].mkv", "nzb6", 300),
    ]
}

#[test]
fn releases_of_a_show() {
    let hd = Some(Quality::HD_1080p);
    let (entries, done) = releases_of_show(&page(), "Judas", "Dorohedoro", 8, &hd);
    assert_eq!(
        entries,
        vec![
            (9, 1, "nzb9".to_string(), false),
            (8, 2, "nzb8".to_string(), false),
            (6, 1, "nzb6".to_string(), true),
        ]
    );
    assert!(done);
    let (entries, done) = releases_of_show(&page(), "Judas", "Dorohedoro", 7, &hd);
    assert_eq!(entries.len(), 3);
    assert!(entries[2].3);
    assert!(!done);
    let (entries, done) = releases_of_show(&page(), "*", "Dorohedoro", 7, &hd);
    assert_eq!(entries.len(), 4);
    assert_eq!(entries[2], (7, 1, String::new(), false));
    assert!(done);
    let (entries, done) = releases_of_show(&page(), "Judas", "Dorohedoro", 1, &None);
    assert!(entries.is_empty());
    assert!(!done);
    let (entries, done) = releases_of_show(&Vec::new(), "Judas", "Dorohedoro", 1, &hd);
    assert!(entries.is_empty());
    assert!(!done);
}

#[test]
fn releases_of_a_page() {
    let found = releases_on_page(&page());
    assert_eq!(found.len(), 6);
    assert_eq!(found[0].episode.episode, 9);
    assert_eq!(found[0].nzb_link, "nzb9");
    assert_eq!(found[1].episode.version, 2);
    assert_eq!(found[2].episode.quality, Some(Quality::Mid_720p));
    assert_eq!(found[3].episode.group, "Erai-raws");
    assert_eq!(found[3].nzb_link, "");
    assert_eq!(found[4].episode.name, "Vinland Saga");
    assert_eq!(found[5].nzb_link, "nzb6");
    assert!(releases_on_page(&Vec::new()).is_empty());
}

#[test]
fn new_releases_of_a_page() {
    let last = PubDate { seconds: 550, nanos: 0 };
    let newest = PubDate { seconds: 550, nanos: 0 };
    let fresh = fresh_releases(&page(), &last, &newest);
    assert!(fresh.stop);
    assert_eq!(fresh.newest, PubDate { seconds: 900, nanos: 0 });
    assert_eq!(fresh.found.len(), 3);
    assert_eq!(fresh.found[2].nzb_link, "low8");

    // an entry as old as the last check is still read
    let last = PubDate { seconds: 300, nanos: 0 };
    let newest = PubDate { seconds: 1000, nanos: 0 };
    let fresh = fresh_releases(&page(), &last, &newest);
    assert!(!fresh.stop);
    assert_eq!(fresh.newest, PubDate { seconds: 1000, nanos: 0 });
    assert_eq!(fresh.found.len(), 6);

    let last = PubDate { seconds: 901, nanos: 0 };
    let fresh = fresh_releases(&page(), &last, &last);
    assert!(fresh.stop);
    assert_eq!(fresh.newest, last);
    assert!(fresh.found.is_empty());

    let fresh = fresh_releases(&Vec::new(), &last, &last);
    assert!(!fresh.stop);
    assert!(fresh.found.is_empty());
}

#[test]
fn terms_for_a_missing_episode() {
    assert_eq!(
        missing_terms("Judas", "Dorohedoro", 8, &Some(Quality::HD_1080p)),
        "Judas Dorohedoro 08 1080p"
    );
    assert_eq!(missing_terms("Judas", "Dorohedoro", 12, &None), "Judas Dorohedoro 12 ");
    assert_eq!(missing_terms("G", "S", 0, &Some(Quality::Low_480p)), "G S 00 480p");
    assert_eq!(missing_terms("G", "S", 123, &Some(Quality::Mid_720p)), "G S 123 720p");
    assert_eq!(missing_terms("G", "S", -5, &None), "G S -5 ");
    assert_eq!(missing_terms("G", "S", i32::MAX, &None), "G S 2147483647 ");
    assert_eq!(missing_terms("G", "S", i32::MIN, &None), "G S -2147483648 ");
    for n in [-10, -1, 0, 5, 9, 10, 99, 100, 4711] {
        assert_eq!(missing_terms("", "", n, &None), format!("  {:02} ", n));
    }
}

#[test]
fn releases_of_a_missing_episode() {
    let hd = Some(Quality::HD_1080p);
    assert_eq!(
        releases_of_episode(&page(), "Judas", "Dorohedoro", 8, &hd),
        vec![(8, 2, "nzb8".to_string())]
    );
    // an entry without a link is passed over
    assert!(releases_of_episode(&page(), "Erai*", "Dorohedoro", 7, &hd).is_empty());
    assert!(releases_of_episode(&page(), "Judas", "Dorohedoro", 7, &hd).is_empty());
    assert_eq!(
        releases_of_episode(&page(), "Judas", "Dorohedoro", 8, &Some(Quality::Mid_720p)),
        vec![(8, 1, "low8".to_string())]
    );
}

#[test]
fn pages_of_a_search() {
    assert_eq!(FIRST_PAGE, 1);
    assert_eq!(LAST_SEARCH_PAGE, 9);
    assert_eq!(next_search_page(1, false), Some(2));
    assert_eq!(next_search_page(8, false), Some(9));
    assert_eq!(next_search_page(9, false), None);
    assert_eq!(next_search_page(1, true), None);
    assert_eq!(next_search_page(255, false), None);
    // nine pages at most
    let mut page = FIRST_PAGE;
    let mut read = 1;
    while let Some(next) = next_search_page(page, false) {
        page = next;
        read += 1;
    }
    assert_eq!(read, 9);
}

#[test]
fn pages_of_the_feed() {
    assert_eq!(next_feed_page(1, 75, false), Some(2));
    assert_eq!(next_feed_page(254, 1, false), Some(255));
    assert_eq!(next_feed_page(1, 0, false), None);
    assert_eq!(next_feed_page(1, 75, true), None);
    assert_eq!(next_feed_page(255, 0, false), None);
    assert_eq!(next_feed_page(255, 75, true), None);
}
