use tosho::models::Quality;
use tosho::utils::{match_name_ep_version, match_name_sxxexx, match_title};

#[test]
fn title_with_quality_and_extension() {
    let ep = match_title("[Judas] Dorohedoro - 06 [1080p][HEVC x265 10bit][Eng-Subs].mkv")
        .expect("a release title");
    assert_eq!(ep.group, "Judas");
    assert_eq!(ep.name, "Dorohedoro");
    assert_eq!(ep.episode, 6);
    assert_eq!(ep.version, 1);
    assert_eq!(ep.quality, Some(Quality::HD_1080p));
    assert_eq!(ep.extension.as_deref(), Some("mkv"));
}

#[test]
fn title_with_revision_behind_the_episode() {
    let ep = match_title("[Judas] Dorohedoro - 08 v2 [1080p][HEVC x265 10bit][Eng-Subs].mkv")
        .expect("a release title");
    assert_eq!(ep.episode, 8);
    assert_eq!(ep.version, 2);
    assert_eq!(ep.quality, Some(Quality::HD_1080p));
}

#[test]
fn title_with_revision_zero_in_a_tag() {
    let ep = match_title("[Erai-raws] Majo no Tabitabi - 02 [v0][720p].mkv")
        .expect("a release title");
    assert_eq!(ep.episode, 2);
    assert_eq!(ep.version, 0);
    assert_eq!(ep.quality, Some(Quality::Mid_720p));
    assert_eq!(ep.extension.as_deref(), Some("mkv"));
}

#[test]
fn title_with_source_tag() {
    let ep = match_title(
        "[Erai-raws] Dungeon ni Deai wo Motomeru no wa Machigatteiru Darou ka III - 05v2 [VRV][480p][Multiple Subtitle].mkv",
    )
    .expect("a release title");
    assert_eq!(ep.episode, 5);
    assert_eq!(ep.version, 2);
    assert_eq!(ep.quality, Some(Quality::Low_480p));
}

#[test]
fn title_with_season_and_episode() {
    let ep = match_title(
        "[EMBER] Isekai Ojisan S01E01 [1080p] [HEVC WEBRip DDP] (Uncle from Another World)",
    )
    .expect("a release title");
    assert_eq!(ep.name, "Isekai Ojisan");
    assert_eq!(ep.episode, 1);
    assert_eq!(ep.version, 1);
    assert_eq!(ep.quality, Some(Quality::HD_1080p));
    assert_eq!(ep.extension, None);
}

#[test]
fn title_with_tags_in_parentheses() {
    let ep = match_title("[PAS] Beastars S2 - 13 (WEB 1080 AAC) [8CF487D4].mkv")
        .expect("a release title");
    assert_eq!(ep.group, "PAS");
    assert_eq!(ep.name, "Beastars S2");
    assert_eq!(ep.episode, 13);
    assert_eq!(ep.quality, Some(Quality::HD_1080p));
    assert_eq!(ep.extension.as_deref(), Some("mkv"));
}

#[test]
fn title_without_group_tag() {
    assert!(match_title("Dorohedoro 08.mkv").is_none());
    assert!(match_title("").is_none());
    assert!(match_title("[").is_none());
    assert!(match_title("[Judas Dorohedoro - 08 (1080p)").is_none());
}

#[test]
fn title_with_empty_group_or_name() {
    assert!(match_title("[] Dorohedoro - 08 [1080p]").is_none());
    assert!(match_title("[Judas] - 08 [1080p]").is_none());
    assert!(match_title("[Judas] Dorohedoro - 08 [1080p]").is_some());
}

#[test]
fn title_without_tags() {
    let ep = match_title("[Judas] Dorohedoro - 08.mkv").expect("a release title");
    assert_eq!(ep.group, "Judas");
    assert_eq!(ep.name, "Dorohedoro");
    assert_eq!(ep.episode, 8);
    assert_eq!(ep.version, 1);
    assert_eq!(ep.quality, None);
    assert_eq!(ep.extension.as_deref(), Some("mkv"));

    let ep = match_title("[Judas] Dorohedoro - 08v3").expect("a release title");
    assert_eq!(ep.episode, 8);
    assert_eq!(ep.version, 3);
    assert_eq!(ep.extension, None);

    // without tags only the form with a separator is read
    assert!(match_title("[Judas] Dorohedoro S01E08.mkv").is_none());
    assert!(match_title("[Judas] Dorohedoro S01E08 [720p].mkv").is_some());
}

#[test]
fn title_with_unknown_quality() {
    let ep = match_title("[Judas] Dorohedoro - 08 [4K].mkv").expect("a release title");
    assert_eq!(ep.quality, None);
    assert_eq!(ep.extension.as_deref(), Some("mkv"));
}

#[test]
fn title_whose_first_tag_is_cut_short() {
    // neither a closing bracket nor a space behind the token
    assert!(match_title("[Judas] Dorohedoro - 08 [1080p").is_none());
    assert!(match_title("[Judas] Dorohedoro - 08 [").is_none());
    assert!(match_title("[Judas] Dorohedoro - 08 [VRV]").is_none());
}

#[test]
fn revision_tag_must_be_complete() {
    assert!(match_title("[G] Show - 02 [v2").is_none());
    assert!(match_title("[G] Show - 02 [vx][720p]").is_none());
    assert!(match_title("[G] Show - 02 [v2]").is_none());
    assert!(match_title("[G] Show - 02 [v2] [720p]").is_none());
    let ep = match_title("[G] Show - 02 [v2][720p]").expect("a release title");
    assert_eq!(ep.version, 2);
    assert_eq!(ep.quality, Some(Quality::Mid_720p));
    // a revision behind the episode wins over one in a tag
    let ep = match_title("[G] Show - 02v3 [v2][720p]").expect("a release title");
    assert_eq!(ep.version, 3);
    assert_eq!(ep.quality, None);
}

#[test]
fn source_tag_behind_a_revision_tag() {
    let ep = match_title("[G] Show - 02 [v2][VRV][720p].mkv").expect("a release title");
    assert_eq!(ep.version, 2);
    assert_eq!(ep.quality, Some(Quality::Mid_720p));
}

#[test]
fn source_tag_is_invisible() {
    let with = match_title("[G] Show - 05 [VRV][480p].mkv").expect("a release title");
    let without = match_title("[G] Show - 05 [480p].mkv").expect("a release title");
    assert_eq!(with.group, without.group);
    assert_eq!(with.name, without.name);
    assert_eq!(with.episode, without.episode);
    assert_eq!(with.version, without.version);
    assert_eq!(with.quality, without.quality);
    assert_eq!(with.extension, without.extension);
}

#[test]
fn titles_with_characters_of_several_bytes() {
    let ep = match_title("[字幕組] 進撃の巨人 - 05 [720p].mkv").expect("a release title");
    assert_eq!(ep.group, "字幕組");
    assert_eq!(ep.name, "進撃の巨人");
    assert_eq!(ep.episode, 5);
    assert_eq!(ep.quality, Some(Quality::Mid_720p));
    assert_eq!(ep.extension.as_deref(), Some("mkv"));
    assert!(match_title("[G] Show ééé [720p]").is_none());
    assert!(match_title("[G] Show - 05 [é").is_none());
}

#[test]
fn same_title_same_record() {
    let title = "[Judas] Dorohedoro - 08 v2 [1080p][HEVC x265 10bit][Eng-Subs].mkv";
    let a = match_title(title).expect("a release title");
    let b = match_title(&title.to_string()).expect("a release title");
    assert_eq!(format!("{:?}", a), format!("{:?}", b));
}

#[test]
fn default_version_is_one() {
    for title in [
        "[G] Show - 01 [720p].mkv",
        "[G] Show S01E01 [720p].mkv",
        "[G] Avventura - 12 END [1080p]",
        "[G] Show - 01.mkv",
    ] {
        assert_eq!(match_title(title).expect("a release title").version, 1);
    }
}

#[test]
fn fragment_with_separator() {
    assert_eq!(
        match_name_ep_version("Great Pretender - 14v2"),
        Some(("Great Pretender".to_string(), 14, 2))
    );
    assert_eq!(
        match_name_ep_version(" Shironeko Project - Zero Chronicle - 12 END "),
        Some(("Shironeko Project - Zero Chronicle".to_string(), 12, 1))
    );
    assert_eq!(match_name_ep_version("Show - 12v2 END"), Some(("Show".to_string(), 12, 2)));
    assert_eq!(match_name_ep_version("Show - -3"), Some(("Show".to_string(), -3, 1)));
    assert_eq!(match_name_ep_version("Show - +3 v 4"), Some(("Show".to_string(), 3, 4)));
    assert_eq!(match_name_ep_version("Show - 2147483647"), Some(("Show".to_string(), i32::MAX, 1)));
    assert_eq!(match_name_ep_version("Show - -2147483648"), Some(("Show".to_string(), i32::MIN, 1)));
    assert_eq!(match_name_ep_version("Show - 2147483648"), None);
    assert_eq!(match_name_ep_version("Show - 0000000000000000000012"), Some(("Show".to_string(), 12, 1)));
    assert_eq!(match_name_ep_version("Show 12"), None);
    assert_eq!(match_name_ep_version("Show - twelve"), None);
    assert_eq!(match_name_ep_version("Show - 12v"), None);
    assert_eq!(match_name_ep_version("Show - 12vv2"), None);
    assert_eq!(match_name_ep_version("Show - "), None);
    assert_eq!(match_name_ep_version(" - 12"), None);
    assert_eq!(match_name_ep_version(""), None);
}

#[test]
fn fragment_with_season_and_episode() {
    assert_eq!(match_name_sxxexx(" Isekai Ojisan S01E01 "), Some(("Isekai Ojisan".to_string(), 1, 1)));
    assert_eq!(match_name_sxxexx("Show S12E34"), Some(("Show".to_string(), 34, 1)));
    assert_eq!(match_name_sxxexx("Show s01e01"), None);
    assert_eq!(match_name_sxxexx("Show S1E01"), None);
    assert_eq!(match_name_sxxexx("Show S01E001"), None);
    assert_eq!(match_name_sxxexx("S01E01"), None);
    assert_eq!(match_name_sxxexx("Show S0xE01"), None);
    assert_eq!(match_name_sxxexx(""), None);
}
