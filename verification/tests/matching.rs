use tosho::models::Quality;
use tosho::utils::{match_name_ep_version, match_title};

#[test]
fn test_matching() {
    let ep = match_title("[Judas] Dorohedoro - 06 [1080p][HEVC x265 10bit][Eng-Subs].mkv")
        .expect("failed to match 1st example");

    assert_eq!(ep.name, "Dorohedoro");
    assert_eq!(ep.group, "Judas");
    assert_eq!(ep.episode, 6);
    assert_eq!(ep.quality, Some(Quality::HD_1080p));
    assert_eq!(ep.version, 1);

    let ep = match_title("[Judas] Dorohedoro - 08 v2 [1080p][HEVC x265 10bit][Eng-Subs].mkv")
        .expect("failed to match 2nd example");

    assert_eq!(ep.name, "Dorohedoro");
    assert_eq!(ep.group, "Judas");
    assert_eq!(ep.episode, 8);
    assert_eq!(ep.quality, Some(Quality::HD_1080p));
    assert_eq!(ep.version, 2);

    let ep = match_title("[Judas] Dorohedoro - 09 [1080p][HEVC x265 10bit][Eng-Subs]")
        .expect("failed to match 3rd example");

    assert_eq!(ep.name, "Dorohedoro");
    assert_eq!(ep.group, "Judas");
    assert_eq!(ep.episode, 9);
    assert_eq!(ep.quality, Some(Quality::HD_1080p));
    assert_eq!(ep.version, 1);

    let ep = match_title("[Die Hot 14 - My Hot Will Go On (Director's Cut)] Great Pretender - 14v2 [57023320].mkv")
        .expect("Failed to match 4th example");

    assert_eq!(ep.name, "Great Pretender");
    assert_eq!(ep.group, "Die Hot 14 - My Hot Will Go On (Director's Cut)");
    assert_eq!(ep.episode, 14);
    assert_eq!(ep.quality, None);
    assert_eq!(ep.version, 2);

    let ep = match_title("[Erai-raws] Shironeko Project - Zero Chronicle - 12 END [720p].mkv")
        .expect("Failed to match 5th example");

    assert_eq!(ep.name, "Shironeko Project - Zero Chronicle");
    assert_eq!(ep.group, "Erai-raws");
    assert_eq!(ep.episode, 12);
    assert_eq!(ep.quality, Some(Quality::Mid_720p));
    assert_eq!(ep.version, 1);

    let ep = match_title("[Erai-raws] Majo no Tabitabi - 02 [v0][720p].mkv")
        .expect("Failed to match 6th example");

    assert_eq!(ep.name, "Majo no Tabitabi");
    assert_eq!(ep.group, "Erai-raws");
    assert_eq!(ep.episode, 2);
    assert_eq!(ep.quality, Some(Quality::Mid_720p));
    assert_eq!(ep.version, 0);

    let ep = match_title("[Erai-raws] Dungeon ni Deai wo Motomeru no wa Machigatteiru Darou ka III - 05v2 [VRV][480p][Multiple Subtitle].mkv")
        .expect("Failed to match 7th example");

    assert_eq!(
        ep.name,
        "Dungeon ni Deai wo Motomeru no wa Machigatteiru Darou ka III"
    );
    assert_eq!(ep.group, "Erai-raws");
    assert_eq!(ep.episode, 5);
    assert_eq!(ep.quality, Some(Quality::Low_480p));
    assert_eq!(ep.version, 2);

    let ep = match_title(
        "[EMBER] Isekai Ojisan S01E01 [1080p] [HEVC WEBRip DDP] (Uncle from Another World)",
    )
    .expect("Failed to match 8th example");

    assert_eq!(ep.name, "Isekai Ojisan");
    assert_eq!(ep.group, "EMBER");
    assert_eq!(ep.episode, 1);
    assert_eq!(ep.quality, Some(Quality::HD_1080p));
    assert_eq!(ep.version, 1);

    let ep = match_title("[SubsPlease] Jujutsu Kaisen - 08 (720p) [E2508E65].mkv")
        .expect("Failed to match 9th example");

    assert_eq!(ep.name, "Jujutsu Kaisen");
    assert_eq!(ep.group, "SubsPlease");
    assert_eq!(ep.episode, 8);
    assert_eq!(ep.quality, Some(Quality::Mid_720p));
    assert_eq!(ep.version, 1);

    let ep = match_title("[PAS] Beastars S2 - 13 (WEB 1080 AAC) [8CF487D4].mkv")
        .expect("Failed to match 10th example");

    assert_eq!(ep.name, "Beastars S2");
    assert_eq!(ep.group, "PAS");
    assert_eq!(ep.episode, 13);
    assert_eq!(ep.quality, Some(Quality::HD_1080p));
    assert_eq!(ep.version, 1);

    // The group sets its tags in parentheses, so "(2020)" is taken for the
    // first tag, and what stands before it holds no episode.
    assert!(match_title(
        "[SubsPlease] Dragon Quest - Dai no Daibouken (2020) - 08 (720p) [2CB58E42].mkv",
    )
    .is_none());

    let (name, episode, version) =
        match_name_ep_version(" Dragon Quest - Dai no Daibouken (2020) - 08 ")
            .expect("a fragment with name and episode");

    assert_eq!(name, "Dragon Quest - Dai no Daibouken (2020)");
    assert_eq!(episode, 8);
    assert_eq!(version, 1);
}
