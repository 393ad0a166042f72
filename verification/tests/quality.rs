use tosho::models::Quality;

#[test]
fn quality_names() {
    for name in ["480p", "480", "LOW", "low", "Low", "LQ", "Lq", "lq"] {
        assert_eq!(Quality::from_str(name).ok(), Some(Quality::Low_480p));
    }
    for name in ["720p", "720", "MID", "mid", "Mid"] {
        assert_eq!(Quality::from_str(name).ok(), Some(Quality::Mid_720p));
    }
    for name in ["1080p", "1080", "HD", "hd", "Hd"] {
        assert_eq!(Quality::from_str(name).ok(), Some(Quality::HD_1080p));
    }
}

#[test]
fn quality_names_keep_their_case() {
    for name in ["", "480P", "lOw", "lQ", "mID", "hD", "720 ", " 720", "1080i", "4K", "HDR"] {
        assert!(Quality::from_str(name).is_err());
    }
}

#[test]
fn quality_round_trip() {
    for quality in [Quality::Low_480p, Quality::Mid_720p, Quality::HD_1080p] {
        assert_eq!(Quality::from_str(&quality.to_string()).ok(), Some(quality));
    }
    assert_eq!(Quality::Low_480p.to_string(), "480p");
    assert_eq!(Quality::Mid_720p.to_string(), "720p");
    assert_eq!(Quality::HD_1080p.to_string(), "1080p");
}
