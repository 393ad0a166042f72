//! The records that a release title is read into.

use crate::text::{chars_of, range_is};
use vstd::prelude::*;

verus! {

/// The three quality tiers of a release.
#[allow(non_camel_case_types)]
#[derive(Debug, Clone, Copy, PartialEq, Eq, Structural)]
pub enum Quality {
    Low_480p,
    Mid_720p,
    HD_1080p,
}

/// The error for a token that names no quality tier.
#[derive(Debug)]
pub struct BadQuality;

/// One release, as its title announces it.
#[derive(Debug)]
pub struct Episode {
    pub group: String,
    pub name: String,
    pub quality: Option<Quality>,
    pub episode: i32,
    pub version: i32,
    pub extension: Option<String>,
}

/// What an `Episode` holds, as mathematical values.
pub struct EpisodeView {
    pub group: Seq<char>,
    pub name: Seq<char>,
    pub quality: Option<Quality>,
    pub episode: int,
    pub version: int,
    pub extension: Option<Seq<char>>,
}

impl View for Episode {
    type V = EpisodeView;

    open spec fn view(&self) -> EpisodeView {
        EpisodeView {
            group: self.group@,
            name: self.name@,
            quality: self.quality,
            episode: self.episode as int,
            version: self.version as int,
            extension: match self.extension {
                Some(e) => Some(e@),
                None => None,
            },
        }
    }
}

/// Whether `token` is one of the names of the low tier.
pub open spec fn names_low(token: Seq<char>) -> bool {
    ||| token == "480p"@
    ||| token == "480"@
    ||| token == "LOW"@
    ||| token == "low"@
    ||| token == "Low"@
    ||| token == "LQ"@
    ||| token == "Lq"@
    ||| token == "lq"@
}

/// Whether `token` is one of the names of the middle tier.
pub open spec fn names_mid(token: Seq<char>) -> bool {
    ||| token == "720p"@
    ||| token == "720"@
    ||| token == "MID"@
    ||| token == "mid"@
    ||| token == "Mid"@
}

/// Whether `token` is one of the names of the high tier.
pub open spec fn names_high(token: Seq<char>) -> bool {
    ||| token == "1080p"@
    ||| token == "1080"@
    ||| token == "HD"@
    ||| token == "hd"@
    ||| token == "Hd"@
}

/// The tier that `token` names, letter case included; `None` for any other
/// token.
pub open spec fn quality_of(token: Seq<char>) -> Option<Quality> {
    if names_low(token) {
        Some(Quality::Low_480p)
    } else if names_mid(token) {
        Some(Quality::Mid_720p)
    } else if names_high(token) {
        Some(Quality::HD_1080p)
    } else {
        None
    }
}

/// The string that a tier is written as.
pub open spec fn display_of(q: Quality) -> Seq<char> {
    match q {
        Quality::Low_480p => "480p"@,
        Quality::Mid_720p => "720p"@,
        Quality::HD_1080p => "1080p"@,
    }
}

/// No token names two tiers.
pub proof fn lemma_tiers_disjoint(token: Seq<char>)
    ensures
        !(names_low(token) && names_mid(token)),
        !(names_low(token) && names_high(token)),
        !(names_mid(token) && names_high(token)),
{
    reveal_strlit("480p");
    reveal_strlit("480");
    reveal_strlit("LOW");
    reveal_strlit("low");
    reveal_strlit("Low");
    reveal_strlit("LQ");
    reveal_strlit("Lq");
    reveal_strlit("lq");
    reveal_strlit("720p");
    reveal_strlit("720");
    reveal_strlit("MID");
    reveal_strlit("mid");
    reveal_strlit("Mid");
    reveal_strlit("1080p");
    reveal_strlit("1080");
    reveal_strlit("HD");
    reveal_strlit("hd");
    reveal_strlit("Hd");
    if token.len() > 0 {
        // the names of one tier start with other characters than those of
        // the two others
        let first = token[0];
        assert(names_low(token) ==> first == '4' || first == 'L' || first == 'l');
        assert(names_mid(token) ==> first == '7' || first == 'M' || first == 'm');
        assert(names_high(token) ==> first == '1' || first == 'H' || first == 'h');
    }
}

/// Writing a tier and reading the string back gives the same tier.
pub proof fn lemma_display_round_trip(q: Quality)
    ensures
        quality_of(display_of(q)) == Some(q),
{
    lemma_tiers_disjoint(display_of(q));
}

/// The tier that the characters of `s` from `from` up to, not including,
/// `to` name.
pub fn quality_in(s: &[char], from: usize, to: usize) -> (r: Option<Quality>)
    requires
        from <= to <= s@.len(),
    ensures
        r == quality_of(s@.subrange(from as int, to as int)),
{
    if range_is(s, from, to, "480p") || range_is(s, from, to, "480") || range_is(
        s,
        from,
        to,
        "LOW",
    ) || range_is(s, from, to, "low") || range_is(s, from, to, "Low") || range_is(
        s,
        from,
        to,
        "LQ",
    ) || range_is(s, from, to, "Lq") || range_is(s, from, to, "lq") {
        Some(Quality::Low_480p)
    } else if range_is(s, from, to, "720p") || range_is(s, from, to, "720") || range_is(
        s,
        from,
        to,
        "MID",
    ) || range_is(s, from, to, "mid") || range_is(s, from, to, "Mid") {
        Some(Quality::Mid_720p)
    } else if range_is(s, from, to, "1080p") || range_is(s, from, to, "1080") || range_is(
        s,
        from,
        to,
        "HD",
    ) || range_is(s, from, to, "hd") || range_is(s, from, to, "Hd") {
        Some(Quality::HD_1080p)
    } else {
        None
    }
}

/// Whether two optional tiers are the same.
pub fn same_quality(a: &Option<Quality>, b: &Option<Quality>) -> (r: bool)
    ensures
        r == (*a == *b),
{
    match (a, b) {
        (Some(x), Some(y)) => match (x, y) {
            (Quality::Low_480p, Quality::Low_480p) => true,
            (Quality::Mid_720p, Quality::Mid_720p) => true,
            (Quality::HD_1080p, Quality::HD_1080p) => true,
            _ => false,
        },
        (None, None) => true,
        _ => false,
    }
}

impl Quality {
    /// Reads a tier from one of its names.
    pub fn from_str(s: &str) -> (r: Result<Quality, BadQuality>)
        ensures
            match r {
                Ok(q) => quality_of(s@) == Some(q),
                Err(_) => quality_of(s@) is None,
            },
    {
        let chars = chars_of(s);
        assert(chars@.subrange(0, chars@.len() as int) =~= s@);
        match quality_in(chars.as_slice(), 0, chars.len()) {
            Some(q) => Ok(q),
            None => Err(BadQuality),
        }
    }

    /// The string that this tier is written as.
    pub fn to_string(&self) -> (r: String)
        ensures
            r@ == display_of(*self),
    {
        match self {
            Quality::Low_480p => String::from_str("480p"),
            Quality::Mid_720p => String::from_str("720p"),
            Quality::HD_1080p => String::from_str("1080p"),
        }
    }
}

} // verus!
