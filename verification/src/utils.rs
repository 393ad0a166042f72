//! Reading a release title into an `Episode`.
//!
//! A title opens with the group's tag in square brackets. The show's name
//! and the episode follow, then tags that announce a revision, the source or
//! the quality, and last the file extension:
//! `[Group] Show - 08 v2 [1080p][x265].mkv`. Everything here counts
//! positions in characters.

use crate::models::{quality_in, quality_of, Episode, EpisodeView};
use crate::number::{decimal_i32, digit_of, digit_value, is_digit, parse_i32};
use crate::text::{
    chars_of, ends_with, find_first, find_first_of, find_last, find_last_separator, first_index,
    first_of, last_index, last_separator, range_is, trim, trim_range,
};
use crate::theorems::lemma_record_well_formed;
use vstd::prelude::*;

verus! {

/// `numbers` without the marker of a show's last episode, where it ends
/// with one.
pub open spec fn without_end_marker(numbers: Seq<char>) -> Seq<char> {
    if ends_with(numbers, " END"@) {
        numbers.take(numbers.len() - " END"@.len())
    } else {
        numbers
    }
}

/// The part of `numbers` that writes the episode: what stands before the
/// first `v`, or all of it.
pub open spec fn episode_part(numbers: Seq<char>) -> Seq<char> {
    match first_index(numbers, 'v') {
        Some(k) => trim(numbers.take(k)),
        None => trim(numbers),
    }
}

/// The part of `numbers` that writes the revision: what stands behind the
/// first `v`, if there is a `v`.
pub open spec fn version_part(numbers: Seq<char>) -> Option<Seq<char>> {
    match first_index(numbers, 'v') {
        Some(k) => Some(trim(numbers.skip(k + 1))),
        None => None,
    }
}

/// Episode and revision as `numbers` writes them, in the form
/// `<episode>[v<revision>]`. Without a `v` the revision is 1. `None` where
/// one of the two parts is no integer.
pub open spec fn episode_and_version(numbers: Seq<char>) -> Option<(int, int)> {
    match (decimal_i32(episode_part(numbers)), version_part(numbers)) {
        (Some(e), None) => Some((e, 1)),
        (Some(e), Some(part)) => match decimal_i32(part) {
            Some(v) => Some((e, v)),
            None => None,
        },
        (None, _) => None,
    }
}

/// What stands behind the rightmost separator of `text`, trimmed and
/// without the marker of a last episode: the part that writes episode and
/// revision.
pub open spec fn numbers_segment(text: Seq<char>) -> Option<Seq<char>> {
    match last_separator(text) {
        Some(i) => Some(without_end_marker(trim(text.skip(i + 3)))),
        None => None,
    }
}

/// Name, episode and revision of a fragment in the form
/// `<name> - <episode>[v<revision>][ END]`, split at its rightmost
/// separator. `None` where there is no separator, where the name is empty,
/// or where episode or revision is no integer.
pub open spec fn dash_episode(text: Seq<char>) -> Option<(Seq<char>, int, int)> {
    match (last_separator(text), numbers_segment(text)) {
        (Some(i), Some(numbers)) => {
            let name = trim(text.take(i));
            match episode_and_version(numbers) {
                Some((e, v)) => if name.len() > 0 {
                    Some((name, e, v))
                } else {
                    None
                },
                None => None,
            }
        },
        _ => None,
    }
}

/// Whether `token` has the form `S<digit><digit>E<digit><digit>`.
pub open spec fn is_season_token(token: Seq<char>) -> bool {
    &&& token.len() == 6
    &&& token[0] == 'S'
    &&& is_digit(token[1])
    &&& is_digit(token[2])
    &&& token[3] == 'E'
    &&& is_digit(token[4])
    &&& is_digit(token[5])
}

/// Name, episode and revision of a fragment in the form
/// `<name> S<season>E<episode>`, split at its last space. The season is not
/// kept, and the revision is always 1.
pub open spec fn season_episode(text: Seq<char>) -> Option<(Seq<char>, int, int)> {
    let t = trim(text);
    match last_index(t, ' ') {
        Some(i) => {
            let name = trim(t.take(i));
            let token = trim(t.skip(i + 1));
            if is_season_token(token) && name.len() > 0 {
                Some((name, 10 * digit_value(token[4]) + digit_value(token[5]), 1))
            } else {
                None
            }
        },
        None => None,
    }
}

/// Name, episode and revision of the fragment between the group's tag and
/// the first tag behind it: by the form with a separator, and where that
/// fails by the form with season and episode.
pub open spec fn name_episode_version(text: Seq<char>) -> Option<(Seq<char>, int, int)> {
    match dash_episode(text) {
        Some(found) => Some(found),
        None => season_episode(text),
    }
}

/// Where the bracket stands that closes the group's tag: the first `]` of
/// a title that starts with `[`.
pub open spec fn group_end(title: Seq<char>) -> Option<int> {
    if title.len() > 0 && title[0] == '[' {
        first_index(title, ']')
    } else {
        None
    }
}

/// Whether `group` sets its tags in parentheses, not in square brackets.
pub open spec fn uses_parentheses(group: Seq<char>) -> bool {
    group == "SubsPlease"@ || group == "PAS"@
}

/// The character that opens a tag in the titles of `group`.
pub open spec fn tag_open(group: Seq<char>) -> char {
    if uses_parentheses(group) {
        '('
    } else {
        '['
    }
}

/// The character that closes a tag in the titles of `group`.
pub open spec fn tag_close(group: Seq<char>) -> char {
    if uses_parentheses(group) {
        ')'
    } else {
        ']'
    }
}

/// Whether `rest`, which starts at the first tag, opens with a tag that
/// announces a revision. Such a tag counts only while the revision is
/// still 1.
pub open spec fn has_revision_tag(rest: Seq<char>, version: int) -> bool {
    version == 1 && rest.len() > 1 && rest[1] == 'v'
}

/// The revision that the tag at the start of `rest` announces, and the
/// position in `rest` of the tag that follows it. The revision is the
/// integer between the `v` and the next `close`; the next tag must open
/// directly behind that `close`. `None` where one of the three is missing.
pub open spec fn revision_tag(rest: Seq<char>, open: char, close: char) -> Option<(int, int)> {
    match first_index(rest.skip(2), close) {
        Some(c) => match decimal_i32(rest.subrange(2, c + 2)) {
            Some(v) => if c + 3 < rest.len() && rest[c + 3] == open {
                Some((v, c + 3))
            } else {
                None
            },
            None => None,
        },
        None => None,
    }
}

/// How far to move on from the start of `tags` to pass a tag that says
/// nothing of the quality: 5 for `VRV]`, which is a tag of its own; 4 for
/// `WEB `, which stands before the quality inside one tag; else 0.
pub open spec fn marker_tag_len(tags: Seq<char>) -> int {
    if tags.len() < 5 {
        0
    } else if tags.subrange(1, 5) == "VRV]"@ {
        5
    } else if tags.subrange(1, 5) == "WEB "@ {
        4
    } else {
        0
    }
}

/// The token that may name the quality: what stands behind the first
/// character of `rest`, up to the first `close` or space. `None` where
/// neither follows.
pub open spec fn quality_token(rest: Seq<char>, close: char) -> Option<Seq<char>> {
    if rest.len() == 0 {
        None
    } else {
        match first_of(rest.skip(1), close, ' ') {
            Some(e) => Some(rest.subrange(1, e + 1)),
            None => None,
        }
    }
}

/// The file extension: what stands behind the last `.` of `rest`, if there
/// is one.
pub open spec fn extension_of(rest: Seq<char>) -> Option<Seq<char>> {
    match last_index(rest, '.') {
        Some(x) => Some(rest.skip(x + 1)),
        None => None,
    }
}

/// The revision after the first tag has been looked at, and the position in
/// `rest` where the tags go on: those of `revision_tag` where the first tag
/// announces a revision, else the revision as it was and position 0.
pub open spec fn revised(rest: Seq<char>, version: int, open: char, close: char) -> Option<
    (int, int),
> {
    if has_revision_tag(rest, version) {
        revision_tag(rest, open, close)
    } else {
        Some((version, 0))
    }
}

/// The record of a title with tags: `fragment` stands between the group's
/// tag and the first tag, `rest` starts at the first tag.
#[verifier::opaque]
pub open spec fn tagged_title(
    group: Seq<char>,
    fragment: Seq<char>,
    rest: Seq<char>,
    open: char,
    close: char,
) -> Option<EpisodeView> {
    match name_episode_version(fragment) {
        Some((name, episode, first_version)) => match revised(rest, first_version, open, close) {
            Some((version, at)) => {
                let tags = rest.skip(at);
                let tail = tags.skip(marker_tag_len(tags));
                match quality_token(tail, close) {
                    Some(token) => Some(
                        EpisodeView {
                            group,
                            name,
                            quality: quality_of(token),
                            episode,
                            version,
                            extension: extension_of(tail),
                        },
                    ),
                    None => None,
                }
            },
            None => None,
        },
        None => None,
    }
}

/// The record of a title without tags: `body` is what follows the group's
/// tag. What stands behind its last `.` is the extension; the rest must
/// have the form with a separator.
#[verifier::opaque]
pub open spec fn untagged_title(group: Seq<char>, body: Seq<char>) -> Option<EpisodeView> {
    let fragment = match last_index(body, '.') {
        Some(x) => body.take(x),
        None => body,
    };
    match dash_episode(fragment) {
        Some((name, episode, version)) => Some(
            EpisodeView {
                group,
                name,
                quality: None,
                episode,
                version,
                extension: extension_of(body),
            },
        ),
        None => None,
    }
}

/// The record that `title` announces, or `None` where it has not the form
/// of a release title.
#[verifier::opaque]
pub open spec fn parsed_title(title: Seq<char>) -> Option<EpisodeView> {
    match group_end(title) {
        Some(idx) => {
            let group = title.subrange(1, idx);
            let body = title.skip(idx + 1);
            if group.len() == 0 {
                None
            } else {
                match first_index(body, tag_open(group)) {
                    Some(q) => tagged_title(
                        group,
                        body.take(q),
                        body.skip(q),
                        tag_open(group),
                        tag_close(group),
                    ),
                    None => untagged_title(group, body),
                }
            }
        },
        None => None,
    }
}

/// The view of an optional record.
pub open spec fn record_view(r: Option<Episode>) -> Option<EpisodeView> {
    match r {
        Some(e) => Some(e@),
        None => None,
    }
}

/// A name as a range of positions, with the episode and the revision that
/// follow it.
struct NameSpan {
    start: usize,
    end: usize,
    episode: i32,
    version: i32,
}

impl NameSpan {
    /// What the span stands for, given the characters it points into.
    spec fn found(&self, s: Seq<char>) -> (Seq<char>, int, int) {
        (s.subrange(self.start as int, self.end as int), self.episode as int, self.version as int)
    }
}

/// Reads episode and revision from the characters of `s` from `from` up to,
/// not including, `to`.
fn scan_episode_and_version(s: &[char], from: usize, to: usize) -> (r: Option<(i32, i32)>)
    requires
        from <= to <= s@.len(),
    ensures
        match r {
            Some((e, v)) => episode_and_version(s@.subrange(from as int, to as int)) == Some(
                (e as int, v as int),
            ),
            None => episode_and_version(s@.subrange(from as int, to as int)) is None,
        },
{
    let ghost numbers = s@.subrange(from as int, to as int);
    match find_first(s, 'v', from, to) {
        Some(k) => {
            let (ea, eb) = trim_range(s, from, k);
            let (va, vb) = trim_range(s, k + 1, to);
            assert(s@.subrange(from as int, k as int) =~= numbers.take(k - from));
            assert(s@.subrange(k + 1, to as int) =~= numbers.skip(k - from + 1));
            match parse_i32(s, ea, eb) {
                Some(e) => match parse_i32(s, va, vb) {
                    Some(v) => Some((e, v)),
                    None => None,
                },
                None => None,
            }
        },
        None => {
            let (ea, eb) = trim_range(s, from, to);
            match parse_i32(s, ea, eb) {
                Some(e) => Some((e, 1)),
                None => None,
            }
        },
    }
}

/// Reads name, episode and revision from the characters of `s` from `from`
/// up to, not including, `to`, by the form with a separator.
fn scan_dash_episode(s: &[char], from: usize, to: usize) -> (r: Option<NameSpan>)
    requires
        from <= to <= s@.len(),
    ensures
        match r {
            Some(span) => from <= span.start <= span.end <= to && dash_episode(
                s@.subrange(from as int, to as int),
            ) == Some(span.found(s@)),
            None => dash_episode(s@.subrange(from as int, to as int)) is None,
        },
{
    let ghost text = s@.subrange(from as int, to as int);
    match find_last_separator(s, from, to) {
        Some(i) => {
            let (na, nb) = trim_range(s, from, i);
            let (sa, sb) = trim_range(s, i + 3, to);
            assert(s@.subrange(from as int, i as int) =~= text.take(i - from));
            assert(s@.subrange(i + 3, to as int) =~= text.skip(i - from + 3));
            let ghost segment = s@.subrange(sa as int, sb as int);
            proof {
                reveal_strlit(" END");
            }
            let marked = sb - sa >= 4 && range_is(s, sb - 4, sb, " END");
            let end: usize = if marked {
                sb - 4
            } else {
                sb
            };
            proof {
                if sb - sa >= 4 {
                    assert(segment.subrange(segment.len() - 4, segment.len() as int) =~= s@.subrange(
                        sb - 4,
                        sb as int,
                    ));
                }
                assert(s@.subrange(sa as int, end as int) =~= without_end_marker(segment));
            }
            match scan_episode_and_version(s, sa, end) {
                Some((e, v)) => {
                    if nb > na {
                        Some(NameSpan { start: na, end: nb, episode: e, version: v })
                    } else {
                        None
                    }
                },
                None => None,
            }
        },
        None => None,
    }
}

/// Reads name, episode and revision from the characters of `s` from `from`
/// up to, not including, `to`, by the form with season and episode.
fn scan_season_episode(s: &[char], from: usize, to: usize) -> (r: Option<NameSpan>)
    requires
        from <= to <= s@.len(),
    ensures
        match r {
            Some(span) => from <= span.start <= span.end <= to && season_episode(
                s@.subrange(from as int, to as int),
            ) == Some(span.found(s@)),
            None => season_episode(s@.subrange(from as int, to as int)) is None,
        },
{
    let (ta, tb) = trim_range(s, from, to);
    let ghost t = s@.subrange(ta as int, tb as int);
    match find_last(s, ' ', ta, tb) {
        Some(i) => {
            let (na, nb) = trim_range(s, ta, i);
            let (ka, kb) = trim_range(s, i + 1, tb);
            assert(s@.subrange(ta as int, i as int) =~= t.take(i - ta));
            assert(s@.subrange(i + 1, tb as int) =~= t.skip(i - ta + 1));
            let ghost token = s@.subrange(ka as int, kb as int);
            if kb - ka != 6 || nb == na {
                return None;
            }
            assert(token[0] == s@[ka as int]);
            assert(token[1] == s@[ka + 1]);
            assert(token[2] == s@[ka + 2]);
            assert(token[3] == s@[ka + 3]);
            assert(token[4] == s@[ka + 4]);
            assert(token[5] == s@[ka + 5]);
            if s[ka] == 'S' && is_digit_char(s[ka + 1]) && is_digit_char(s[ka + 2]) && s[ka + 3]
                == 'E' && is_digit_char(s[ka + 4]) && is_digit_char(s[ka + 5]) {
                let tens: u8 = digit_of(s[ka + 4]);
                let ones: u8 = digit_of(s[ka + 5]);
                let episode: i32 = 10 * (tens as i32) + (ones as i32);
                Some(NameSpan { start: na, end: nb, episode, version: 1 })
            } else {
                None
            }
        },
        None => None,
    }
}

/// Whether `c` is one of the ten ASCII digits.
fn is_digit_char(c: char) -> (r: bool)
    ensures
        r == is_digit(c),
{
    '0' <= c && c <= '9'
}

/// Reads name, episode and revision from the characters of `s` from `from`
/// up to, not including, `to`: by the form with a separator, and where that
/// fails by the form with season and episode.
fn scan_name_episode_version(s: &[char], from: usize, to: usize) -> (r: Option<NameSpan>)
    requires
        from <= to <= s@.len(),
    ensures
        match r {
            Some(span) => from <= span.start <= span.end <= to && name_episode_version(
                s@.subrange(from as int, to as int),
            ) == Some(span.found(s@)),
            None => name_episode_version(s@.subrange(from as int, to as int)) is None,
        },
{
    match scan_dash_episode(s, from, to) {
        Some(span) => Some(span),
        None => scan_season_episode(s, from, to),
    }
}

/// Turns a span found in the characters of `text` into the values it
/// stands for.
fn span_values(text: &str, span: NameSpan) -> (r: (String, i32, i32))
    requires
        span.start <= span.end <= text@.len(),
    ensures
        (r.0@, r.1 as int, r.2 as int) == span.found(text@),
{
    let name = String::from_str(text.substring_char(span.start, span.end));
    (name, span.episode, span.version)
}

/// Reads name, episode and revision from a fragment in the form
/// `<name> - <episode>[v<revision>][ END]`.
pub fn match_name_ep_version(text: &str) -> (r: Option<(String, i32, i32)>)
    ensures
        match r {
            Some((name, e, v)) => dash_episode(text@) == Some((name@, e as int, v as int)),
            None => dash_episode(text@) is None,
        },
{
    let chars = chars_of(text);
    assert(chars@.subrange(0, chars@.len() as int) =~= text@);
    match scan_dash_episode(chars.as_slice(), 0, chars.len()) {
        Some(span) => Some(span_values(text, span)),
        None => None,
    }
}

/// Reads name, episode and revision from a fragment in the form
/// `<name> S<season>E<episode>`.
pub fn match_name_sxxexx(text: &str) -> (r: Option<(String, i32, i32)>)
    ensures
        match r {
            Some((name, e, v)) => season_episode(text@) == Some((name@, e as int, v as int)),
            None => season_episode(text@) is None,
        },
{
    let chars = chars_of(text);
    assert(chars@.subrange(0, chars@.len() as int) =~= text@);
    match scan_season_episode(chars.as_slice(), 0, chars.len()) {
        Some(span) => Some(span_values(text, span)),
        None => None,
    }
}

/// Reads the tag at `q` that announces a revision.
fn scan_revision_tag(s: &[char], q: usize, open: char, close: char) -> (r: Option<(i32, usize)>)
    requires
        q + 1 < s@.len(),
    ensures
        match r {
            Some((v, at)) => q <= at < s@.len() && revision_tag(s@.skip(q as int), open, close)
                == Some((v as int, at - q)),
            None => revision_tag(s@.skip(q as int), open, close) is None,
        },
{
    let n: usize = s.len();
    let ghost rest = s@.skip(q as int);
    assert(rest.skip(2) =~= s@.subrange(q + 2, n as int));
    match find_first(s, close, q + 2, n) {
        Some(c) => {
            assert(rest.subrange(2, c - q) =~= s@.subrange(q + 2, c as int));
            match parse_i32(s, q + 2, c) {
                Some(v) => {
                    if c + 1 < n && s[c + 1] == open {
                        Some((v, c + 1))
                    } else {
                        None
                    }
                },
                None => None,
            }
        },
        None => None,
    }
}

/// How far to move on from `at` to pass a tag that says nothing of the
/// quality.
fn scan_marker_tag(s: &[char], at: usize) -> (r: usize)
    requires
        at <= s@.len(),
    ensures
        r == marker_tag_len(s@.skip(at as int)),
        at + r <= s@.len(),
{
    let n: usize = s.len();
    let ghost tags = s@.skip(at as int);
    if n - at < 5 {
        return 0;
    }
    assert(tags.subrange(1, 5) =~= s@.subrange(at + 1, at + 5));
    if range_is(s, at + 1, at + 5, "VRV]") {
        5
    } else if range_is(s, at + 1, at + 5, "WEB ") {
        4
    } else {
        0
    }
}

/// Looks at the first tag, which opens at `q`: where it announces a
/// revision, reads it and moves on to the tag behind it.
fn scan_revised(s: &[char], q: usize, version: i32, open: char, close: char) -> (r: Option<
    (i32, usize),
>)
    requires
        q < s@.len(),
    ensures
        match r {
            Some((v, at)) => q <= at < s@.len() && revised(
                s@.skip(q as int),
                version as int,
                open,
                close,
            ) == Some((v as int, at - q)),
            None => revised(s@.skip(q as int), version as int, open, close) is None,
        },
{
    let n: usize = s.len();
    if version == 1 && q + 1 < n && s[q + 1] == 'v' {
        scan_revision_tag(s, q, open, close)
    } else {
        Some((version, q))
    }
}

/// Finds where the token ends that may name the quality; the token starts
/// behind `start`.
fn scan_quality_token(s: &[char], start: usize, close: char) -> (r: Option<usize>)
    requires
        start <= s@.len(),
    ensures
        match r {
            Some(e) => start < e < s@.len() && quality_token(s@.skip(start as int), close)
                == Some(s@.subrange(start + 1, e as int)),
            None => quality_token(s@.skip(start as int), close) is None,
        },
{
    let n: usize = s.len();
    let ghost tail = s@.skip(start as int);
    if start >= n {
        return None;
    }
    assert(tail.skip(1) =~= s@.subrange(start + 1, n as int));
    match find_first_of(s, close, ' ', start + 1, n) {
        Some(e) => {
            assert(tail.subrange(1, e - start) =~= s@.subrange(start + 1, e as int));
            Some(e)
        },
        None => None,
    }
}

/// Reads the file extension from what stands at `start` and behind it.
fn scan_extension(title: &str, s: &[char], start: usize) -> (r: Option<String>)
    requires
        s@ == title@,
        start <= s@.len(),
    ensures
        match r {
            Some(e) => extension_of(s@.skip(start as int)) == Some(e@),
            None => extension_of(s@.skip(start as int)) is None,
        },
{
    let n: usize = s.len();
    let ghost tail = s@.skip(start as int);
    assert(tail =~= s@.subrange(start as int, n as int));
    match find_last(s, '.', start, n) {
        Some(x) => {
            assert(tail.skip(x - start + 1) =~= s@.subrange(x + 1, n as int));
            Some(String::from_str(title.substring_char(x + 1, n)))
        },
        None => None,
    }
}

/// Reads the tags of a title: `idx` is where the group's tag closes, `q`
/// where the first tag opens.
fn scan_tagged(title: &str, s: &[char], idx: usize, q: usize, open: char, close: char) -> (r:
    Option<Episode>)
    requires
        s@ == title@,
        1 <= idx < q < s@.len(),
    ensures
        record_view(r) == tagged_title(
            s@.subrange(1, idx as int),
            s@.subrange(idx + 1, q as int),
            s@.skip(q as int),
            open,
            close,
        ),
{
    reveal(tagged_title);
    let ghost rest = s@.skip(q as int);
    let span = match scan_name_episode_version(s, idx + 1, q) {
        Some(span) => span,
        None => {
            return None;
        },
    };
    let (version, at) = match scan_revised(s, q, span.version, open, close) {
        Some(found) => found,
        None => {
            return None;
        },
    };
    let ghost tags = rest.skip(at - q);
    assert(tags =~= s@.skip(at as int));
    let n: usize = s.len();
    let skip: usize = scan_marker_tag(s, at);
    let start: usize = at + skip;
    assert(tags.skip(marker_tag_len(tags)) =~= s@.skip(start as int));
    let token_end = match scan_quality_token(s, start, close) {
        Some(e) => e,
        None => {
            return None;
        },
    };
    let quality = quality_in(s, start + 1, token_end);
    let extension = scan_extension(title, s, start);
    Some(
        Episode {
            group: String::from_str(title.substring_char(1, idx)),
            name: String::from_str(title.substring_char(span.start, span.end)),
            quality,
            episode: span.episode,
            version,
            extension,
        },
    )
}

/// Reads a title without tags: `idx` is where the group's tag closes.
fn scan_untagged(title: &str, s: &[char], idx: usize) -> (r: Option<Episode>)
    requires
        s@ == title@,
        1 <= idx < s@.len(),
    ensures
        record_view(r) == untagged_title(s@.subrange(1, idx as int), s@.skip(idx + 1)),
{
    reveal(untagged_title);
    let n: usize = s.len();
    let ghost body = s@.skip(idx + 1);
    assert(body =~= s@.subrange(idx + 1, n as int));
    let end: usize = match find_last(s, '.', idx + 1, n) {
        Some(x) => {
            assert(body.take(x - idx - 1) =~= s@.subrange(idx + 1, x as int));
            x
        },
        None => n,
    };
    let span = match scan_dash_episode(s, idx + 1, end) {
        Some(span) => span,
        None => {
            return None;
        },
    };
    let extension = scan_extension(title, s, idx + 1);
    Some(
        Episode {
            group: String::from_str(title.substring_char(1, idx)),
            name: String::from_str(title.substring_char(span.start, span.end)),
            quality: None,
            episode: span.episode,
            version: span.version,
            extension,
        },
    )
}

/// Reads a release title. The result is `None` where the title does not
/// start with a group's tag, where name and episode cannot be read, or where
/// the first tag is cut short.
pub fn match_title(title: &str) -> (r: Option<Episode>)
    ensures
        record_view(r) == parsed_title(title@),
        match r {
            Some(e) => e@.group.len() > 0 && e@.name.len() > 0,
            None => true,
        },
{
    reveal(parsed_title);
    proof {
        lemma_record_well_formed(title@);
    }
    let chars = chars_of(title);
    let s = chars.as_slice();
    let n: usize = s.len();
    if n == 0 || s[0] != '[' {
        return None;
    }
    assert(s@.subrange(0, n as int) =~= s@);
    let idx = match find_first(s, ']', 0, n) {
        Some(idx) => idx,
        None => {
            return None;
        },
    };
    if idx == 1 {
        return None;
    }
    let parentheses = range_is(s, 1, idx, "SubsPlease") || range_is(s, 1, idx, "PAS");
    let (open, close) = if parentheses {
        ('(', ')')
    } else {
        ('[', ']')
    };
    let ghost body = s@.skip(idx + 1);
    assert(body =~= s@.subrange(idx + 1, n as int));
    match find_first(s, open, idx + 1, n) {
        Some(q) => {
            assert(body.take(q - idx - 1) =~= s@.subrange(idx + 1, q as int));
            assert(body.skip(q - idx - 1) =~= s@.skip(q as int));
            scan_tagged(title, s, idx, q, open, close)
        },
        None => scan_untagged(title, s, idx),
    }
}

} // verus!
