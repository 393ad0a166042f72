//! What holds of every title, proved over `parsed_title`.

use crate::text::{first_index, last_index, lemma_first_of_absent, lemma_first_of_found};
use crate::utils::{
    dash_episode, group_end, has_revision_tag, marker_tag_len, name_episode_version,
    numbers_segment, parsed_title, tag_close, tag_open, tagged_title, untagged_title,
};
use vstd::prelude::*;

verus! {

/// A title put together from its parts: the group's tag, the fragment that
/// names show and episode, and the tags.
pub open spec fn title_of_parts(group: Seq<char>, fragment: Seq<char>, rest: Seq<char>) -> Seq<
    char,
> {
    seq!['['] + group + seq![']'] + fragment + rest
}

/// Whether the three parts are what `title_of_parts(group, fragment, rest)`
/// is split into when it is read: the group has a name without `]`, the
/// fragment holds no character that opens a tag, and `rest` starts with one.
pub open spec fn parts_fit(group: Seq<char>, fragment: Seq<char>, rest: Seq<char>) -> bool {
    &&& group.len() > 0
    &&& forall|i: int| 0 <= i < group.len() ==> group[i] != ']'
    &&& forall|i: int| 0 <= i < fragment.len() ==> fragment[i] != tag_open(group)
    &&& rest.len() > 0
    &&& rest[0] == tag_open(group)
}

/// Whether the fragment that names show and episode writes a revision: its
/// part behind the rightmost separator holds a `v`.
pub open spec fn fragment_writes_revision(fragment: Seq<char>) -> bool {
    match numbers_segment(fragment) {
        Some(numbers) => first_index(numbers, 'v') is Some,
        None => false,
    }
}

/// Whether `title` holds a revision marker: a `v` in the part of its
/// fragment that writes the episode, or a `v` directly behind the character
/// that opens its first tag.
pub open spec fn has_revision_marker(title: Seq<char>) -> bool {
    match group_end(title) {
        Some(idx) => {
            let group = title.subrange(1, idx);
            let body = title.skip(idx + 1);
            match first_index(body, tag_open(group)) {
                Some(q) => fragment_writes_revision(body.take(q)) || (body.skip(q).len() > 1
                    && body.skip(q)[1] == 'v'),
                None => fragment_writes_revision(
                    match last_index(body, '.') {
                        Some(x) => body.take(x),
                        None => body,
                    },
                ),
            }
        },
        None => false,
    }
}

/// The tag that names a source and says nothing of the quality, as it
/// stands in the titles of a group whose tags open with `open`.
pub open spec fn source_tag(open: char) -> Seq<char> {
    seq![open, 'V', 'R', 'V', ']']
}

/// A record always names its group and its show: neither is empty.
pub proof fn lemma_record_well_formed(title: Seq<char>)
    ensures
        match parsed_title(title) {
            Some(e) => e.group.len() > 0 && e.name.len() > 0,
            None => true,
        },
{
    reveal(parsed_title);
    reveal(tagged_title);
    reveal(untagged_title);
}

/// A title that does not start with `[` announces nothing, and neither does
/// one whose first `[` is never closed.
pub proof fn lemma_no_group_no_record(title: Seq<char>)
    requires
        title.len() == 0 || title[0] != '[' || forall|i: int|
            0 <= i < title.len() ==> title[i] != ']',
    ensures
        parsed_title(title) is None,
{
    reveal(parsed_title);
    if title.len() > 0 && title[0] == '[' {
        lemma_first_of_absent(title, ']', ']');
    }
}

/// Reading is a function of the title's characters: two titles that hold
/// the same characters announce the same record.
pub proof fn lemma_same_title_same_record(a: &str, b: &str)
    requires
        a@ == b@,
    ensures
        parsed_title(a@) == parsed_title(b@),
{
}

/// A fragment that writes no revision has revision 1.
pub proof fn lemma_fragment_default_version(fragment: Seq<char>)
    requires
        !fragment_writes_revision(fragment),
    ensures
        match dash_episode(fragment) {
            Some((_, _, v)) => v == 1,
            None => true,
        },
        match name_episode_version(fragment) {
            Some((_, _, v)) => v == 1,
            None => true,
        },
{
}

/// A title without a revision marker has revision 1.
pub proof fn lemma_default_version(title: Seq<char>)
    requires
        !has_revision_marker(title),
    ensures
        match parsed_title(title) {
            Some(e) => e.version == 1,
            None => true,
        },
{
    reveal(parsed_title);
    reveal(tagged_title);
    reveal(untagged_title);
    match group_end(title) {
        Some(idx) => {
            let group = title.subrange(1, idx);
            let body = title.skip(idx + 1);
            match first_index(body, tag_open(group)) {
                Some(q) => {
                    lemma_fragment_default_version(body.take(q));
                },
                None => {
                    lemma_fragment_default_version(
                        match last_index(body, '.') {
                            Some(x) => body.take(x),
                            None => body,
                        },
                    );
                },
            }
        },
        None => {},
    }
}

/// A title put together from parts that fit is read back into those parts.
pub proof fn lemma_title_of_parts(group: Seq<char>, fragment: Seq<char>, rest: Seq<char>)
    requires
        parts_fit(group, fragment, rest),
    ensures
        parsed_title(title_of_parts(group, fragment, rest)) == tagged_title(
            group,
            fragment,
            rest,
            tag_open(group),
            tag_close(group),
        ),
{
    reveal(parsed_title);
    let title = title_of_parts(group, fragment, rest);
    let idx: int = group.len() as int + 1;
    assert(title[0] == '[');
    assert(title[idx] == ']');
    assert forall|j: int| 0 <= j < idx implies title[j] != ']' by {
        if j > 0 {
            assert(title[j] == group[j - 1]);
        }
    }
    lemma_first_of_found(title, ']', ']', idx);
    assert(title.subrange(1, idx) =~= group);
    let body = title.skip(idx + 1);
    assert(body =~= fragment + rest);
    let open = tag_open(group);
    let q = fragment.len() as int;
    assert(body[q] == rest[0]);
    assert forall|j: int| 0 <= j < q implies body[j] != open by {
        assert(body[j] == fragment[j]);
    }
    lemma_first_of_found(body, open, open, q);
    assert(body.take(q) =~= fragment);
    assert(body.skip(q) =~= rest);
}

/// The tags of a title that opens them with a source tag are read as if the
/// source tag were not there, as long as the tag behind it does not
/// announce a revision: name, episode, revision and extension are the same,
/// and the quality is read from the tag behind the source tag.
pub proof fn lemma_source_tag_skipped(
    group: Seq<char>,
    fragment: Seq<char>,
    post: Seq<char>,
    open: char,
    close: char,
)
    requires
        post.len() > 0,
        match name_episode_version(fragment) {
            Some((_, _, v)) => !has_revision_tag(post, v),
            None => true,
        },
    ensures
        match (
            tagged_title(group, fragment, source_tag(open) + post, open, close),
            tagged_title(group, fragment, post, open, close),
        ) {
            (Some(with), Some(without)) => {
                &&& with.group == without.group
                &&& with.name == without.name
                &&& with.episode == without.episode
                &&& with.version == without.version
            },
            _ => true,
        },
        marker_tag_len(post) == 0 ==> tagged_title(
            group,
            fragment,
            source_tag(open) + post,
            open,
            close,
        ) == tagged_title(group, fragment, post, open, close),
{
    reveal(tagged_title);
    let with_tag = source_tag(open) + post;
    reveal_strlit("VRV]");
    assert(with_tag.subrange(1, 5) =~= "VRV]"@);
    assert(with_tag[1] == 'V');
    assert(with_tag.skip(0) =~= with_tag);
    assert(with_tag.skip(5) =~= post);
    assert(post.skip(0) =~= post);
}

/// A source tag is invisible: a title whose first tag is a source tag, with
/// another tag directly behind it that announces no revision, names the same
/// group, show, episode and revision as the title without the source tag.
/// Where the tag behind it is no such marker itself, the two titles announce
/// the same record.
pub proof fn lemma_source_tag_invisible(group: Seq<char>, fragment: Seq<char>, post: Seq<char>)
    requires
        parts_fit(group, fragment, post),
        match name_episode_version(fragment) {
            Some((_, _, v)) => !has_revision_tag(post, v),
            None => true,
        },
    ensures
        match (
            parsed_title(title_of_parts(group, fragment, source_tag(tag_open(group)) + post)),
            parsed_title(title_of_parts(group, fragment, post)),
        ) {
            (Some(with), Some(without)) => {
                &&& with.group == without.group
                &&& with.name == without.name
                &&& with.episode == without.episode
                &&& with.version == without.version
            },
            _ => true,
        },
        marker_tag_len(post) == 0 ==> parsed_title(
            title_of_parts(group, fragment, source_tag(tag_open(group)) + post),
        ) == parsed_title(title_of_parts(group, fragment, post)),
{
    let open = tag_open(group);
    let close = tag_close(group);
    lemma_title_of_parts(group, fragment, source_tag(open) + post);
    lemma_title_of_parts(group, fragment, post);
    lemma_source_tag_skipped(group, fragment, post, open, close);
}

} // verus!
