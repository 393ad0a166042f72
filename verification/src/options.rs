//! What the command line asks for.

use crate::models::Quality;
use crate::text::chars_of;
use vstd::prelude::*;

verus! {

/// The whole command line.
#[derive(Debug)]
pub struct ToshoOptions {
    pub help: bool,
    pub command: Option<Command>,
}

/// The commands.
#[derive(Debug)]
pub enum Command {
    /// Add a show to the check list.
    Add(AddOpts),
    /// Queue the releases that were not fetched yet.
    Queue(QueueOpts),
    /// Check for new releases.
    Check(CheckOpts),
    /// Check one whole page of the feed again.
    Recheck(RecheckOpts),
    /// Check for new bookmarks.
    Dog(CheckOpts),
}

/// What `Command::Add` takes.
#[derive(Debug)]
pub struct AddOpts {
    pub help: bool,
    /// The group, with or without the brackets of its tag.
    pub group: String,
    pub show: String,
    pub quality: Option<Quality>,
    /// The episode to start from.
    pub start: Option<i32>,
}

/// What `Command::Recheck` takes.
#[derive(Debug)]
pub struct RecheckOpts {
    /// The page of the feed to check again.
    pub page: Option<u8>,
}

/// What `Command::Queue` takes.
#[derive(Debug)]
pub struct QueueOpts {
    pub help: bool,
}

/// What `Command::Check` and `Command::Dog` take.
#[derive(Debug)]
pub struct CheckOpts {
    pub help: bool,
}

/// A group's name as given on the command line, without the brackets of
/// its tag: where `given` starts with `[`, its first and its last character
/// are dropped.
pub open spec fn bare_group(given: Seq<char>) -> Seq<char> {
    if given.len() > 0 && given[0] == '[' {
        given.subrange(1, given.len() - 1)
    } else {
        given
    }
}

impl AddOpts {
    /// The group's name without the brackets of its tag. A lone `[` names
    /// no group.
    pub fn group_name(&self) -> (name: String)
        requires
            self.group@ != seq!['['],
        ensures
            name@ == bare_group(self.group@),
    {
        let chars = chars_of(self.group.as_str());
        let n: usize = chars.len();
        if n > 0 && chars[0] == '[' {
            assert(n != 1) by {
                if n == 1 {
                    assert(self.group@ =~= seq!['[']);
                }
            }
            String::from_str(self.group.as_str().substring_char(1, n - 1))
        } else {
            self.group.clone()
        }
    }

    /// The episode to start from: the first where none was given.
    pub fn start_episode(&self) -> (start: i32)
        ensures
            start == match self.start {
                Some(s) => s,
                None => 1i32,
            },
    {
        match self.start {
            Some(s) => s,
            None => 1,
        }
    }
}

impl RecheckOpts {
    /// The page to check again: the first where none was given.
    pub fn page_number(&self) -> (page: u8)
        ensures
            page == match self.page {
                Some(p) => p,
                None => 1u8,
            },
    {
        match self.page {
            Some(p) => p,
            None => 1,
        }
    }
}

} // verus!
