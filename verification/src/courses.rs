//! The bundled courses, the order in which the track switcher visits them,
//! and which file a requested track path selects.
use vstd::prelude::*;
use crate::text::{chars_of, extend_chars, extend_str, string_of};

verus! {

/// The bundled courses in switcher order.
pub const BUNDLED_PATHS: [&'static str; 7] = [
    "tracks/alpine.track",
    "tracks/club.track",
    "tracks/camber_loop.track",
    "tracks/ridgeway.track",
    "tracks/stone_gallery.track",
    "tracks/airfield.track",
    "tracks/skyline_eight.track",
];

/// The number of bundled courses.
pub const COURSE_COUNT: usize = 7;

/// The course after the one at `current`, wrapping after the last; a course
/// that is not bundled is followed by the first.
pub open spec fn next_course_spec(current: Option<usize>) -> usize {
    match current {
        Some(i) => ((i + 1) % 7) as usize,
        None => 0,
    }
}

/// The index of the course the switcher selects after `current`, the index
/// of the loaded course among the bundled ones, if it is one of them.
pub fn next_course(current: Option<usize>) -> (r: usize)
    requires
        current matches Some(i) ==> i < COURSE_COUNT,
    ensures
        r == next_course_spec(current),
        r < COURSE_COUNT,
{
    match current {
        Some(i) => (i + 1) % COURSE_COUNT,
        None => 0,
    }
}

/// The course reached from `i` after `k` presses of the switcher.
pub open spec fn after_presses(i: usize, k: nat) -> usize
    decreases k,
{
    if k == 0 {
        i
    } else {
        next_course_spec(Some(after_presses(i, (k - 1) as nat)))
    }
}

proof fn lemma_after_presses(i: usize, k: nat)
    requires
        i < 7,
    ensures
        after_presses(i, k) == (i + k) % 7,
    decreases k,
{
    if k > 0 {
        lemma_after_presses(i, (k - 1) as nat);
    }
}

/// From any bundled course, seven presses visit seven different bundled
/// courses (so every one of them, in order) and return to where they started.
pub proof fn lemma_switcher_cycles(i: usize)
    requires
        i < COURSE_COUNT,
    ensures
        after_presses(i, 7) == i,
        forall|a: nat, b: nat|
            a < b < 7 ==> #[trigger] after_presses(i, a) != #[trigger] after_presses(i, b),
        forall|k: nat| k < 7 ==> #[trigger] after_presses(i, k) < COURSE_COUNT,
{
    lemma_after_presses(i, 7);
    assert forall|a: nat, b: nat| a < b < 7 implies #[trigger] after_presses(i, a)
        != #[trigger] after_presses(i, b) by {
        lemma_after_presses(i, a);
        lemma_after_presses(i, b);
    }
    assert forall|k: nat| k < 7 implies #[trigger] after_presses(i, k) < COURSE_COUNT by {
        lemma_after_presses(i, k);
    }
}

/// What inspecting the requested path as a directory entry found, without
/// following a final symbolic link.
#[derive(Debug)]
pub enum LocalEntry {
    Present,
    Missing,
    /// Inspection failed for another reason, described by the message.
    Unreadable(String),
}

/// Which file a requested track path selects.
#[derive(Clone, Copy, Debug, PartialEq, Eq, Structural)]
pub enum TrackSource {
    /// The entry at the requested path, even a dangling symbolic link.
    Local,
    /// The bundled file of that name.
    Bundled,
}

/// An existing entry is selected, even a dangling link; only a missing one
/// falls back to the bundled file; a failed inspection is an error rather
/// than a reason to look elsewhere.
pub open spec fn resolve_spec(shown: Seq<char>, entry: LocalEntry) -> Result<TrackSource, Seq<char>> {
    match entry {
        LocalEntry::Present => Ok(TrackSource::Local),
        LocalEntry::Missing => Ok(TrackSource::Bundled),
        LocalEntry::Unreadable(e) => Err("Cannot inspect track '"@ + shown + "': "@ + e@),
    }
}

/// Selects a track source once, given what inspecting the requested path
/// (displayed as `shown`) found.
pub fn resolve_track(shown: &str, entry: LocalEntry) -> (r: Result<TrackSource, String>)
    ensures
        match r {
            Ok(s) => resolve_spec(shown@, entry) == Ok::<TrackSource, Seq<char>>(s),
            Err(e) => resolve_spec(shown@, entry) == Err::<TrackSource, Seq<char>>(e@),
        },
{
    match entry {
        LocalEntry::Present => Ok(TrackSource::Local),
        LocalEntry::Missing => Ok(TrackSource::Bundled),
        LocalEntry::Unreadable(e) => {
            let mut m: Vec<char> = Vec::new();
            extend_str(&mut m, "Cannot inspect track '");
            extend_str(&mut m, shown);
            extend_str(&mut m, "': ");
            extend_str(&mut m, e.as_str());
            assert(m@ =~= "Cannot inspect track '"@ + shown@ + "': "@ + e@);
            Err(string_of(&m))
        },
    }
}

} // verus!
