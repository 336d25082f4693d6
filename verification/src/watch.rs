//! The decision the index watcher takes for each file system event.

use vstd::prelude::*;

use crate::paths::{has_path_prefix, path_starts_with};

verus! {

/// The name of the folder inside a root that holds the metadata.
pub const ARK_FOLDER: &'static str = ".ark";

/// What the watcher does about one event.
#[derive(Clone, Copy, Debug, PartialEq, Eq, Structural)]
pub enum WatchStep {
    /// The event only concerns the metadata folder: nothing to do.
    Skip,
    /// Update the index and store it.
    Reindex,
    /// The watcher reported an error: log it and go on.
    ReportError,
}

/// Whether some path of `paths` lies inside `folder` (whole path
/// components compared).
pub open spec fn touches(paths: Seq<String>, folder: Seq<char>) -> bool {
    exists|i: int| 0 <= i < paths.len() && path_starts_with(#[trigger] paths[i]@, folder)
}

/// Whether some path of `paths` lies inside `folder`.
pub fn touches_folder(paths: &Vec<String>, folder: &str) -> (res: bool)
    ensures
        res == touches(paths@, folder@),
        res <==> exists|i: int|
            0 <= i < paths@.len() && path_starts_with(#[trigger] paths@[i]@, folder@),
{
    let mut i: usize = 0;
    while i < paths.len()
        invariant
            i <= paths.len(),
            forall|j: int| 0 <= j < i ==> !path_starts_with(#[trigger] paths@[j]@, folder@),
        decreases paths.len() - i,
    {
        if has_path_prefix(paths[i].as_str(), folder) {
            return true;
        }
        i = i + 1;
    }
    false
}

/// The step for one event: the paths it concerns, or the watcher's error
/// message. Events inside the metadata folder `ark_folder` are skipped, as
/// the index itself is stored there.
pub fn watch_step(event: &Result<Vec<String>, String>, ark_folder: &str) -> (res: WatchStep)
    ensures
        match event {
            Err(_) => res == WatchStep::ReportError,
            Ok(paths) => res == if touches(paths@, ark_folder@) {
                WatchStep::Skip
            } else {
                WatchStep::Reindex
            },
        },
        forall|i: int|
            #![trigger event->Ok_0@[i]]
            event is Ok && 0 <= i < event->Ok_0@.len() && path_starts_with(
                event->Ok_0@[i]@,
                ark_folder@,
            ) ==> res == WatchStep::Skip,
        res == WatchStep::Reindex ==> event is Ok && forall|i: int|
            0 <= i < event->Ok_0@.len() ==> !path_starts_with(
                #[trigger] event->Ok_0@[i]@,
                ark_folder@,
            ),
{
    match event {
        Err(_) => WatchStep::ReportError,
        Ok(paths) => if touches_folder(paths, ark_folder) {
            WatchStep::Skip
        } else {
            WatchStep::Reindex
        },
    }
}

/// An event with any one path inside the folder touches it, wherever that
/// path stands among the event's paths; an event touches it only through
/// some path inside it.
pub proof fn any_path_inside_touches(paths: Seq<String>, folder: Seq<char>, i: int)
    ensures
        0 <= i < paths.len() && path_starts_with(paths[i]@, folder) ==> touches(paths, folder),
        touches(paths, folder) ==> exists|j: int|
            0 <= j < paths.len() && path_starts_with(#[trigger] paths[j]@, folder),
{
}

} // verus!
