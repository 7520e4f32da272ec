//! What Albert knows about his disks, his Pi and his backups.
use vstd::prelude::*;
use crate::text::{chars_of, same_as_str};

verus! {

/// Everything the dashboard shows below the face.
#[derive(Clone, Copy, Debug, PartialEq, Eq)]
pub struct AlbertStatus {
    pub al: DiskStatus,
    pub bert: DiskStatus,
    pub pi: PiStatus,
    pub backups: BackupStatuses,
}

/// The state of one of Albert's disks.
#[derive(Clone, Copy, Debug, PartialEq, Eq)]
pub struct DiskStatus {
    pub availability: DiskAvailability,
    pub temperature_c: Option<u8>,
    pub available_gib: Option<u16>,
    pub total_gib: Option<u16>,
    pub health: Option<DiskHealth>,
}

/// The Raspberry Pi itself.
#[derive(Clone, Copy, Debug, PartialEq, Eq)]
pub struct PiStatus {
    pub temperature_c: Option<u8>,
    pub ram_percent: Option<u8>,
}

/// The three backup paths.
#[derive(Clone, Copy, Debug, PartialEq, Eq)]
pub struct BackupStatuses {
    pub xps_to_al: BackupStatus,
    pub xps_to_bert: BackupStatus,
    pub al_to_bert: BackupStatus,
}

/// Whether a disk is present and mounted where it belongs.
#[derive(Clone, Copy, Debug, PartialEq, Eq)]
pub enum DiskAvailability {
    Mounted,
    Unmounted,
    Missing,
    Unknown,
}

/// The summarized health of a disk.
#[derive(Clone, Copy, Debug, PartialEq, Eq)]
pub enum DiskHealth {
    Healthy,
    Sick,
}

/// The state of one backup path.
#[derive(Clone, Copy, Debug, PartialEq, Eq)]
pub enum BackupStatus {
    Current { age_minutes: u32 },
    Running,
    Stale { age_minutes: u32 },
    Unavailable,
}

/// The state of a backup path while previewing: running when `preview`
/// names the path, as observed otherwise.
pub open spec fn preview_state(
    preview: Option<Seq<char>>,
    path: Seq<char>,
    observed: BackupStatus,
) -> BackupStatus {
    if preview == Some(path) {
        BackupStatus::Running
    } else {
        observed
    }
}

fn preview_of(name: &Option<Vec<char>>, path: &str, observed: BackupStatus) -> (b: BackupStatus)
    ensures
        b == preview_state(
            match name {
                Some(n) => Some(n@),
                None => None,
            },
            path@,
            observed,
        ),
{
    match name {
        Some(n) => if same_as_str(n, path) {
            BackupStatus::Running
        } else {
            observed
        },
        None => observed,
    }
}

impl BackupStatuses {
    /// The observed states with the backup excitement preview: the path
    /// named by `preview` (`xps-to-al`, `xps-to-bert` or `al-to-bert`) runs.
    pub fn with_preview(observed: BackupStatuses, preview: Option<String>) -> (r: BackupStatuses)
        ensures
            ({
                let p = match preview {
                    Some(s) => Some(s@),
                    None => None,
                };
                &&& r.xps_to_al == preview_state(p, "xps-to-al"@, observed.xps_to_al)
                &&& r.xps_to_bert == preview_state(p, "xps-to-bert"@, observed.xps_to_bert)
                &&& r.al_to_bert == preview_state(p, "al-to-bert"@, observed.al_to_bert)
            }),
    {
        let name = match &preview {
            Some(s) => Some(chars_of(s.as_str())),
            None => None,
        };
        BackupStatuses {
            xps_to_al: preview_of(&name, "xps-to-al", observed.xps_to_al),
            xps_to_bert: preview_of(&name, "xps-to-bert", observed.xps_to_bert),
            al_to_bert: preview_of(&name, "al-to-bert", observed.al_to_bert),
        }
    }
}

} // verus!
