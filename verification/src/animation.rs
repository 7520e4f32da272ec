//! Albert's personality: one state machine that turns the time of day, the
//! backup activity and a few dice rolls into a face pose.
//!
//! Monotonic time is counted in milliseconds by the caller; wall-clock time
//! (the local hour) only selects the daily phase.
use vstd::prelude::*;
use chrono::Timelike;
use crate::status::{AlbertStatus, BackupStatus};
use crate::text::{ascii_lowercase, chars_of, lowercase, same_as_str};

verus! {

/// Gaze straight ahead.
pub const PUPIL_CENTER: usize = 3;

/// Gaze to the left edge of the eye.
pub const PUPIL_LEFT: usize = 1;

/// Gaze to the right edge of the eye.
pub const PUPIL_RIGHT: usize = 5;

/// The largest monotonic time, in milliseconds, that the animator accepts;
/// deadlines lie at most a few seconds after it.
pub const CLOCK_LIMIT_MS: u64 = 18_000_000_000_000_000_000;

/// The overall expression.
#[derive(Clone, Copy, Debug, PartialEq, Eq, Structural)]
pub enum Mood {
    Normal,
    Excited,
    Mad,
}

/// The part of the day that sets Albert's baseline behaviour.
#[derive(Clone, Copy, Debug, PartialEq, Eq, Structural)]
pub enum DayPhase {
    Morning,
    Day,
    Evening,
    Night,
}

/// Open or closed eyes.
#[derive(Clone, Copy, Debug, PartialEq, Eq, Structural)]
pub enum EyeState {
    Open,
    Closed,
}

/// The mouth shapes.
#[derive(Clone, Copy, Debug, PartialEq, Eq, Structural)]
pub enum Mouth {
    Smile,
    Happy,
    Relaxed,
    SmallO,
    Yawn,
    Sleeping,
    SleepingOpen,
    Hidden,
}

/// What the renderer should draw.
#[derive(Clone, Copy, Debug, PartialEq, Eq)]
pub struct FacePose {
    pub phase: DayPhase,
    pub pupil_position: usize,
    pub eyes: EyeState,
    pub mouth: Mouth,
    pub vertical_offset: usize,
    pub scene_frame: u8,
    pub mood: Mood,
}

/// The short scripted sequences.
#[derive(Clone, Copy, Debug, PartialEq, Eq, Structural)]
pub enum SequenceKind {
    Sip,
    Yawn,
    Nod,
    Sleep,
}

/// The one action in progress; deadlines are monotonic milliseconds.
#[derive(Clone, Copy, Debug, PartialEq, Eq)]
pub enum Action {
    Moving { target: usize },
    Dwelling { until: u64 },
    Blinking { until: u64 },
    Sequence { kind: SequenceKind, frame: u8, until: u64 },
    Mad { until: u64 },
}

/// The animator's state, as the specifications see it.
pub struct AnimatorState {
    pub phase: DayPhase,
    pub pupil_position: usize,
    pub excited_scene_frame: u8,
    pub excited_vertical_offset: usize,
    pub action: Action,
    pub phase_override: Option<DayPhase>,
    pub backup_running: bool,
}

/// Albert's animation state machine.
pub struct Animator {
    phase: DayPhase,
    pupil_position: usize,
    excited_scene_frame: u8,
    excited_vertical_offset: usize,
    action: Action,
    phase_override: Option<DayPhase>,
    backup_running: bool,
}

impl View for Animator {
    type V = AnimatorState;

    closed spec fn view(&self) -> AnimatorState {
        AnimatorState {
            phase: self.phase,
            pupil_position: self.pupil_position,
            excited_scene_frame: self.excited_scene_frame,
            excited_vertical_offset: self.excited_vertical_offset,
            action: self.action,
            phase_override: self.phase_override,
            backup_running: self.backup_running,
        }
    }
}

/// The random values one update may use: an action roll, a bounce roll and
/// a dwell length in milliseconds.
#[derive(Clone, Copy, Debug, PartialEq, Eq)]
pub struct Draws {
    pub action: u64,
    pub bounce: u64,
    pub dwell_ms: u64,
}

// ---------------------------------------------------------------------------
// Specification
// ---------------------------------------------------------------------------

/// The number of frames of a sequence.
pub open spec fn frame_count_spec(kind: SequenceKind) -> u8 {
    match kind {
        SequenceKind::Sip => 5,
        _ => 4,
    }
}

/// How long a frame of a sequence lasts, in milliseconds.
pub open spec fn frame_duration_spec(kind: SequenceKind, frame: u8) -> u64 {
    match kind {
        SequenceKind::Sip => if frame == 0 {
            600
        } else if frame == 1 || frame == 3 {
            300
        } else if frame == 2 {
            900
        } else {
            400
        },
        SequenceKind::Yawn => if frame == 0 || frame == 3 {
            350
        } else if frame == 1 {
            500
        } else {
            900
        },
        SequenceKind::Nod => if frame == 0 || frame == 3 {
            500
        } else {
            1_000
        },
        SequenceKind::Sleep => if frame == 0 || frame == 3 {
            1_200
        } else {
            1_500
        },
    }
}

/// `pose` with other eyes.
pub open spec fn with_eyes(pose: FacePose, eyes: EyeState) -> FacePose {
    FacePose { eyes, ..pose }
}

/// `pose` with another mouth.
pub open spec fn with_mouth(pose: FacePose, mouth: Mouth) -> FacePose {
    FacePose { mouth, ..pose }
}

/// `pose` with another scene frame.
pub open spec fn with_scene(pose: FacePose, scene_frame: u8) -> FacePose {
    FacePose { scene_frame, ..pose }
}

/// `pose` with another vertical offset.
pub open spec fn with_offset(pose: FacePose, vertical_offset: usize) -> FacePose {
    FacePose { vertical_offset, ..pose }
}

/// What one frame of a sequence changes in the pose. Sip: look at the mug,
/// bring it up, drink with closed eyes, put it back. Yawn: open the mouth,
/// close the eyes while yawning, reopen. Nod: close the eyes, sink a row,
/// rise. Sleep: rest with closed eyes, settle a row lower and exhale, let
/// the Z's drift, rise again.
pub open spec fn apply_frame_spec(kind: SequenceKind, frame: u8, pose: FacePose) -> FacePose {
    match kind {
        SequenceKind::Sip => if frame == 0 {
            FacePose {
                pupil_position: PUPIL_RIGHT,
                eyes: EyeState::Open,
                mouth: Mouth::Relaxed,
                scene_frame: 0,
                ..pose
            }
        } else if frame == 1 {
            with_scene(pose, 1)
        } else if frame == 2 {
            FacePose { eyes: EyeState::Closed, mouth: Mouth::Hidden, scene_frame: 2, ..pose }
        } else if frame == 3 {
            FacePose { eyes: EyeState::Open, mouth: Mouth::Relaxed, scene_frame: 1, ..pose }
        } else if frame == 4 {
            with_scene(pose, 0)
        } else {
            pose
        },
        SequenceKind::Yawn => if frame == 0 {
            with_mouth(pose, Mouth::SmallO)
        } else if frame == 1 || frame == 2 {
            FacePose { eyes: EyeState::Closed, mouth: Mouth::Yawn, ..pose }
        } else if frame == 3 {
            FacePose { eyes: EyeState::Open, mouth: Mouth::SmallO, ..pose }
        } else {
            pose
        },
        SequenceKind::Nod => if frame == 0 {
            with_eyes(pose, EyeState::Closed)
        } else if frame == 1 || frame == 2 {
            FacePose { eyes: EyeState::Closed, vertical_offset: 1, ..pose }
        } else if frame == 3 {
            FacePose { eyes: EyeState::Open, vertical_offset: 0, ..pose }
        } else {
            pose
        },
        SequenceKind::Sleep => if frame == 0 {
            FacePose {
                eyes: EyeState::Closed,
                mouth: Mouth::Sleeping,
                vertical_offset: 0,
                scene_frame: 0,
                ..pose
            }
        } else if frame == 1 {
            FacePose { mouth: Mouth::SleepingOpen, scene_frame: 1, vertical_offset: 1, ..pose }
        } else if frame == 2 {
            FacePose { mouth: Mouth::SleepingOpen, scene_frame: 2, ..pose }
        } else if frame == 3 {
            FacePose { mouth: Mouth::Sleeping, scene_frame: 0, vertical_offset: 0, ..pose }
        } else {
            pose
        },
    }
}

/// Frames `0..count` of a sequence applied in order.
pub open spec fn apply_frames(kind: SequenceKind, count: nat, pose: FacePose) -> FacePose
    decreases count,
{
    if count == 0 {
        pose
    } else {
        apply_frame_spec(kind, (count - 1) as u8, apply_frames(kind, (count - 1) as nat, pose))
    }
}

/// The resting face of each phase.
pub open spec fn default_pose_spec(phase: DayPhase) -> FacePose {
    FacePose {
        phase,
        pupil_position: PUPIL_CENTER,
        eyes: match phase {
            DayPhase::Night => EyeState::Closed,
            _ => EyeState::Open,
        },
        mouth: match phase {
            DayPhase::Day => Mouth::Smile,
            DayPhase::Night => Mouth::Sleeping,
            _ => Mouth::Relaxed,
        },
        vertical_offset: 0,
        scene_frame: 0,
        mood: Mood::Normal,
    }
}

/// The phase for a local hour: morning from 6, day from 11, evening from
/// 18, night from 22.
pub open spec fn phase_for_hour_spec(hour: u8) -> DayPhase {
    if 6 <= hour < 11 {
        DayPhase::Morning
    } else if 11 <= hour < 18 {
        DayPhase::Day
    } else if 18 <= hour < 22 {
        DayPhase::Evening
    } else {
        DayPhase::Night
    }
}

/// Whether any of the three backup paths is running.
pub open spec fn backup_running_spec(status: AlbertStatus) -> bool {
    ||| status.backups.xps_to_al is Running
    ||| status.backups.xps_to_bert is Running
    ||| status.backups.al_to_bert is Running
}

/// The pose for a state: the phase's resting face, taken over by excitement
/// while a backup runs, then changed by the current action.
pub open spec fn pose_spec(s: AnimatorState) -> FacePose {
    let base = FacePose { pupil_position: s.pupil_position, ..default_pose_spec(s.phase) };
    let p = if s.backup_running {
        FacePose {
            eyes: EyeState::Open,
            mouth: Mouth::Happy,
            mood: Mood::Excited,
            scene_frame: s.excited_scene_frame,
            vertical_offset: s.excited_vertical_offset,
            ..base
        }
    } else {
        base
    };
    match s.action {
        Action::Blinking { .. } => with_eyes(p, EyeState::Closed),
        Action::Sequence { kind, frame, .. } => apply_frames(kind, frame as nat + 1, p),
        Action::Mad { .. } => FacePose { mood: Mood::Mad, ..p },
        _ => p,
    }
}

/// The number of equally likely action rolls.
pub open spec fn action_range(phase: DayPhase, backup_running: bool) -> nat {
    if backup_running {
        10
    } else {
        match phase {
            DayPhase::Morning => 12,
            DayPhase::Day => 10,
            DayPhase::Evening => 14,
            DayPhase::Night => 1,
        }
    }
}

/// The smallest dwell, in milliseconds.
pub open spec fn dwell_low(phase: DayPhase, backup_running: bool) -> nat {
    if backup_running {
        200
    } else {
        match phase {
            DayPhase::Morning => 1_200,
            DayPhase::Day => 800,
            DayPhase::Evening => 1_800,
            DayPhase::Night => 2_000,
        }
    }
}

/// One more than the largest dwell, in milliseconds.
pub open spec fn dwell_high(phase: DayPhase, backup_running: bool) -> nat {
    if backup_running {
        600
    } else {
        match phase {
            DayPhase::Morning => 3_500,
            DayPhase::Day => 2_800,
            DayPhase::Evening => 4_500,
            DayPhase::Night => 4_000,
        }
    }
}

/// Whether the draws lie in the ranges that the phase and activity use.
pub open spec fn draws_valid(d: Draws, phase: DayPhase, backup_running: bool) -> bool {
    &&& d.action < action_range(phase, backup_running)
    &&& d.bounce < 2
    &&& dwell_low(phase, backup_running) <= d.dwell_ms < dwell_high(phase, backup_running)
}

/// The phase in force: the override if there is one, else the clock's.
pub open spec fn effective_phase(phase_override: Option<DayPhase>, clock_phase: DayPhase) -> DayPhase {
    match phase_override {
        Some(p) => p,
        None => clock_phase,
    }
}

/// The animator's invariant.
pub open spec fn state_wf(s: AnimatorState) -> bool {
    &&& PUPIL_LEFT <= s.pupil_position <= PUPIL_RIGHT
    &&& (s.action matches Action::Moving { target } ==> PUPIL_LEFT <= target <= PUPIL_RIGHT)
    &&& (s.action matches Action::Sequence { kind, frame, .. } ==> frame < frame_count_spec(kind))
    &&& (s.backup_running ==> !(s.action is Sequence))
    &&& s.excited_scene_frame <= 1
    &&& s.excited_vertical_offset <= 1
    &&& (!s.backup_running ==> s.excited_scene_frame == 0 && s.excited_vertical_offset == 0)
    &&& (s.phase_override matches Some(p) ==> s.phase == p)
}

/// `s` dwelling until `now + dwell_ms`.
pub open spec fn dwell_spec(s: AnimatorState, now: u64, dwell_ms: u64) -> AnimatorState {
    AnimatorState { action: Action::Dwelling { until: (now + dwell_ms) as u64 }, ..s }
}

/// The first frame of a sequence.
pub open spec fn sequence_start(kind: SequenceKind, now: u64) -> Action {
    Action::Sequence { kind, frame: 0, until: (now + frame_duration_spec(kind, 0)) as u64 }
}

/// A blink of `ms` milliseconds.
pub open spec fn blink(now: u64, ms: u64) -> Action {
    Action::Blinking { until: (now + ms) as u64 }
}

/// The action chosen after a dwell, from the action roll.
pub open spec fn chosen_action(phase: DayPhase, backup_running: bool, roll: u64, now: u64) -> Action {
    if backup_running {
        if roll < 3 {
            Action::Moving { target: PUPIL_LEFT }
        } else if roll < 6 {
            Action::Moving { target: PUPIL_RIGHT }
        } else if roll < 9 {
            Action::Moving { target: PUPIL_CENTER }
        } else {
            blink(now, 150)
        }
    } else {
        match phase {
            DayPhase::Morning => if roll < 4 {
                Action::Moving { target: PUPIL_CENTER }
            } else if roll < 6 {
                Action::Moving { target: PUPIL_LEFT }
            } else if roll < 8 {
                Action::Moving { target: PUPIL_RIGHT }
            } else if roll < 10 {
                blink(now, 300)
            } else {
                sequence_start(SequenceKind::Sip, now)
            },
            DayPhase::Day => if roll < 5 {
                Action::Moving { target: PUPIL_CENTER }
            } else if roll < 7 {
                Action::Moving { target: PUPIL_LEFT }
            } else if roll < 9 {
                Action::Moving { target: PUPIL_RIGHT }
            } else {
                blink(now, 200)
            },
            DayPhase::Evening => if roll < 4 {
                Action::Moving { target: PUPIL_CENTER }
            } else if roll == 4 {
                Action::Moving { target: PUPIL_LEFT }
            } else if roll == 5 {
                Action::Moving { target: PUPIL_RIGHT }
            } else if roll < 9 {
                blink(now, 450)
            } else if roll < 13 {
                sequence_start(SequenceKind::Yawn, now)
            } else {
                sequence_start(SequenceKind::Nod, now)
            },
            DayPhase::Night => sequence_start(SequenceKind::Sleep, now),
        }
    }
}

/// The state after a dwell ends: a new action, and while a backup runs the
/// excited scene flips and the face bounces by the bounce roll.
pub open spec fn choose_spec(s: AnimatorState, now: u64, d: Draws) -> AnimatorState {
    if s.backup_running {
        AnimatorState {
            excited_scene_frame: ((s.excited_scene_frame + 1) % 2) as u8,
            excited_vertical_offset: d.bounce as usize,
            action: chosen_action(s.phase, true, d.action, now),
            ..s
        }
    } else {
        AnimatorState { action: chosen_action(s.phase, false, d.action, now), ..s }
    }
}

/// One pupil step toward `target`, then a dwell once it is reached.
pub open spec fn move_spec(s: AnimatorState, target: usize, now: u64, d: Draws) -> AnimatorState {
    let p = if s.pupil_position < target {
        (s.pupil_position + 1) as usize
    } else if s.pupil_position > target {
        (s.pupil_position - 1) as usize
    } else {
        s.pupil_position
    };
    let moved = AnimatorState { pupil_position: p, ..s };
    if p == target {
        dwell_spec(moved, now, d.dwell_ms)
    } else {
        moved
    }
}

/// The next frame of a sequence, or a dwell after its last frame.
pub open spec fn advance_spec(
    s: AnimatorState,
    kind: SequenceKind,
    frame: u8,
    now: u64,
    d: Draws,
) -> AnimatorState {
    if frame + 1 >= frame_count_spec(kind) {
        dwell_spec(s, now, d.dwell_ms)
    } else {
        AnimatorState {
            action: Action::Sequence {
                kind,
                frame: (frame + 1) as u8,
                until: (now + frame_duration_spec(kind, (frame + 1) as u8)) as u64,
            },
            ..s
        }
    }
}

/// One animation tick. A change of phase or of backup activity recenters
/// the gaze and starts a dwell; otherwise the current action moves on when
/// its deadline has passed.
pub open spec fn step_spec(
    s: AnimatorState,
    backup_running: bool,
    clock_phase: DayPhase,
    now: u64,
    d: Draws,
) -> AnimatorState {
    let phase = effective_phase(s.phase_override, clock_phase);
    if phase != s.phase || backup_running != s.backup_running {
        dwell_spec(
            AnimatorState {
                phase,
                backup_running,
                pupil_position: PUPIL_CENTER,
                excited_scene_frame: 0,
                excited_vertical_offset: 0,
                ..s
            },
            now,
            d.dwell_ms,
        )
    } else {
        match s.action {
            Action::Moving { target } => move_spec(s, target, now, d),
            Action::Dwelling { until } => if now >= until {
                choose_spec(s, now, d)
            } else {
                s
            },
            Action::Blinking { until } => if now >= until {
                dwell_spec(s, now, d.dwell_ms)
            } else {
                s
            },
            Action::Sequence { kind, frame, until } => if now >= until {
                advance_spec(s, kind, frame, now, d)
            } else {
                s
            },
            Action::Mad { until } => if now >= until {
                dwell_spec(s, now, d.dwell_ms)
            } else {
                s
            },
        }
    }
}

/// The state right after start-up.
pub open spec fn initial_spec(
    phase_override: Option<DayPhase>,
    clock_phase: DayPhase,
    now: u64,
    dwell_ms: u64,
) -> AnimatorState {
    AnimatorState {
        phase: effective_phase(phase_override, clock_phase),
        pupil_position: PUPIL_CENTER,
        excited_scene_frame: 0,
        excited_vertical_offset: 0,
        action: Action::Dwelling { until: (now + dwell_ms) as u64 },
        phase_override,
        backup_running: false,
    }
}

// ---------------------------------------------------------------------------
// Outside calls
// ---------------------------------------------------------------------------

/// `rand::random_range(low..high)`: a value drawn from the thread-local
/// generator; all that is claimed is that it lies in `low..high` (rand
/// panics on an empty range, which `requires` excludes, and when the
/// operating system cannot seed the generator).
#[verifier::external_body]
fn random_in(low: u64, high: u64) -> (r: u64)
    requires
        low < high,
    ensures
        low <= r < high,
{
    rand::random_range(low..high)
}

/// The hour of the local wall clock, `chrono::Local::now().hour()`; all that
/// is claimed is that it lies in `0..24` (chrono panics when the system clock
/// reads a time before 1970).
#[verifier::external_body]
fn local_hour() -> (h: u32)
    ensures
        h < 24,
{
    chrono::Local::now().hour()
}

// ---------------------------------------------------------------------------
// Executable code
// ---------------------------------------------------------------------------

impl SequenceKind {
    /// The number of frames of the sequence.
    pub fn frame_count(self) -> (r: u8)
        ensures
            r == frame_count_spec(self),
    {
        match self {
            SequenceKind::Sip => 5,
            SequenceKind::Yawn | SequenceKind::Nod | SequenceKind::Sleep => 4,
        }
    }

    fn frame_duration(self, frame: u8) -> (r: u64)
        ensures
            r == frame_duration_spec(self, frame),
    {
        match (self, frame) {
            (SequenceKind::Sip, 0) => 600,
            (SequenceKind::Sip, 1 | 3) => 300,
            (SequenceKind::Sip, 2) => 900,
            (SequenceKind::Sip, _) => 400,
            (SequenceKind::Yawn, 0 | 3) => 350,
            (SequenceKind::Yawn, 1) => 500,
            (SequenceKind::Yawn, _) => 900,
            (SequenceKind::Nod, 0 | 3) => 500,
            (SequenceKind::Nod, _) => 1_000,
            (SequenceKind::Sleep, 0 | 3) => 1_200,
            (SequenceKind::Sleep, _) => 1_500,
        }
    }

    /// Sets the face for one frame of the sequence. A frame never changes
    /// the phase or the mood, only the first sip frame moves the gaze (to
    /// the mug, on the right), and frames past the end change nothing.
    pub fn apply_frame(self, frame: u8, pose: &mut FacePose)
        ensures
            *final(pose) == apply_frame_spec(self, frame, *old(pose)),
            final(pose).phase == old(pose).phase,
            final(pose).mood == old(pose).mood,
            final(pose).pupil_position == old(pose).pupil_position || (self is Sip && frame == 0
                && final(pose).pupil_position == PUPIL_RIGHT),
            frame >= frame_count_spec(self) ==> *final(pose) == *old(pose),
    {
        match (self, frame) {
            (SequenceKind::Sip, 0) => {
                pose.pupil_position = PUPIL_RIGHT;
                pose.eyes = EyeState::Open;
                pose.mouth = Mouth::Relaxed;
                pose.scene_frame = 0;
            },
            (SequenceKind::Sip, 1) => pose.scene_frame = 1,
            (SequenceKind::Sip, 2) => {
                pose.eyes = EyeState::Closed;
                pose.mouth = Mouth::Hidden;
                pose.scene_frame = 2;
            },
            (SequenceKind::Sip, 3) => {
                pose.eyes = EyeState::Open;
                pose.mouth = Mouth::Relaxed;
                pose.scene_frame = 1;
            },
            (SequenceKind::Sip, 4) => pose.scene_frame = 0,
            (SequenceKind::Yawn, 0) => pose.mouth = Mouth::SmallO,
            (SequenceKind::Yawn, 1 | 2) => {
                pose.eyes = EyeState::Closed;
                pose.mouth = Mouth::Yawn;
            },
            (SequenceKind::Yawn, 3) => {
                pose.eyes = EyeState::Open;
                pose.mouth = Mouth::SmallO;
            },
            (SequenceKind::Nod, 0) => pose.eyes = EyeState::Closed,
            (SequenceKind::Nod, 1 | 2) => {
                pose.eyes = EyeState::Closed;
                pose.vertical_offset = 1;
            },
            (SequenceKind::Nod, 3) => {
                pose.eyes = EyeState::Open;
                pose.vertical_offset = 0;
            },
            (SequenceKind::Sleep, 0) => {
                pose.eyes = EyeState::Closed;
                pose.mouth = Mouth::Sleeping;
                pose.vertical_offset = 0;
                pose.scene_frame = 0;
            },
            (SequenceKind::Sleep, 1) => {
                pose.mouth = Mouth::SleepingOpen;
                pose.scene_frame = 1;
                pose.vertical_offset = 1;
            },
            (SequenceKind::Sleep, 2) => {
                pose.mouth = Mouth::SleepingOpen;
                pose.scene_frame = 2;
            },
            (SequenceKind::Sleep, 3) => {
                pose.mouth = Mouth::Sleeping;
                pose.scene_frame = 0;
                pose.vertical_offset = 0;
            },
            _ => {},
        }
    }
}

/// The resting face of `phase`: open eyes with a relaxed mouth in the
/// morning and evening, a smile by day, closed eyes and a sleeping mouth at
/// night; gaze centered, no offset, normal mood.
pub fn default_pose(phase: DayPhase) -> (pose: FacePose)
    ensures
        pose == default_pose_spec(phase),
        pose.phase == phase,
        pose.eyes == EyeState::Closed <==> phase == DayPhase::Night,
        pose.pupil_position == PUPIL_CENTER,
        pose.mood == Mood::Normal,
        pose.vertical_offset == 0,
{
    let (eyes, mouth) = match phase {
        DayPhase::Morning => (EyeState::Open, Mouth::Relaxed),
        DayPhase::Day => (EyeState::Open, Mouth::Smile),
        DayPhase::Evening => (EyeState::Open, Mouth::Relaxed),
        DayPhase::Night => (EyeState::Closed, Mouth::Sleeping),
    };
    FacePose {
        phase,
        pupil_position: PUPIL_CENTER,
        eyes,
        mouth,
        vertical_offset: 0,
        scene_frame: 0,
        mood: Mood::Normal,
    }
}

/// Whether any backup path is running.
pub fn has_running_backup(status: &AlbertStatus) -> (r: bool)
    ensures
        r == backup_running_spec(*status),
        r <==> (status.backups.xps_to_al == BackupStatus::Running || status.backups.xps_to_bert == BackupStatus::Running || status.backups.al_to_bert == BackupStatus::Running),
{
    matches!(status.backups.xps_to_al, BackupStatus::Running) || matches!(
        status.backups.xps_to_bert,
        BackupStatus::Running
    ) || matches!(status.backups.al_to_bert, BackupStatus::Running)
}

/// The phase of a local hour.
pub fn phase_for_hour(hour: u8) -> (phase: DayPhase)
    ensures
        phase == phase_for_hour_spec(hour),
{
    if 6 <= hour && hour < 11 {
        DayPhase::Morning
    } else if 11 <= hour && hour < 18 {
        DayPhase::Day
    } else if 18 <= hour && hour < 22 {
        DayPhase::Evening
    } else {
        DayPhase::Night
    }
}

/// The phase of the current local hour.
pub fn current_phase() -> (phase: DayPhase)
    ensures
        exists|hour: u8| hour < 24 && phase == phase_for_hour_spec(hour),
{
    let hour = local_hour();
    let h: u8 = hour as u8;
    phase_for_hour(h)
}

impl DayPhase {
    /// The phase named `name`, ignoring ASCII case: `morning`, `day`,
    /// `evening` or `night`.
    pub fn from_name(name: &str) -> (r: Option<DayPhase>)
        ensures
            r == (if ascii_lowercase(name@) == "morning"@ {
                Some(DayPhase::Morning)
            } else if ascii_lowercase(name@) == "day"@ {
                Some(DayPhase::Day)
            } else if ascii_lowercase(name@) == "evening"@ {
                Some(DayPhase::Evening)
            } else if ascii_lowercase(name@) == "night"@ {
                Some(DayPhase::Night)
            } else {
                None
            }),
    {
        let lower = lowercase(&chars_of(name));
        if same_as_str(&lower, "morning") {
            Some(DayPhase::Morning)
        } else if same_as_str(&lower, "day") {
            Some(DayPhase::Day)
        } else if same_as_str(&lower, "evening") {
            Some(DayPhase::Evening)
        } else if same_as_str(&lower, "night") {
            Some(DayPhase::Night)
        } else {
            None
        }
    }
}

/// A dwell length for `phase`, drawn at random.
fn random_dwell(phase: DayPhase, backup_running: bool) -> (ms: u64)
    ensures
        dwell_low(phase, backup_running) <= ms < dwell_high(phase, backup_running),
{
    if backup_running {
        random_in(200, 600)
    } else {
        match phase {
            DayPhase::Morning => random_in(1_200, 3_500),
            DayPhase::Day => random_in(800, 2_800),
            DayPhase::Evening => random_in(1_800, 4_500),
            DayPhase::Night => random_in(2_000, 4_000),
        }
    }
}

/// The draws for one update, each in the range that `phase` and the backup
/// activity use; the action roll is only drawn where there is a choice.
fn draw(phase: DayPhase, backup_running: bool) -> (d: Draws)
    ensures
        draws_valid(d, phase, backup_running),
{
    let action: u64 = if backup_running {
        random_in(0, 10)
    } else {
        match phase {
            DayPhase::Morning => random_in(0, 12),
            DayPhase::Day => random_in(0, 10),
            DayPhase::Evening => random_in(0, 14),
            DayPhase::Night => 0,
        }
    };
    let bounce: u64 = if backup_running {
        random_in(0, 2)
    } else {
        0
    };
    let dwell_ms = random_dwell(phase, backup_running);
    Draws { action, bounce, dwell_ms }
}

fn start_blink(now_ms: u64, duration_millis: u64) -> (a: Action)
    requires
        now_ms <= CLOCK_LIMIT_MS,
        duration_millis <= 10_000,
    ensures
        a == blink(now_ms, duration_millis),
{
    Action::Blinking { until: now_ms + duration_millis }
}

fn start_sequence(kind: SequenceKind, now_ms: u64) -> (a: Action)
    requires
        now_ms <= CLOCK_LIMIT_MS,
    ensures
        a == sequence_start(kind, now_ms),
{
    Action::Sequence { kind, frame: 0, until: now_ms + kind.frame_duration(0) }
}

impl Animator {
    /// Every animator keeps the state invariant.
    #[verifier::type_invariant]
    spec fn well_formed(self) -> bool {
        state_wf(self@)
    }

    /// The start-up state: the override's phase, or else `clock_phase`; gaze
    /// centered, no backup, dwelling for `dwell_ms`.
    pub fn starting(
        phase_override: Option<DayPhase>,
        clock_phase: DayPhase,
        now_ms: u64,
        dwell_ms: u64,
    ) -> (a: Animator)
        requires
            now_ms <= CLOCK_LIMIT_MS,
            dwell_low(effective_phase(phase_override, clock_phase), false) <= dwell_ms
                < dwell_high(effective_phase(phase_override, clock_phase), false),
        ensures
            a@ == initial_spec(phase_override, clock_phase, now_ms, dwell_ms),
            state_wf(a@),
    {
        let phase = match phase_override {
            Some(p) => p,
            None => clock_phase,
        };
        Animator {
            phase,
            pupil_position: PUPIL_CENTER,
            excited_scene_frame: 0,
            excited_vertical_offset: 0,
            action: Action::Dwelling { until: now_ms + dwell_ms },
            phase_override,
            backup_running: false,
        }
    }

    /// A new animator at monotonic time `now_ms`: the override's phase, or
    /// else the phase of the local hour, dwelling for a random time.
    pub fn new(phase_override: Option<DayPhase>, now_ms: u64) -> (a: Animator)
        requires
            now_ms <= CLOCK_LIMIT_MS,
        ensures
            state_wf(a@),
            exists|hour: u8, dwell_ms: u64|
                #![trigger initial_spec(phase_override, phase_for_hour_spec(hour), now_ms, dwell_ms)]
                hour < 24 && dwell_low(effective_phase(phase_override, phase_for_hour_spec(hour)), false)
                    <= dwell_ms < dwell_high(
                    effective_phase(phase_override, phase_for_hour_spec(hour)),
                    false,
                ) && a@ == initial_spec(phase_override, phase_for_hour_spec(hour), now_ms, dwell_ms),
    {
        let clock_phase = match phase_override {
            Some(p) => p,
            None => current_phase(),
        };
        let ghost hour: u8 = match phase_override {
            Some(_) => 0u8,
            None => choose|h: u8| h < 24 && clock_phase == phase_for_hour_spec(h),
        };
        let phase = match phase_override {
            Some(p) => p,
            None => clock_phase,
        };
        let dwell_ms = random_dwell(phase, false);
        let a = Animator::starting(phase_override, clock_phase, now_ms, dwell_ms);
        assert(a@ == initial_spec(phase_override, phase_for_hour_spec(hour), now_ms, dwell_ms));
        a
    }

    /// The face to draw now. Whatever calls came before, it shows the
    /// overriding phase when there is one, and the pupils stay inside the
    /// eyes.
    pub fn pose(&self) -> (pose: FacePose)
        ensures
            pose == pose_spec(self@),
            state_wf(self@),
            self@.phase_override matches Some(p) ==> pose.phase == p,
            PUPIL_LEFT <= pose.pupil_position <= PUPIL_RIGHT,
            pose.vertical_offset <= 1,
    {
        proof {
            use_type_invariant(self);
            lemma_pose_in_bounds(self@);
        }
        let mut pose = default_pose(self.phase);
        pose.pupil_position = self.pupil_position;

        if self.backup_running {
            pose.eyes = EyeState::Open;
            pose.mouth = Mouth::Happy;
            pose.mood = Mood::Excited;
            pose.scene_frame = self.excited_scene_frame;
            pose.vertical_offset = self.excited_vertical_offset;
        }
        let ghost start = pose;
        match self.action {
            Action::Blinking { .. } => pose.eyes = EyeState::Closed,
            Action::Sequence { kind, frame, .. } => {
                let mut current_frame: u16 = 0;
                while current_frame <= frame as u16
                    invariant
                        current_frame <= frame as u16 + 1,
                        pose == apply_frames(kind, current_frame as nat, start),
                    decreases frame as u16 + 1 - current_frame,
                {
                    kind.apply_frame(current_frame as u8, &mut pose);
                    current_frame = current_frame + 1;
                }
            },
            Action::Mad { .. } => pose.mood = Mood::Mad,
            Action::Moving { .. } | Action::Dwelling { .. } => {},
        }
        pose
    }

    /// A touch makes Albert mad for one second.
    pub fn touched(&mut self, now_ms: u64)
        requires
            now_ms <= CLOCK_LIMIT_MS,
        ensures
            final(self)@ == (AnimatorState {
                action: Action::Mad { until: (now_ms + 1000) as u64 },
                ..old(self)@
            }),
            state_wf(final(self)@),
    {
        proof {
            use_type_invariant(&*self);
        }
        self.action = Action::Mad { until: now_ms + 1000 };
    }

    fn start_dwelling(&mut self, now_ms: u64, dwell_ms: u64)
        requires
            now_ms <= CLOCK_LIMIT_MS,
            dwell_ms <= 10_000,
        ensures
            final(self)@ == dwell_spec(old(self)@, now_ms, dwell_ms),
    {
        proof {
            use_type_invariant(&*self);
        }
        self.action = Action::Dwelling { until: now_ms + dwell_ms };
    }

    fn update_movement(&mut self, target: usize, now_ms: u64, dwell_ms: u64)
        requires
            now_ms <= CLOCK_LIMIT_MS,
            dwell_ms <= 10_000,
            PUPIL_LEFT <= target <= PUPIL_RIGHT,
        ensures
            final(self)@ == move_spec(
                old(self)@,
                target,
                now_ms,
                Draws { action: 0, bounce: 0, dwell_ms },
            ),
    {
        proof {
            use_type_invariant(&*self);
        }
        let position = self.pupil_position;
        self.pupil_position = if position < target {
            position + 1
        } else if position > target {
            position - 1
        } else {
            position
        };
        if self.pupil_position == target {
            self.start_dwelling(now_ms, dwell_ms);
        }
    }

    fn choose_action(&mut self, now_ms: u64, draws: Draws) -> (a: Action)
        requires
            now_ms <= CLOCK_LIMIT_MS,
            draws_valid(draws, old(self)@.phase, old(self)@.backup_running),
        ensures
            (AnimatorState { action: a, ..final(self)@ }) == choose_spec(old(self)@, now_ms, draws),
            final(self)@.action == old(self)@.action,
    {
        proof {
            use_type_invariant(&*self);
        }
        if self.backup_running {
            self.excited_scene_frame = (self.excited_scene_frame + 1) % 2;
            self.excited_vertical_offset = draws.bounce as usize;
            let roll = draws.action;
            return if roll < 3 {
                Action::Moving { target: PUPIL_LEFT }
            } else if roll < 6 {
                Action::Moving { target: PUPIL_RIGHT }
            } else if roll < 9 {
                Action::Moving { target: PUPIL_CENTER }
            } else {
                start_blink(now_ms, 150)
            };
        }
        let roll = draws.action;
        match self.phase {
            DayPhase::Morning => if roll < 4 {
                Action::Moving { target: PUPIL_CENTER }
            } else if roll < 6 {
                Action::Moving { target: PUPIL_LEFT }
            } else if roll < 8 {
                Action::Moving { target: PUPIL_RIGHT }
            } else if roll < 10 {
                start_blink(now_ms, 300)
            } else {
                start_sequence(SequenceKind::Sip, now_ms)
            },
            DayPhase::Day => if roll < 5 {
                Action::Moving { target: PUPIL_CENTER }
            } else if roll < 7 {
                Action::Moving { target: PUPIL_LEFT }
            } else if roll < 9 {
                Action::Moving { target: PUPIL_RIGHT }
            } else {
                start_blink(now_ms, 200)
            },
            DayPhase::Evening => if roll < 4 {
                Action::Moving { target: PUPIL_CENTER }
            } else if roll == 4 {
                Action::Moving { target: PUPIL_LEFT }
            } else if roll == 5 {
                Action::Moving { target: PUPIL_RIGHT }
            } else if roll < 9 {
                start_blink(now_ms, 450)
            } else if roll < 13 {
                start_sequence(SequenceKind::Yawn, now_ms)
            } else {
                start_sequence(SequenceKind::Nod, now_ms)
            },
            DayPhase::Night => start_sequence(SequenceKind::Sleep, now_ms),
        }
    }

    fn advance_sequence(&mut self, kind: SequenceKind, frame: u8, now_ms: u64, dwell_ms: u64)
        requires
            now_ms <= CLOCK_LIMIT_MS,
            dwell_ms <= 10_000,
            frame < frame_count_spec(kind),
            !old(self)@.backup_running,
        ensures
            final(self)@ == advance_spec(
                old(self)@,
                kind,
                frame,
                now_ms,
                Draws { action: 0, bounce: 0, dwell_ms },
            ),
    {
        proof {
            use_type_invariant(&*self);
        }
        let next_frame = frame + 1;
        if next_frame >= kind.frame_count() {
            self.start_dwelling(now_ms, dwell_ms);
            return;
        }
        self.action = Action::Sequence {
            kind,
            frame: next_frame,
            until: now_ms + kind.frame_duration(next_frame),
        };
    }

    /// One animation tick at monotonic time `now_ms`, given whether a backup
    /// is running, the phase of the wall clock and the draws.
    pub fn step(&mut self, backup_running: bool, clock_phase: DayPhase, now_ms: u64, draws: Draws)
        requires
            now_ms <= CLOCK_LIMIT_MS,
            draws_valid(
                draws,
                effective_phase(old(self)@.phase_override, clock_phase),
                backup_running,
            ),
        ensures
            final(self)@ == step_spec(old(self)@, backup_running, clock_phase, now_ms, draws),
            state_wf(final(self)@),
    {
        proof {
            use_type_invariant(&*self);
        }
        let phase = match self.phase_override {
            Some(p) => p,
            None => clock_phase,
        };
        if phase != self.phase || backup_running != self.backup_running {
            self.excited_scene_frame = 0;
            self.excited_vertical_offset = 0;
            self.start_dwelling(now_ms, draws.dwell_ms);
            self.pupil_position = PUPIL_CENTER;
            self.phase = phase;
            self.backup_running = backup_running;
            return;
        }
        match self.action {
            Action::Moving { target } => self.update_movement(target, now_ms, draws.dwell_ms),
            Action::Dwelling { until } => {
                if now_ms >= until {
                    let action = self.choose_action(now_ms, draws);
                    self.action = action;
                }
            },
            Action::Blinking { until } => {
                if now_ms >= until {
                    self.start_dwelling(now_ms, draws.dwell_ms);
                }
            },
            Action::Sequence { kind, frame, until } => {
                if now_ms >= until {
                    self.advance_sequence(kind, frame, now_ms, draws.dwell_ms);
                }
            },
            Action::Mad { until } => {
                if now_ms >= until {
                    self.start_dwelling(now_ms, draws.dwell_ms);
                }
            },
        }
    }

    /// One animation tick at monotonic time `now_ms`: reads whether a backup
    /// is running, the phase (the override, else the local hour) and the dice,
    /// then steps.
    pub fn update(&mut self, status: &AlbertStatus, now_ms: u64)
        requires
            now_ms <= CLOCK_LIMIT_MS,
        ensures
            state_wf(final(self)@),
            final(self)@.backup_running <==> (status.backups.xps_to_al == BackupStatus::Running || status.backups.xps_to_bert == BackupStatus::Running || status.backups.al_to_bert == BackupStatus::Running),
            (status.backups.xps_to_al == BackupStatus::Running || status.backups.xps_to_bert == BackupStatus::Running || status.backups.al_to_bert == BackupStatus::Running) ==> pose_spec(final(self)@).mouth == Mouth::Happy && (pose_spec(
                final(self)@,
            ).mood == Mood::Excited || pose_spec(final(self)@).mood == Mood::Mad),
            !(status.backups.xps_to_al == BackupStatus::Running || status.backups.xps_to_bert == BackupStatus::Running || status.backups.al_to_bert == BackupStatus::Running) ==> pose_spec(final(self)@).mood != Mood::Excited,
            exists|hour: u8, draws: Draws|
                #![trigger step_spec(old(self)@, backup_running_spec(*status), phase_for_hour_spec(hour), now_ms, draws)]
                hour < 24 && draws_valid(
                    draws,
                    effective_phase(old(self)@.phase_override, phase_for_hour_spec(hour)),
                    backup_running_spec(*status),
                ) && final(self)@ == step_spec(
                    old(self)@,
                    backup_running_spec(*status),
                    phase_for_hour_spec(hour),
                    now_ms,
                    draws,
                ),
    {
        proof {
            use_type_invariant(&*self);
        }
        let backup_running = has_running_backup(status);
        let clock_phase = match self.phase_override {
            Some(p) => p,
            None => current_phase(),
        };
        let ghost hour: u8 = match self.phase_override {
            Some(_) => 0u8,
            None => choose|h: u8| h < 24 && clock_phase == phase_for_hour_spec(h),
        };
        let phase = match self.phase_override {
            Some(p) => p,
            None => clock_phase,
        };
        let draws = draw(phase, backup_running);
        let ghost before = self@;
        self.step(backup_running, clock_phase, now_ms, draws);
        assert(self@ == step_spec(
            before,
            backup_running_spec(*status),
            phase_for_hour_spec(hour),
            now_ms,
            draws,
        ));
        proof {
            lemma_step_tracks_inputs(before, backup_running, clock_phase, now_ms, draws);
            lemma_any_running_path_counts(*status);
            if backup_running {
                lemma_backup_excitement(self@);
            } else {
                lemma_calm_without_backup(self@);
            }
        }
    }
}

// ---------------------------------------------------------------------------
// Laws
// ---------------------------------------------------------------------------

/// The state after a touch at `now`.
pub open spec fn touched_spec(s: AnimatorState, now: u64) -> AnimatorState {
    AnimatorState { action: Action::Mad { until: (now + 1000) as u64 }, ..s }
}

/// Pupils never leave the eye, and between two ticks they move at most one
/// character; only a change of phase or of backup activity sends them back
/// to the center at once.
pub proof fn lemma_pupil_moves_one_step(
    s: AnimatorState,
    backup_running: bool,
    clock_phase: DayPhase,
    now: u64,
    d: Draws,
)
    requires
        state_wf(s),
    ensures
        ({
            let t = step_spec(s, backup_running, clock_phase, now, d);
            &&& PUPIL_LEFT <= t.pupil_position <= PUPIL_RIGHT
            &&& (effective_phase(s.phase_override, clock_phase) == s.phase && backup_running
                == s.backup_running) ==> (t.pupil_position <= s.pupil_position + 1
                && s.pupil_position <= t.pupil_position + 1)
            &&& (effective_phase(s.phase_override, clock_phase) != s.phase || backup_running
                != s.backup_running) ==> t.pupil_position == PUPIL_CENTER
        }),
{
}

/// A running backup takes over the face: whatever else happens, Albert
/// smiles broadly and is excited (or mad, right after a touch), with open
/// eyes unless he is blinking, and bounces at most one row.
pub proof fn lemma_backup_excitement(s: AnimatorState)
    requires
        state_wf(s),
        s.backup_running,
    ensures
        pose_spec(s).mouth == Mouth::Happy,
        pose_spec(s).mood == Mood::Excited || pose_spec(s).mood == Mood::Mad,
        pose_spec(s).mood == Mood::Mad <==> s.action is Mad,
        pose_spec(s).eyes == EyeState::Closed <==> s.action is Blinking,
        pose_spec(s).vertical_offset <= 1,
        pose_spec(s).phase == s.phase,
{
}

/// Without a running backup Albert is never excited.
pub proof fn lemma_calm_without_backup(s: AnimatorState)
    requires
        state_wf(s),
        !s.backup_running,
    ensures
        pose_spec(s).mood != Mood::Excited,
        pose_spec(s).mood == Mood::Mad <==> s.action is Mad,
{
    match s.action {
        Action::Sequence { kind, frame, .. } => {
            lemma_frames_keep_mood(kind, frame as nat + 1, pose_spec(AnimatorState { action: Action::Moving { target: PUPIL_CENTER }, ..s }));
        },
        _ => {},
    }
}

proof fn lemma_frames_keep_mood(kind: SequenceKind, count: nat, pose: FacePose)
    ensures
        apply_frames(kind, count, pose).mood == pose.mood,
        apply_frames(kind, count, pose).phase == pose.phase,
    decreases count,
{
    if count > 0 {
        lemma_frames_keep_mood(kind, (count - 1) as nat, pose);
    }
}

/// A touch makes Albert mad, and he stays mad for a full second of ticks
/// as long as neither the phase nor the backup activity changes.
pub proof fn lemma_touch_makes_mad(
    s: AnimatorState,
    touch_ms: u64,
    backup_running: bool,
    clock_phase: DayPhase,
    now: u64,
    d: Draws,
)
    requires
        state_wf(s),
        touch_ms <= CLOCK_LIMIT_MS,
        touch_ms <= now < touch_ms + 1000,
        effective_phase(s.phase_override, clock_phase) == s.phase,
        backup_running == s.backup_running,
    ensures
        pose_spec(touched_spec(s, touch_ms)).mood == Mood::Mad,
        step_spec(touched_spec(s, touch_ms), backup_running, clock_phase, now, d) == touched_spec(
            s,
            touch_ms,
        ),
        pose_spec(step_spec(touched_spec(s, touch_ms), backup_running, clock_phase, now, d)).mood
            == Mood::Mad,
{
}

/// At night, with no backup running, every dwell ends in the sleep
/// sequence.
pub proof fn lemma_night_sleeps(s: AnimatorState, clock_phase: DayPhase, now: u64, d: Draws)
    requires
        state_wf(s),
        !s.backup_running,
        s.phase == DayPhase::Night,
        effective_phase(s.phase_override, clock_phase) == DayPhase::Night,
        s.action matches Action::Dwelling { until } && now >= until,
    ensures
        step_spec(s, false, clock_phase, now, d).action == sequence_start(SequenceKind::Sleep, now),
{
}

/// A change of phase or of backup activity resets the face: centered gaze,
/// no excitement left over, and a fresh dwell.
pub proof fn lemma_change_resets(
    s: AnimatorState,
    backup_running: bool,
    clock_phase: DayPhase,
    now: u64,
    d: Draws,
)
    requires
        state_wf(s),
        effective_phase(s.phase_override, clock_phase) != s.phase || backup_running
            != s.backup_running,
    ensures
        ({
            let t = step_spec(s, backup_running, clock_phase, now, d);
            &&& t.phase == effective_phase(s.phase_override, clock_phase)
            &&& t.backup_running == backup_running
            &&& t.pupil_position == PUPIL_CENTER
            &&& t.excited_scene_frame == 0
            &&& t.excited_vertical_offset == 0
            &&& t.action == Action::Dwelling { until: (now + d.dwell_ms) as u64 }
        }),
{
}

/// A sequence plays its frames one at a time: an expired frame is followed
/// by the next one, and the last one by a dwell.
pub proof fn lemma_sequence_advances(
    s: AnimatorState,
    kind: SequenceKind,
    frame: u8,
    until: u64,
    now: u64,
    d: Draws,
)
    requires
        state_wf(s),
        s.action == (Action::Sequence { kind, frame, until }),
        now >= until,
        effective_phase(s.phase_override, s.phase) == s.phase,
    ensures
        ({
            let t = step_spec(s, s.backup_running, s.phase, now, d);
            &&& frame + 1 < frame_count_spec(kind) ==> t.action == (Action::Sequence {
                kind,
                frame: (frame + 1) as u8,
                until: (now + frame_duration_spec(kind, (frame + 1) as u8)) as u64,
            })
            &&& frame + 1 == frame_count_spec(kind) ==> t.action == (Action::Dwelling {
                until: (now + d.dwell_ms) as u64,
            })
        }),
{
}

/// When a sequence completes, the phase's resting expression returns.
pub proof fn lemma_sequence_end_restores(
    s: AnimatorState,
    kind: SequenceKind,
    until: u64,
    clock_phase: DayPhase,
    now: u64,
    d: Draws,
)
    requires
        state_wf(s),
        !s.backup_running,
        s.action == (Action::Sequence { kind, frame: (frame_count_spec(kind) - 1) as u8, until }),
        now >= until,
        effective_phase(s.phase_override, clock_phase) == s.phase,
    ensures
        pose_spec(step_spec(s, false, clock_phase, now, d)) == (FacePose {
            pupil_position: s.pupil_position,
            ..default_pose_spec(s.phase)
        }),
{
}

/// The number of action rolls below `n` that move the gaze to `target`.
pub open spec fn gaze_rolls(phase: DayPhase, backup_running: bool, target: usize, n: nat) -> nat
    decreases n,
{
    if n == 0 {
        0
    } else {
        gaze_rolls(phase, backup_running, target, (n - 1) as nat) + if chosen_action(
            phase,
            backup_running,
            (n - 1) as u64,
            0,
        ) == (Action::Moving { target }) {
            1nat
        } else {
            0nat
        }
    }
}

/// Each of the three backup paths counts: a status is a running backup
/// exactly when at least one of XPS→Al, XPS→Bert and Al→Bert is running.
pub proof fn lemma_any_running_path_counts(status: AlbertStatus)
    ensures
        status.backups.xps_to_al == BackupStatus::Running ==> backup_running_spec(status),
        status.backups.xps_to_bert == BackupStatus::Running ==> backup_running_spec(status),
        status.backups.al_to_bert == BackupStatus::Running ==> backup_running_spec(status),
        status.backups.xps_to_al != BackupStatus::Running && status.backups.xps_to_bert
            != BackupStatus::Running && status.backups.al_to_bert != BackupStatus::Running
            ==> !backup_running_spec(status),
{
}

/// Albert's resting face: eyes closed only at night and open in every other
/// phase; a smile only by day, the sleeping mouth only at night, a relaxed
/// mouth in the morning and evening; gaze centered, no offset, calm.
pub proof fn lemma_resting_face(phase: DayPhase)
    ensures
        default_pose_spec(phase).phase == phase,
        default_pose_spec(phase).eyes == EyeState::Open <==> phase != DayPhase::Night,
        default_pose_spec(phase).mouth == Mouth::Smile <==> phase == DayPhase::Day,
        default_pose_spec(phase).mouth == Mouth::Sleeping <==> phase == DayPhase::Night,
        default_pose_spec(phase).mouth == Mouth::Relaxed <==> (phase == DayPhase::Morning || phase
            == DayPhase::Evening),
        default_pose_spec(phase).pupil_position == PUPIL_CENTER,
        default_pose_spec(phase).vertical_offset == 0,
        default_pose_spec(phase).mood == Mood::Normal,
{
}

/// While Albert rests or looks around without a backup running, his face is
/// the resting face of the phase at his current gaze: in particular his
/// eyes are open in every phase but the night.
pub proof fn lemma_idle_face(s: AnimatorState)
    requires
        state_wf(s),
        !s.backup_running,
        s.action is Dwelling || s.action is Moving,
    ensures
        pose_spec(s).eyes == EyeState::Open <==> s.phase != DayPhase::Night,
        pose_spec(s).mood == Mood::Normal,
        pose_spec(s).pupil_position == s.pupil_position,
        pose_spec(s).phase == s.phase,
{
}

/// While a backup runs, the excited eyes roam: of the equally likely action
/// rolls, as many send the gaze left as right and as many again to the
/// center (the lowest three rolls look left, the next three right), and
/// the one left over is a quick blink.
pub proof fn lemma_excited_gaze_roams(phase: DayPhase, now: u64)
    ensures
        action_range(phase, true) == 10,
        gaze_rolls(phase, true, PUPIL_LEFT, 10) == 3,
        gaze_rolls(phase, true, PUPIL_RIGHT, 10) == 3,
        gaze_rolls(phase, true, PUPIL_CENTER, 10) == 3,
        chosen_action(phase, true, 9, now) is Blinking,
        forall|roll: u64|
            roll < 3 ==> #[trigger] chosen_action(phase, true, roll, now) == (Action::Moving {
                target: PUPIL_LEFT,
            }),
        forall|roll: u64|
            3 <= roll < 6 ==> #[trigger] chosen_action(phase, true, roll, now) == (Action::Moving {
                target: PUPIL_RIGHT,
            }),
{
    reveal_with_fuel(gaze_rolls, 11);
}

/// Albert usually looks ahead: in every awake phase, more of the equally
/// likely action rolls send the gaze to the center than to either side.
pub proof fn lemma_center_is_most_common(phase: DayPhase)
    requires
        phase != DayPhase::Night,
    ensures
        gaze_rolls(phase, false, PUPIL_CENTER, action_range(phase, false)) > gaze_rolls(
            phase,
            false,
            PUPIL_LEFT,
            action_range(phase, false),
        ),
        gaze_rolls(phase, false, PUPIL_CENTER, action_range(phase, false)) > gaze_rolls(
            phase,
            false,
            PUPIL_RIGHT,
            action_range(phase, false),
        ),
{
    reveal_with_fuel(gaze_rolls, 15);
}

/// A running backup makes Albert livelier: every excited dwell is shorter
/// than any calm one.
pub proof fn lemma_excited_dwells_are_shorter(phase: DayPhase, other: DayPhase)
    ensures
        dwell_high(phase, true) <= dwell_low(other, false),
{
}

/// The animator follows its inputs: after a tick the phase is the
/// override's (or else the clock's) and the backup activity is the one
/// reported.
pub proof fn lemma_step_tracks_inputs(
    s: AnimatorState,
    backup_running: bool,
    clock_phase: DayPhase,
    now: u64,
    d: Draws,
)
    requires
        state_wf(s),
    ensures
        step_spec(s, backup_running, clock_phase, now, d).phase == effective_phase(
            s.phase_override,
            clock_phase,
        ),
        step_spec(s, backup_running, clock_phase, now, d).backup_running == backup_running,
        step_spec(s, backup_running, clock_phase, now, d).phase_override == s.phase_override,
{
}

/// Dice are only consulted when an action completes: before its deadline an
/// action ignores them, and the gaze steps toward its target the same way
/// whatever they are.
pub proof fn lemma_draws_only_at_decisions(
    s: AnimatorState,
    clock_phase: DayPhase,
    now: u64,
    d1: Draws,
    d2: Draws,
)
    requires
        state_wf(s),
        effective_phase(s.phase_override, clock_phase) == s.phase,
    ensures
        match s.action {
            Action::Moving { .. } => step_spec(
                s,
                s.backup_running,
                clock_phase,
                now,
                d1,
            ).pupil_position == step_spec(s, s.backup_running, clock_phase, now, d2).pupil_position,
            Action::Dwelling { until } => now < until ==> step_spec(
                s,
                s.backup_running,
                clock_phase,
                now,
                d1,
            ) == s,
            Action::Blinking { until } => now < until ==> step_spec(
                s,
                s.backup_running,
                clock_phase,
                now,
                d1,
            ) == s,
            Action::Sequence { until, .. } => now < until ==> step_spec(
                s,
                s.backup_running,
                clock_phase,
                now,
                d1,
            ) == s,
            Action::Mad { until } => now < until ==> step_spec(
                s,
                s.backup_running,
                clock_phase,
                now,
                d1,
            ) == s,
        },
{
}

/// A frame of a sequence never changes the phase or the mood; only the
/// first sip frame moves the gaze (to the mug, on the right); frames past
/// the end of a sequence change nothing.
pub proof fn lemma_apply_frame_keeps(kind: SequenceKind, frame: u8, pose: FacePose)
    ensures
        apply_frame_spec(kind, frame, pose).phase == pose.phase,
        apply_frame_spec(kind, frame, pose).mood == pose.mood,
        apply_frame_spec(kind, frame, pose).pupil_position == pose.pupil_position || (kind is Sip
            && frame == 0 && apply_frame_spec(kind, frame, pose).pupil_position == PUPIL_RIGHT),
        frame >= frame_count_spec(kind) ==> apply_frame_spec(kind, frame, pose) == pose,
{
}

proof fn lemma_frames_keep_gaze_in_eye(kind: SequenceKind, count: nat, pose: FacePose)
    requires
        PUPIL_LEFT <= pose.pupil_position <= PUPIL_RIGHT,
    ensures
        PUPIL_LEFT <= apply_frames(kind, count, pose).pupil_position <= PUPIL_RIGHT,
        apply_frames(kind, count, pose).phase == pose.phase,
    decreases count,
{
    if count > 0 {
        lemma_frames_keep_gaze_in_eye(kind, (count - 1) as nat, pose);
    }
}

/// The face always shows the animator's phase (so an override holds for
/// good), and the pupils never leave the eye interior.
pub proof fn lemma_pose_in_bounds(s: AnimatorState)
    requires
        state_wf(s),
    ensures
        pose_spec(s).phase == s.phase,
        s.phase_override matches Some(p) ==> pose_spec(s).phase == p,
        PUPIL_LEFT <= pose_spec(s).pupil_position <= PUPIL_RIGHT,
        pose_spec(s).vertical_offset <= 1,
{
    let base = FacePose { pupil_position: s.pupil_position, ..default_pose_spec(s.phase) };
    let p = if s.backup_running {
        FacePose {
            eyes: EyeState::Open,
            mouth: Mouth::Happy,
            mood: Mood::Excited,
            scene_frame: s.excited_scene_frame,
            vertical_offset: s.excited_vertical_offset,
            ..base
        }
    } else {
        base
    };
    match s.action {
        Action::Sequence { kind, frame, .. } => {
            lemma_frames_keep_gaze_in_eye(kind, frame as nat + 1, p);
            lemma_frames_keep_offset(kind, frame as nat + 1, p);
        },
        _ => {},
    }
}

proof fn lemma_frames_keep_offset(kind: SequenceKind, count: nat, pose: FacePose)
    requires
        pose.vertical_offset <= 1,
    ensures
        apply_frames(kind, count, pose).vertical_offset <= 1,
    decreases count,
{
    if count > 0 {
        lemma_frames_keep_offset(kind, (count - 1) as nat, pose);
    }
}

/// A touch at `touch_ms` makes Albert mad for exactly one second: a tick
/// before then keeps him mad, a tick at or after it turns the anger into a
/// dwell and the mood back to normal or excited.
pub proof fn lemma_touch_lasts_one_second(
    s: AnimatorState,
    touch_ms: u64,
    clock_phase: DayPhase,
    now: u64,
    d: Draws,
)
    requires
        state_wf(s),
        touch_ms <= CLOCK_LIMIT_MS,
        effective_phase(s.phase_override, clock_phase) == s.phase,
    ensures
        ({
            let t = step_spec(touched_spec(s, touch_ms), s.backup_running, clock_phase, now, d);
            &&& now < touch_ms + 1000 ==> pose_spec(t).mood == Mood::Mad
            &&& now >= touch_ms + 1000 ==> pose_spec(t).mood != Mood::Mad && t.action == (
            Action::Dwelling { until: (now + d.dwell_ms) as u64 })
        }),
{
}

} // verus!
