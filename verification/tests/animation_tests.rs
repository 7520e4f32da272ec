use chrono::Timelike;
use albert_eyes::animation::{
    default_pose, has_running_backup, phase_for_hour, Animator, DayPhase, Draws, EyeState, Mood,
    Mouth, SequenceKind, PUPIL_CENTER, PUPIL_LEFT, PUPIL_RIGHT,
};
use albert_eyes::status::{
    AlbertStatus, BackupStatus, BackupStatuses, DiskAvailability, DiskStatus, PiStatus,
};

fn quiet_status(backup: BackupStatus) -> AlbertStatus {
    let disk = DiskStatus {
        availability: DiskAvailability::Unknown,
        temperature_c: None,
        available_gib: None,
        total_gib: None,
        health: None,
    };
    AlbertStatus {
        al: disk,
        bert: disk,
        pi: PiStatus { temperature_c: None, ram_percent: None },
        backups: BackupStatuses {
            xps_to_al: BackupStatus::Unavailable,
            xps_to_bert: backup,
            al_to_bert: BackupStatus::Current { age_minutes: 3 },
        },
    }
}

fn draws(action: u64, bounce: u64, dwell_ms: u64) -> Draws {
    Draws { action, bounce, dwell_ms }
}

#[test]
fn phase_boundaries() {
    let expected = [
        (0, DayPhase::Night),
        (5, DayPhase::Night),
        (6, DayPhase::Morning),
        (10, DayPhase::Morning),
        (11, DayPhase::Day),
        (17, DayPhase::Day),
        (18, DayPhase::Evening),
        (21, DayPhase::Evening),
        (22, DayPhase::Night),
        (23, DayPhase::Night),
    ];
    for (hour, phase) in expected {
        assert_eq!(phase_for_hour(hour), phase);
    }
}

#[test]
fn phase_names_ignore_case() {
    assert_eq!(DayPhase::from_name("morning"), Some(DayPhase::Morning));
    assert_eq!(DayPhase::from_name("DAY"), Some(DayPhase::Day));
    assert_eq!(DayPhase::from_name("Evening"), Some(DayPhase::Evening));
    assert_eq!(DayPhase::from_name("nIgHt"), Some(DayPhase::Night));
    assert_eq!(DayPhase::from_name("noon"), None);
    assert_eq!(DayPhase::from_name(" day"), None);
    assert_eq!(DayPhase::from_name(""), None);
}

#[test]
fn resting_faces() {
    let night = default_pose(DayPhase::Night);
    assert_eq!(night.eyes, EyeState::Closed);
    assert_eq!(night.mouth, Mouth::Sleeping);
    let day = default_pose(DayPhase::Day);
    assert_eq!(day.eyes, EyeState::Open);
    assert_eq!(day.mouth, Mouth::Smile);
    assert_eq!(day.pupil_position, PUPIL_CENTER);
    assert_eq!(default_pose(DayPhase::Morning).mouth, Mouth::Relaxed);
    assert_eq!(default_pose(DayPhase::Evening).mouth, Mouth::Relaxed);
    assert_eq!(day.mood, Mood::Normal);
}

#[test]
fn running_backup_is_detected() {
    assert!(has_running_backup(&quiet_status(BackupStatus::Running)));
    assert!(!has_running_backup(&quiet_status(BackupStatus::Stale { age_minutes: 9 })));
}

#[test]
fn override_wins_over_clock() {
    let a = Animator::starting(Some(DayPhase::Day), DayPhase::Night, 1_000, 1_500);
    let pose = a.pose();
    assert_eq!(pose.phase, DayPhase::Day);
    assert_eq!(pose.mouth, Mouth::Smile);
    assert_eq!(pose.pupil_position, PUPIL_CENTER);
}

#[test]
fn gaze_moves_one_step_at_a_time() {
    let mut a = Animator::starting(None, DayPhase::Day, 0, 800);
    a.step(false, DayPhase::Day, 799, draws(5, 0, 1_000));
    assert_eq!(a.pose().pupil_position, PUPIL_CENTER);
    // The dwell ends; roll 5 looks left.
    a.step(false, DayPhase::Day, 800, draws(5, 0, 1_000));
    assert_eq!(a.pose().pupil_position, PUPIL_CENTER);
    a.step(false, DayPhase::Day, 900, draws(0, 0, 1_000));
    assert_eq!(a.pose().pupil_position, 2);
    a.step(false, DayPhase::Day, 1_000, draws(0, 0, 1_000));
    assert_eq!(a.pose().pupil_position, PUPIL_LEFT);
    // Target reached: dwelling until 2000, the gaze holds.
    a.step(false, DayPhase::Day, 1_999, draws(7, 0, 1_000));
    assert_eq!(a.pose().pupil_position, PUPIL_LEFT);
    // Roll 7 looks right, one character per tick.
    a.step(false, DayPhase::Day, 2_000, draws(7, 0, 1_000));
    for expected in [2, 3, 4, 5, 5] {
        a.step(false, DayPhase::Day, 2_100, draws(0, 0, 1_000));
        assert_eq!(a.pose().pupil_position, expected);
    }
    assert_eq!(a.pose().pupil_position, PUPIL_RIGHT);
}

#[test]
fn day_blink_is_brief() {
    let mut a = Animator::starting(None, DayPhase::Day, 0, 800);
    a.step(false, DayPhase::Day, 800, draws(9, 0, 1_000));
    assert_eq!(a.pose().eyes, EyeState::Closed);
    a.step(false, DayPhase::Day, 999, draws(0, 0, 1_000));
    assert_eq!(a.pose().eyes, EyeState::Closed);
    a.step(false, DayPhase::Day, 1_000, draws(0, 0, 1_000));
    assert_eq!(a.pose().eyes, EyeState::Open);
}

#[test]
fn touch_makes_albert_mad_for_a_second() {
    let mut a = Animator::starting(None, DayPhase::Day, 0, 800);
    a.touched(5_000);
    assert_eq!(a.pose().mood, Mood::Mad);
    a.step(false, DayPhase::Day, 5_999, draws(0, 0, 1_000));
    assert_eq!(a.pose().mood, Mood::Mad);
    a.step(false, DayPhase::Day, 6_000, draws(0, 0, 1_000));
    assert_eq!(a.pose().mood, Mood::Normal);
}

#[test]
fn backup_makes_albert_excited_even_at_night() {
    let mut a = Animator::starting(None, DayPhase::Night, 0, 2_000);
    assert_eq!(a.pose().eyes, EyeState::Closed);
    a.step(true, DayPhase::Night, 10, draws(0, 1, 300));
    let pose = a.pose();
    assert_eq!(pose.mood, Mood::Excited);
    assert_eq!(pose.mouth, Mouth::Happy);
    assert_eq!(pose.eyes, EyeState::Open);
    assert_eq!(pose.vertical_offset, 0);
    assert_eq!(pose.scene_frame, 0);
    // The dwell ends: the scene flips and the face bounces.
    a.step(true, DayPhase::Night, 310, draws(4, 1, 300));
    let pose = a.pose();
    assert_eq!(pose.scene_frame, 1);
    assert_eq!(pose.vertical_offset, 1);
    assert_eq!(pose.mood, Mood::Excited);
    // The backup stops: back to sleep, calm and centered.
    a.step(false, DayPhase::Night, 320, draws(0, 0, 2_000));
    let pose = a.pose();
    assert_eq!(pose.mood, Mood::Normal);
    assert_eq!(pose.eyes, EyeState::Closed);
    assert_eq!(pose.pupil_position, PUPIL_CENTER);
    assert_eq!(pose.vertical_offset, 0);
    assert_eq!(pose.scene_frame, 0);
}

#[test]
fn night_sleep_cycle() {
    let mut a = Animator::starting(None, DayPhase::Night, 0, 2_000);
    a.step(false, DayPhase::Night, 2_000, draws(0, 0, 3_000));
    let p = a.pose();
    assert_eq!((p.eyes, p.mouth, p.scene_frame), (EyeState::Closed, Mouth::Sleeping, 0));
    assert_eq!(p.vertical_offset, 0);
    a.step(false, DayPhase::Night, 3_200, draws(0, 0, 3_000));
    let p = a.pose();
    assert_eq!((p.mouth, p.scene_frame, p.vertical_offset), (Mouth::SleepingOpen, 1, 1));
    a.step(false, DayPhase::Night, 4_700, draws(0, 0, 3_000));
    let p = a.pose();
    assert_eq!((p.mouth, p.scene_frame, p.vertical_offset), (Mouth::SleepingOpen, 2, 1));
    a.step(false, DayPhase::Night, 6_200, draws(0, 0, 3_000));
    let p = a.pose();
    assert_eq!((p.mouth, p.scene_frame, p.vertical_offset), (Mouth::Sleeping, 0, 0));
    // The last frame ends in a dwell with the resting night face.
    a.step(false, DayPhase::Night, 7_400, draws(0, 0, 3_000));
    assert_eq!(a.pose(), default_pose(DayPhase::Night));
}

#[test]
fn morning_sip_sequence() {
    let mut a = Animator::starting(None, DayPhase::Morning, 0, 1_200);
    a.step(false, DayPhase::Morning, 1_200, draws(10, 0, 2_000));
    let p = a.pose();
    assert_eq!(p.pupil_position, PUPIL_RIGHT);
    assert_eq!((p.mouth, p.scene_frame), (Mouth::Relaxed, 0));
    a.step(false, DayPhase::Morning, 1_800, draws(0, 0, 2_000));
    assert_eq!(a.pose().scene_frame, 1);
    a.step(false, DayPhase::Morning, 2_100, draws(0, 0, 2_000));
    let p = a.pose();
    assert_eq!((p.eyes, p.mouth, p.scene_frame), (EyeState::Closed, Mouth::Hidden, 2));
    a.step(false, DayPhase::Morning, 3_000, draws(0, 0, 2_000));
    let p = a.pose();
    assert_eq!((p.eyes, p.mouth, p.scene_frame), (EyeState::Open, Mouth::Relaxed, 1));
    a.step(false, DayPhase::Morning, 3_300, draws(0, 0, 2_000));
    assert_eq!(a.pose().scene_frame, 0);
    a.step(false, DayPhase::Morning, 3_700, draws(0, 0, 2_000));
    assert_eq!(a.pose(), default_pose(DayPhase::Morning));
}

#[test]
fn evening_yawn_and_nod() {
    let mut a = Animator::starting(None, DayPhase::Evening, 0, 1_800);
    a.step(false, DayPhase::Evening, 1_800, draws(9, 0, 2_000));
    assert_eq!(a.pose().mouth, Mouth::SmallO);
    a.step(false, DayPhase::Evening, 2_150, draws(0, 0, 2_000));
    assert_eq!((a.pose().eyes, a.pose().mouth), (EyeState::Closed, Mouth::Yawn));
    let mut b = Animator::starting(None, DayPhase::Evening, 0, 1_800);
    b.step(false, DayPhase::Evening, 1_800, draws(13, 0, 2_000));
    assert_eq!(b.pose().eyes, EyeState::Closed);
    b.step(false, DayPhase::Evening, 2_300, draws(0, 0, 2_000));
    assert_eq!(b.pose().vertical_offset, 1);
}

#[test]
fn phase_change_resets_the_gaze() {
    let mut a = Animator::starting(None, DayPhase::Day, 0, 800);
    a.step(false, DayPhase::Day, 800, draws(7, 0, 1_000));
    a.step(false, DayPhase::Day, 900, draws(0, 0, 1_000));
    assert_eq!(a.pose().pupil_position, 4);
    a.step(false, DayPhase::Evening, 950, draws(0, 0, 2_000));
    let p = a.pose();
    assert_eq!(p.phase, DayPhase::Evening);
    assert_eq!(p.pupil_position, PUPIL_CENTER);
}

#[test]
fn random_updates_stay_in_bounds() {
    let mut a = Animator::new(Some(DayPhase::Evening), 0);
    let calm = quiet_status(BackupStatus::Unavailable);
    let busy = quiet_status(BackupStatus::Running);
    let mut previous = a.pose().pupil_position;
    for tick in 0..2_000u64 {
        let status = if (tick / 500) % 2 == 1 { &busy } else { &calm };
        a.update(status, tick * 100);
        let pose = a.pose();
        assert_eq!(pose.phase, DayPhase::Evening);
        assert!(PUPIL_LEFT <= pose.pupil_position && pose.pupil_position <= PUPIL_RIGHT);
        assert!(pose.pupil_position + 1 >= previous && previous + 1 >= pose.pupil_position
            || pose.pupil_position == PUPIL_CENTER);
        if (tick / 500) % 2 == 1 {
            assert_eq!(pose.mouth, Mouth::Happy);
            assert_ne!(pose.mood, Mood::Normal);
        } else {
            assert_ne!(pose.mood, Mood::Excited);
        }
        previous = pose.pupil_position;
    }
}

#[test]
fn new_uses_the_clock_without_override() {
    let a = Animator::new(None, 0);
    let pose = a.pose();
    assert_eq!(pose.pupil_position, PUPIL_CENTER);
    assert_eq!(pose.mood, Mood::Normal);
}

#[test]
fn center_is_most_common_roll() {
    let phases = [
        (DayPhase::Morning, 12u64, 1_200u64),
        (DayPhase::Day, 10, 800),
        (DayPhase::Evening, 14, 1_800),
    ];
    for (phase, range, dwell) in phases {
        let (mut center, mut left, mut right) = (0, 0, 0);
        for roll in 0..range {
            let mut a = Animator::starting(None, phase, 0, dwell);
            a.step(false, phase, dwell, draws(roll, 0, dwell));
            let chosen = a.pose();
            a.step(false, phase, dwell, draws(0, 0, dwell));
            let pose = a.pose();
            match pose.pupil_position {
                2 => left += 1,
                4 => right += 1,
                3 if chosen == default_pose(phase) && pose == default_pose(phase) => center += 1,
                _ => {}
            }
        }
        assert!(center > left && center > right, "{phase:?}: {center} {left} {right}");
    }
}

#[test]
fn dice_are_ignored_before_a_deadline() {
    let mut a = Animator::starting(None, DayPhase::Evening, 0, 3_000);
    for (tick, roll) in [(100u64, 13u64), (1_000, 0), (2_999, 9)] {
        a.step(false, DayPhase::Evening, tick, draws(roll, 1, 4_000));
        assert_eq!(a.pose(), default_pose(DayPhase::Evening));
    }
}

#[test]
fn new_follows_the_local_hour() {
    let hour = chrono::Local::now().hour() as u8;
    let a = Animator::new(None, 0);
    assert_eq!(a.pose().phase, phase_for_hour(hour));
}

#[test]
fn the_dice_vary() {
    let mut a = Animator::new(Some(DayPhase::Day), 0);
    let calm = quiet_status(BackupStatus::Unavailable);
    let mut seen = [false; 6];
    for tick in 0..3_000u64 {
        a.update(&calm, tick * 100);
        seen[a.pose().pupil_position] = true;
    }
    assert!(seen[PUPIL_LEFT] && seen[PUPIL_CENTER] && seen[PUPIL_RIGHT]);
}

#[test]
fn override_holds_whatever_happens() {
    let mut a = Animator::new(Some(DayPhase::Morning), 0);
    let busy = quiet_status(BackupStatus::Running);
    for tick in 0..500u64 {
        if tick % 37 == 0 {
            a.touched(tick * 100);
        }
        a.update(&busy, tick * 100);
        assert_eq!(a.pose().phase, DayPhase::Morning);
    }
}

#[test]
fn sleep_frames_settle_and_rise() {
    let mut pose = default_pose(DayPhase::Night);
    assert_eq!(SequenceKind::Sleep.frame_count(), 4);
    SequenceKind::Sleep.apply_frame(0, &mut pose);
    assert_eq!((pose.eyes, pose.mouth, pose.vertical_offset), (EyeState::Closed, Mouth::Sleeping, 0));
    SequenceKind::Sleep.apply_frame(1, &mut pose);
    assert_eq!((pose.mouth, pose.vertical_offset, pose.scene_frame), (Mouth::SleepingOpen, 1, 1));
    SequenceKind::Sleep.apply_frame(2, &mut pose);
    assert_eq!((pose.mouth, pose.vertical_offset, pose.scene_frame), (Mouth::SleepingOpen, 1, 2));
    SequenceKind::Sleep.apply_frame(3, &mut pose);
    assert_eq!((pose.mouth, pose.vertical_offset, pose.scene_frame), (Mouth::Sleeping, 0, 0));
    assert_eq!(pose.phase, DayPhase::Night);
}

#[test]
fn only_the_first_sip_frame_moves_the_gaze() {
    let mut pose = default_pose(DayPhase::Morning);
    pose.pupil_position = PUPIL_LEFT;
    SequenceKind::Sip.apply_frame(0, &mut pose);
    assert_eq!(pose.pupil_position, PUPIL_RIGHT);
    let before = pose;
    SequenceKind::Sip.apply_frame(SequenceKind::Sip.frame_count(), &mut pose);
    assert_eq!(pose, before);
    pose.pupil_position = PUPIL_CENTER;
    SequenceKind::Yawn.apply_frame(1, &mut pose);
    assert_eq!(pose.pupil_position, PUPIL_CENTER);
    assert_eq!(pose.mood, before.mood);
}
