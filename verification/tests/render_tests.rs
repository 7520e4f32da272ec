use albert_eyes::animation::{default_pose, DayPhase, EyeState, FacePose, Mood, Mouth};
use albert_eyes::render::{bar, render, CARD_WIDTH, FRAME_LINES};
use albert_eyes::status::{
    AlbertStatus, BackupStatus, BackupStatuses, DiskAvailability, DiskHealth, DiskStatus, PiStatus,
};

fn disk(
    availability: DiskAvailability,
    temperature_c: Option<u8>,
    available_gib: Option<u16>,
    total_gib: Option<u16>,
    health: Option<DiskHealth>,
) -> DiskStatus {
    DiskStatus { availability, temperature_c, available_gib, total_gib, health }
}

fn status(
    al: DiskStatus,
    bert: DiskStatus,
    pi_temperature: Option<u8>,
    ram: Option<u8>,
    backups: [BackupStatus; 3],
) -> AlbertStatus {
    AlbertStatus {
        al,
        bert,
        pi: PiStatus { temperature_c: pi_temperature, ram_percent: ram },
        backups: BackupStatuses {
            xps_to_al: backups[0],
            xps_to_bert: backups[1],
            al_to_bert: backups[2],
        },
    }
}

fn pose(eyes: EyeState, pupil: usize, mood: Mood, mouth: Mouth, offset: usize) -> FacePose {
    FacePose {
        phase: DayPhase::Day,
        pupil_position: pupil,
        eyes,
        mouth,
        vertical_offset: offset,
        scene_frame: 0,
        mood,
    }
}

fn check_frame(status: &AlbertStatus, pose: &FacePose, expected: &[&str]) {
    let frame = render(status, pose);
    let lines: Vec<&str> = frame.split('\n').collect();
    assert_eq!(lines.len(), FRAME_LINES);
    for (line, want) in lines.iter().zip(expected.iter()) {
        assert_eq!(line, want);
        assert_eq!(line.chars().count(), CARD_WIDTH);
    }
    assert_eq!(frame, expected.join("\n"));
}

#[test]
fn healthy_frame_matches_readme() {
    let s = status(
        disk(DiskAvailability::Mounted, Some(31), Some(831), Some(916), Some(DiskHealth::Healthy)),
        disk(DiskAvailability::Mounted, Some(26), Some(427), Some(476), Some(DiskHealth::Healthy)),
        Some(52),
        Some(24),
        [
            BackupStatus::Current { age_minutes: 25 },
            BackupStatus::Current { age_minutes: 1440 },
            BackupStatus::Current { age_minutes: 60 },
        ],
    );
    check_frame(&s, &default_pose(DayPhase::Day), &[
        "┌─────────────────────────────────────────────────────┐",
        "│                                                     │",
        "│               ╭───────╮     ╭───────╮               │",
        "│               │   ●   │     │   ●   │               │",
        "│               ╰───────╯     ╰───────╯               │",
        "│                        ╰───╯                        │",
        "│                                                     │",
        "│                                                     │",
        "│        AL    31°C  ✓   831G free  █████████░        │",
        "│        BERT  26°C  ✓   427G free  ████████░░        │",
        "│        PI    52°C  · RAM 24%                        │",
        "│     BKP XPS→AL 25m✓  XPS→BERT 1d✓  AL→BERT 1h✓      │",
        "└─────────────────────────────────────────────────────┘",
    ]);
}

#[test]
fn unknown_values_are_explicit() {
    let s = status(
        disk(DiskAvailability::Missing, None, None, None, None),
        disk(DiskAvailability::Mounted, None, None, None, None),
        None,
        None,
        [
            BackupStatus::Running,
            BackupStatus::Stale { age_minutes: 4000 },
            BackupStatus::Unavailable,
        ],
    );
    check_frame(&s, &pose(EyeState::Closed, 3, Mood::Normal, Mouth::Sleeping, 1), &[
        "┌─────────────────────────────────────────────────────┐",
        "│                                                     │",
        "│                                                     │",
        "│               ╭───────╮     ╭───────╮               │",
        "│               │ ───── │     │ ───── │               │",
        "│               ╰───────╯     ╰───────╯               │",
        "│                          ~                          │",
        "│                                                     │",
        "│                    AL    MISSING                    │",
        "│        BERT  --°C  ?   --G free  ░░░░░░░░░░         │",
        "│        PI    --°C  · RAM --%                        │",
        "│      BKP XPS→AL RUN!  XPS→BERT 2d!  AL→BERT ?       │",
        "└─────────────────────────────────────────────────────┘",
    ]);
}

#[test]
fn unmounted_unknown_and_short_ages() {
    let s = status(
        disk(DiskAvailability::Unmounted, None, None, None, None),
        disk(DiskAvailability::Unknown, Some(40), Some(1), Some(2), Some(DiskHealth::Sick)),
        Some(9),
        Some(100),
        [
            BackupStatus::Current { age_minutes: 0 },
            BackupStatus::Current { age_minutes: 59 },
            BackupStatus::Stale { age_minutes: 1439 },
        ],
    );
    check_frame(&s, &pose(EyeState::Open, 1, Mood::Mad, Mouth::Relaxed, 0), &[
        "┌─────────────────────────────────────────────────────┐",
        "│                                                     │",
        "│               ╲───────╱     ╲───────╱               │",
        "│               │ ●     │     │ ●     │               │",
        "│               ╰───────╯     ╰───────╯               │",
        "│                         ╰─╯                         │",
        "│                                                     │",
        "│                                                     │",
        "│                   AL    UNMOUNTED                   │",
        "│                    BERT  UNKNOWN                    │",
        "│        PI    9°C   · RAM 100%                       │",
        "│    BKP XPS→AL now✓  XPS→BERT 59m✓  AL→BERT 23h!     │",
        "└─────────────────────────────────────────────────────┘",
    ]);
}

#[test]
fn extremes_still_fit_the_card() {
    let s = status(
        disk(DiskAvailability::Mounted, Some(80), Some(0), Some(0), Some(DiskHealth::Sick)),
        disk(DiskAvailability::Mounted, Some(5), Some(50), Some(0), None),
        Some(255),
        Some(0),
        [
            BackupStatus::Current { age_minutes: u32::MAX },
            BackupStatus::Running,
            BackupStatus::Running,
        ],
    );
    check_frame(&s, &pose(EyeState::Open, 9, Mood::Excited, Mouth::Happy, 7), &[
        "┌─────────────────────────────────────────────────────┐",
        "│                                                     │",
        "│                                                     │",
        "│               ╭───────╮     ╭───────╮               │",
        "│               │     ◉ │     │     ◉ │               │",
        "│               ╰───────╯     ╰───────╯               │",
        "│                       ╰─────╯                       │",
        "│                                                     │",
        "│         AL    80°C  !   0G free  ░░░░░░░░░░         │",
        "│        BERT  5°C   ?   50G free  ░░░░░░░░░░         │",
        "│        PI    255°C · RAM 0%                         │",
        "│  BKP XPS→AL 2982616d✓  XPS→BERT RUN!  AL→BERT RUN!  │",
        "└─────────────────────────────────────────────────────┘",
    ]);
}

#[test]
fn overfull_disk_shows_a_full_bar() {
    let s = status(
        disk(DiskAvailability::Mounted, Some(30), Some(200), Some(100), None),
        disk(DiskAvailability::Mounted, Some(30), Some(109), Some(100), None),
        None,
        None,
        [BackupStatus::Unavailable; 3],
    );
    check_frame(&s, &default_pose(DayPhase::Day), &[
        "┌─────────────────────────────────────────────────────┐",
        "│                                                     │",
        "│               ╭───────╮     ╭───────╮               │",
        "│               │   ●   │     │   ●   │               │",
        "│               ╰───────╯     ╰───────╯               │",
        "│                        ╰───╯                        │",
        "│                                                     │",
        "│                                                     │",
        "│        AL    30°C  ?   200G free  ██████████        │",
        "│        BERT  30°C  ?   109G free  ██████████        │",
        "│        PI    --°C  · RAM --%                        │",
        "│         BKP XPS→AL ?  XPS→BERT ?  AL→BERT ?         │",
        "└─────────────────────────────────────────────────────┘",
    ]);
}

#[test]
fn bar_grows_with_free_space() {
    let backups = [BackupStatus::Unavailable; 3];
    let mut previous = 0;
    for available in 0..=100u16 {
        let d = disk(DiskAvailability::Mounted, None, Some(available), Some(100), None);
        let frame = render(&status(d, d, None, None, backups), &default_pose(DayPhase::Day));
        let al_row = frame.split('\n').nth(8).unwrap();
        let filled = al_row.chars().filter(|c| *c == '█').count();
        let empty = al_row.chars().filter(|c| *c == '░').count();
        assert_eq!(filled + empty, 10);
        assert_eq!(filled, (available as usize) / 10);
        assert!(filled >= previous);
        previous = filled;
    }
}

#[test]
fn backup_preview_marks_one_path_running() {
    let observed = BackupStatuses {
        xps_to_al: BackupStatus::Current { age_minutes: 5 },
        xps_to_bert: BackupStatus::Unavailable,
        al_to_bert: BackupStatus::Stale { age_minutes: 3000 },
    };
    let b = BackupStatuses::with_preview(observed, Some("xps-to-bert".to_string()));
    assert_eq!(b.xps_to_al, BackupStatus::Current { age_minutes: 5 });
    assert_eq!(b.xps_to_bert, BackupStatus::Running);
    assert_eq!(b.al_to_bert, BackupStatus::Stale { age_minutes: 3000 });
    assert_eq!(BackupStatuses::with_preview(observed, None), observed);
    let upper = BackupStatuses::with_preview(observed, Some("AL-TO-BERT".to_string()));
    assert_eq!(upper, observed);
    let al = BackupStatuses::with_preview(observed, Some("al-to-bert".to_string()));
    assert_eq!(al.al_to_bert, BackupStatus::Running);
}

#[test]
fn face_follows_the_pose_and_telemetry_stays_put() {
    let s = status(
        disk(DiskAvailability::Missing, None, None, None, None),
        disk(DiskAvailability::Missing, None, None, None, None),
        None,
        None,
        [BackupStatus::Unavailable; 3],
    );
    let awake = render(&s, &default_pose(DayPhase::Day));
    let asleep = render(&s, &default_pose(DayPhase::Night));
    let a: Vec<&str> = awake.split('\n').collect();
    let b: Vec<&str> = asleep.split('\n').collect();
    assert_ne!(a[3], b[3]);
    assert_eq!(a[8..], b[8..]);
    for left in 1..=5usize {
        let p = pose(EyeState::Open, left, Mood::Normal, Mouth::Smile, 0);
        let frame = render(&s, &p);
        let row = frame.split('\n').nth(3).unwrap();
        let eye: Vec<char> = row.chars().skip(17).take(7).collect();
        assert_eq!(eye.iter().position(|c| *c == '●'), Some(left));
    }
}

#[test]
fn bar_cells_follow_free_share() {
    assert_eq!(bar(5, 10), "█████░░░░░");
    assert_eq!(bar(831, 916), "█████████░");
    assert_eq!(bar(0, 10), "░░░░░░░░░░");
    assert_eq!(bar(7, 0), "░░░░░░░░░░");
    assert_eq!(bar(11, 10), "██████████");
    assert_eq!(bar(u16::MAX, 1).chars().count(), 10);
}

#[test]
fn pi_row_lines_up_with_disk_rows() {
    let s = status(
        disk(DiskAvailability::Mounted, Some(31), Some(831), Some(916), Some(DiskHealth::Healthy)),
        disk(DiskAvailability::Mounted, Some(7), Some(100), Some(200), Some(DiskHealth::Sick)),
        Some(52),
        Some(24),
        [BackupStatus::Unavailable, BackupStatus::Unavailable, BackupStatus::Unavailable],
    );
    let frame = render(&s, &default_pose(DayPhase::Day));
    let lines: Vec<&str> = frame.lines().collect();
    let label = |l: &str| l.chars().position(|c| c != '│' && c != ' ').unwrap();
    assert_eq!(label(lines[8]), 9);
    assert_eq!(label(lines[9]), 9);
    assert_eq!(label(lines[10]), 9);
}
