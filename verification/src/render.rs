//! Turns Albert's status into one fixed-size terminal frame.
use vstd::prelude::*;
use crate::animation::{EyeState, FacePose, Mood, Mouth};
use crate::status::{AlbertStatus, BackupStatus, DiskAvailability, DiskHealth, DiskStatus};
use crate::text::{
    chars_of, decimal, lemma_lines_last, lemma_lines_step, lines, pad_right, push_chars,
    push_decimal, push_padded, push_piece, push_repeat, push_str,
    repeat, string_from_chars,
};

verus! {

/// The width of the card, borders included.
pub const CARD_WIDTH: usize = 55;

/// The width inside the two side borders.
pub const INNER_WIDTH: usize = 53;

/// The number of cells of a capacity bar.
pub const BAR_WIDTH: usize = 10;

/// The number of lines of a frame.
pub const FRAME_LINES: usize = 13;

/// The number of rows of the face canvas.
pub const FACE_LINES: usize = 7;

/// The left margin of the readings block: the column at which the Pi row
/// starts, the same as that of a centered disk row showing a mounted disk
/// with a three-digit free amount.
pub const DATA_INDENT: usize = 8;

/// Where the dashboard is shown.
#[derive(Clone, Copy, Debug, PartialEq, Eq)]
pub enum DisplayMode {
    Pc,
    Screen,
}

// ---------------------------------------------------------------------------
// Specification
// ---------------------------------------------------------------------------

/// At most the first `INNER_WIDTH` characters of `content`.
pub open spec fn clipped(content: Seq<char>) -> Seq<char> {
    if content.len() <= INNER_WIDTH {
        content
    } else {
        content.take(INNER_WIDTH as int)
    }
}

/// A card row: `content` cut to the inner width, padded with spaces and
/// framed by the side borders.
pub open spec fn row_text(content: Seq<char>) -> Seq<char> {
    seq!['│'] + pad_right(clipped(content), INNER_WIDTH as nat) + seq!['│']
}

/// The spaces that center `content` inside the card.
pub open spec fn centering(content: Seq<char>) -> nat {
    if content.len() >= INNER_WIDTH {
        0
    } else {
        ((INNER_WIDTH - content.len()) / 2) as nat
    }
}

/// A card row with `content` centered.
pub open spec fn centered_row_text(content: Seq<char>) -> Seq<char> {
    row_text(repeat(' ', centering(content)) + content)
}

/// The column of the pupil inside the seven-character eye interior,
/// kept inside the eye.
pub open spec fn gaze_column(pupil_position: usize) -> nat {
    if pupil_position < 1 {
        1
    } else if pupil_position > 5 {
        5
    } else {
        pupil_position as nat
    }
}

/// Whether the face is drawn one row lower (nodding, sleeping, bouncing).
pub open spec fn lowered(vertical_offset: usize) -> bool {
    vertical_offset >= 1
}

/// The pupil: wide while excited.
pub open spec fn pupil_char(mood: Mood) -> char {
    if mood == Mood::Excited {
        '◉'
    } else {
        '●'
    }
}

/// The top of an eye: slanted brows when mad.
pub open spec fn eye_top(mood: Mood) -> Seq<char> {
    if mood == Mood::Mad {
        "╲───────╱"@
    } else {
        "╭───────╮"@
    }
}

/// The middle of an eye: a lid line when closed, else the pupil at its
/// gaze column.
pub open spec fn eye_middle(pose: FacePose) -> Seq<char> {
    match pose.eyes {
        EyeState::Closed => "│ ───── │"@,
        EyeState::Open => seq!['│'] + repeat(' ', gaze_column(pose.pupil_position)) + seq![
            pupil_char(pose.mood),
        ] + repeat(' ', (6 - gaze_column(pose.pupil_position)) as nat) + seq!['│'],
    }
}

/// Both eyes, five columns apart.
pub open spec fn eye_pair(eye: Seq<char>) -> Seq<char> {
    eye + "     "@ + eye
}

/// The mouth shapes; hidden behind the mug while sipping.
pub open spec fn mouth_text(mouth: Mouth) -> Seq<char> {
    match mouth {
        Mouth::Smile => "╰───╯"@,
        Mouth::Happy => "╰─────╯"@,
        Mouth::Relaxed => "╰─╯"@,
        Mouth::SmallO => "o"@,
        Mouth::Yawn => "◯"@,
        Mouth::Sleeping => "~"@,
        Mouth::SleepingOpen => "o"@,
        Mouth::Hidden => ""@,
    }
}

/// The eyes and the mouth, top to bottom.
pub open spec fn face_features(pose: FacePose) -> Seq<Seq<char>> {
    seq![
        centered_row_text(eye_pair(eye_top(pose.mood))),
        centered_row_text(eye_pair(eye_middle(pose))),
        centered_row_text(eye_pair("╰───────╯"@)),
        centered_row_text(mouth_text(pose.mouth)),
    ]
}

/// The seven rows of Albert's face for a pose: the features start on the
/// second row, or on the third when the face is lowered.
pub open spec fn face_lines(pose: FacePose) -> Seq<Seq<char>> {
    let blank = row_text(Seq::empty());
    if lowered(pose.vertical_offset) {
        seq![blank, blank] + face_features(pose) + seq![blank]
    } else {
        seq![blank] + face_features(pose) + seq![blank, blank]
    }
}

/// The percentage of free space, 0 for an unknown total.
pub open spec fn available_percent(available: u16, total: u16) -> nat {
    if total == 0 {
        0
    } else {
        (available as nat * 100) / (total as nat)
    }
}

/// The number of filled bar cells; full when the free space reaches the
/// total (or reports more).
pub open spec fn bar_fill(available: u16, total: u16) -> nat {
    let f = available_percent(available, total) * BAR_WIDTH as nat / 100;
    if f > BAR_WIDTH {
        BAR_WIDTH as nat
    } else {
        f
    }
}

/// A bar whose filled part grows with the free space.
pub open spec fn bar_text(available: u16, total: u16) -> Seq<char> {
    repeat('█', bar_fill(available, total)) + repeat(
        '░',
        (BAR_WIDTH - bar_fill(available, total)) as nat,
    )
}

/// A temperature, or `--°C` when unknown.
pub open spec fn temperature_text(t: Option<u8>) -> Seq<char> {
    match t {
        Some(v) => decimal(v as nat) + "°C"@,
        None => "--°C"@,
    }
}

/// A percentage, or `--%` when unknown.
pub open spec fn percent_text(p: Option<u8>) -> Seq<char> {
    match p {
        Some(v) => decimal(v as nat) + "%"@,
        None => "--%"@,
    }
}

/// `✓` healthy, `!` sick, `?` unknown.
pub open spec fn health_text(h: Option<DiskHealth>) -> Seq<char> {
    match h {
        Some(DiskHealth::Healthy) => "✓"@,
        Some(DiskHealth::Sick) => "!"@,
        None => "?"@,
    }
}

/// Free space and its bar, or placeholders when either amount is unknown.
pub open spec fn capacity_text(available: Option<u16>, total: Option<u16>) -> Seq<char> {
    match (available, total) {
        (Some(a), Some(t)) => decimal(a as nat) + "G free  "@ + bar_text(a, t),
        _ => "--G free  ░░░░░░░░░░"@,
    }
}

/// The readings of a mounted disk: name, temperature, health, free space
/// and bar.
pub open spec fn mounted_disk_text(name: Seq<char>, disk: DiskStatus) -> Seq<char> {
    pad_right(name, 5) + " "@ + pad_right(temperature_text(disk.temperature_c), 5) + " "@
        + health_text(disk.health) + "   "@ + capacity_text(disk.available_gib, disk.total_gib)
}

/// The row of one disk.
pub open spec fn disk_row_text(name: Seq<char>, disk: DiskStatus) -> Seq<char> {
    match disk.availability {
        DiskAvailability::Mounted => centered_row_text(mounted_disk_text(name, disk)),
        DiskAvailability::Unmounted => centered_row_text(pad_right(name, 5) + " UNMOUNTED"@),
        DiskAvailability::Missing => centered_row_text(pad_right(name, 5) + " MISSING"@),
        DiskAvailability::Unknown => centered_row_text(pad_right(name, 5) + " UNKNOWN"@),
    }
}

/// A backup age: `now`, minutes, whole hours or whole days.
pub open spec fn backup_age_text(age_minutes: u32) -> Seq<char> {
    if age_minutes == 0 {
        "now"@
    } else if age_minutes < 60 {
        decimal(age_minutes as nat) + "m"@
    } else if age_minutes < 24 * 60 {
        decimal((age_minutes / 60u32) as nat) + "h"@
    } else {
        decimal((age_minutes / 1440u32) as nat) + "d"@
    }
}

/// The entry of one backup path.
pub open spec fn backup_text(status: BackupStatus) -> Seq<char> {
    match status {
        BackupStatus::Current { age_minutes } => backup_age_text(age_minutes) + "✓"@,
        BackupStatus::Running => "RUN!"@,
        BackupStatus::Stale { age_minutes } => backup_age_text(age_minutes) + "!"@,
        BackupStatus::Unavailable => "?"@,
    }
}

/// The Pi row's content.
pub open spec fn pi_text(status: AlbertStatus) -> Seq<char> {
    "PI    "@ + pad_right(temperature_text(status.pi.temperature_c), 5) + " · RAM "@
        + percent_text(status.pi.ram_percent)
}

/// The Pi row: its content starts at `DATA_INDENT`, aligned with the disk
/// readings above it.
pub open spec fn pi_row_text(status: AlbertStatus) -> Seq<char> {
    row_text(repeat(' ', DATA_INDENT as nat) + pi_text(status))
}

/// The backup row's content.
pub open spec fn backups_text(status: AlbertStatus) -> Seq<char> {
    "BKP XPS→AL "@ + backup_text(status.backups.xps_to_al) + "  XPS→BERT "@ + backup_text(
        status.backups.xps_to_bert,
    ) + "  AL→BERT "@ + backup_text(status.backups.al_to_bert)
}

/// The top border.
pub open spec fn top_border() -> Seq<char> {
    seq!['┌'] + repeat('─', INNER_WIDTH as nat) + seq!['┐']
}

/// The bottom border.
pub open spec fn bottom_border() -> Seq<char> {
    seq!['└'] + repeat('─', INNER_WIDTH as nat) + seq!['┘']
}

/// The lines of a frame, top to bottom.
pub open spec fn frame_lines(status: AlbertStatus, pose: FacePose) -> Seq<Seq<char>> {
    seq![top_border()] + face_lines(pose) + seq![
        disk_row_text("AL"@, status.al),
        disk_row_text("BERT"@, status.bert),
        pi_row_text(status),
        centered_row_text(backups_text(status)),
        bottom_border(),
    ]
}

/// Lines joined with line feeds.
pub open spec fn join_lines(lines: Seq<Seq<char>>) -> Seq<char>
    decreases lines.len(),
{
    if lines.len() == 0 {
        Seq::empty()
    } else if lines.len() == 1 {
        lines[0]
    } else {
        join_lines(lines.drop_last()) + seq!['\n'] + lines.last()
    }
}

/// The whole frame.
pub open spec fn frame_text(status: AlbertStatus, pose: FacePose) -> Seq<char> {
    join_lines(frame_lines(status, pose))
}

// ---------------------------------------------------------------------------
// Rows
// ---------------------------------------------------------------------------

fn row(content: &Vec<char>) -> (r: Vec<char>)
    ensures
        r@ == row_text(content@),
{
    let mut r: Vec<char> = Vec::new();
    r.push('│');
    let mut clip: Vec<char> = Vec::new();
    let mut i: usize = 0;
    while i < content.len() && i < INNER_WIDTH
        invariant
            i <= content.len(),
            i <= INNER_WIDTH,
            clip@ == content@.take(i as int),
        decreases content.len() - i,
    {
        clip.push(content[i]);
        i = i + 1;
    }
    assert(clip@ =~= clipped(content@));
    push_padded(&mut r, &clip, INNER_WIDTH);
    r.push('│');
    assert(r@ =~= row_text(content@));
    r
}

fn centered_row(content: &Vec<char>) -> (r: Vec<char>)
    ensures
        r@ == centered_row_text(content@),
{
    let padding: usize = if content.len() >= INNER_WIDTH {
        0
    } else {
        (INNER_WIDTH - content.len()) / 2
    };
    let mut line: Vec<char> = Vec::new();
    push_repeat(&mut line, ' ', padding);
    push_chars(&mut line, content);
    row(&line)
}

fn centered_str(content: &str) -> (r: Vec<char>)
    ensures
        r@ == centered_row_text(content@),
{
    let mut line: Vec<char> = Vec::new();
    push_str(&mut line, content);
    assert(line@ =~= content@);
    centered_row(&line)
}

fn eye_pair_row(eye: &Vec<char>) -> (r: Vec<char>)
    ensures
        r@ == centered_row_text(eye_pair(eye@)),
{
    let mut pair: Vec<char> = Vec::new();
    push_chars(&mut pair, eye);
    push_str(&mut pair, "     ");
    push_chars(&mut pair, eye);
    assert(pair@ =~= eye_pair(eye@));
    centered_row(&pair)
}

fn eye_middle_chars(pose: &FacePose) -> (r: Vec<char>)
    ensures
        r@ == eye_middle(*pose),
{
    let mut eye: Vec<char> = Vec::new();
    match pose.eyes {
        EyeState::Closed => {
            push_str(&mut eye, "│ ───── │");
        },
        EyeState::Open => {
            let column: usize = if pose.pupil_position < 1 {
                1
            } else if pose.pupil_position > 5 {
                5
            } else {
                pose.pupil_position
            };
            eye.push('│');
            push_repeat(&mut eye, ' ', column);
            let pupil = if pose.mood == Mood::Excited {
                '◉'
            } else {
                '●'
            };
            eye.push(pupil);
            push_repeat(&mut eye, ' ', 6 - column);
            eye.push('│');
        },
    }
    assert(eye@ =~= eye_middle(*pose));
    eye
}

fn mouth_row(mouth: Mouth) -> (r: Vec<char>)
    ensures
        r@ == centered_row_text(mouth_text(mouth)),
{
    let text = match mouth {
        Mouth::Smile => "╰───╯",
        Mouth::Happy => "╰─────╯",
        Mouth::Relaxed => "╰─╯",
        Mouth::SmallO => "o",
        Mouth::Yawn => "◯",
        Mouth::Sleeping => "~",
        Mouth::SleepingOpen => "o",
        Mouth::Hidden => "",
    };
    centered_str(text)
}

fn face(lines: &mut Vec<Vec<char>>, pose: &FacePose)
    ensures
        final(lines).deep_view() == old(lines).deep_view() + face_lines(*pose),
{
    let ghost start = lines.deep_view();
    let empty: Vec<char> = Vec::new();
    let lowered = pose.vertical_offset >= 1;
    push_piece(lines, row(&empty));
    if lowered {
        push_piece(lines, row(&empty));
    }
    let mut top: Vec<char> = Vec::new();
    if pose.mood == Mood::Mad {
        push_str(&mut top, "╲───────╱");
    } else {
        push_str(&mut top, "╭───────╮");
    }
    assert(top@ == eye_top(pose.mood));
    push_piece(lines, eye_pair_row(&top));
    push_piece(lines, eye_pair_row(&eye_middle_chars(pose)));
    let bottom = chars_of("╰───────╯");
    push_piece(lines, eye_pair_row(&bottom));
    push_piece(lines, mouth_row(pose.mouth));
    push_piece(lines, row(&empty));
    if !lowered {
        push_piece(lines, row(&empty));
    }
    assert(lines.deep_view() =~= start + face_lines(*pose));
}

proof fn lemma_percent_bound(available: u16, total: u16)
    requires
        total != 0,
    ensures
        (available as nat * 100) / (total as nat) <= available as nat * 100,
{
    let a = available as nat * 100;
    let t = total as nat;
    assert(a / t <= a) by (nonlinear_arith)
        requires
            t >= 1,
    ;
}

fn push_bar(out: &mut Vec<char>, available: u16, total: u16)
    ensures
        final(out)@ == old(out)@ + bar_text(available, total),
{
    let ghost start = out@;
    let percent: u32 = if total == 0 {
        0
    } else {
        proof {
            lemma_percent_bound(available, total);
        }
        (available as u32) * 100 / (total as u32)
    };
    assert(percent == available_percent(available, total));
    let computed: usize = (percent as usize) * BAR_WIDTH / 100;
    let filled: usize = if computed > BAR_WIDTH {
        BAR_WIDTH
    } else {
        computed
    };
    push_repeat(out, '█', filled);
    push_repeat(out, '░', BAR_WIDTH - filled);
    assert(out@ =~= start + bar_text(available, total));
}

/// The capacity bar of a disk: `BAR_WIDTH` cells, the filled part growing
/// with the share of free space and full once the free space reaches the
/// total.
pub fn bar(available_gib: u16, total_gib: u16) -> (r: String)
    ensures
        r@ == bar_text(available_gib, total_gib),
        r@.len() == BAR_WIDTH,
{
    let mut cells: Vec<char> = Vec::new();
    push_bar(&mut cells, available_gib, total_gib);
    assert(cells@ =~= bar_text(available_gib, total_gib));
    string_from_chars(&cells)
}

fn push_temperature(out: &mut Vec<char>, t: Option<u8>)
    ensures
        final(out)@ == old(out)@ + temperature_text(t),
{
    let ghost start = out@;
    match t {
        Some(v) => {
            push_decimal(out, v as u64);
            push_str(out, "°C");
        },
        None => push_str(out, "--°C"),
    }
    assert(out@ =~= start + temperature_text(t));
}

fn push_percent(out: &mut Vec<char>, p: Option<u8>)
    ensures
        final(out)@ == old(out)@ + percent_text(p),
{
    let ghost start = out@;
    match p {
        Some(v) => {
            push_decimal(out, v as u64);
            push_str(out, "%");
        },
        None => push_str(out, "--%"),
    }
    assert(out@ =~= start + percent_text(p));
}

fn disk_row(name: &str, disk: &DiskStatus) -> (r: Vec<char>)
    ensures
        r@ == disk_row_text(name@, *disk),
{
    let mut name_chars: Vec<char> = Vec::new();
    push_str(&mut name_chars, name);
    assert(name_chars@ =~= name@);
    let mut line: Vec<char> = Vec::new();
    push_padded(&mut line, &name_chars, 5);
    match disk.availability {
        DiskAvailability::Mounted => {
            let mut temperature: Vec<char> = Vec::new();
            push_temperature(&mut temperature, disk.temperature_c);
            assert(temperature@ =~= temperature_text(disk.temperature_c));
            push_str(&mut line, " ");
            push_padded(&mut line, &temperature, 5);
            push_str(&mut line, " ");
            match disk.health {
                Some(DiskHealth::Healthy) => push_str(&mut line, "✓"),
                Some(DiskHealth::Sick) => push_str(&mut line, "!"),
                None => push_str(&mut line, "?"),
            }
            push_str(&mut line, "   ");
            match (disk.available_gib, disk.total_gib) {
                (Some(available), Some(total)) => {
                    push_decimal(&mut line, available as u64);
                    push_str(&mut line, "G free  ");
                    push_bar(&mut line, available, total);
                },
                _ => push_str(&mut line, "--G free  ░░░░░░░░░░"),
            }
            let ghost expected = pad_right(name@, 5) + " "@ + pad_right(
                temperature_text(disk.temperature_c),
                5,
            ) + " "@ + health_text(disk.health) + "   "@ + capacity_text(
                disk.available_gib,
                disk.total_gib,
            );
            assert(line@ =~= expected);
        },
        DiskAvailability::Unmounted => {
            push_str(&mut line, " UNMOUNTED");
        },
        DiskAvailability::Missing => {
            push_str(&mut line, " MISSING");
        },
        DiskAvailability::Unknown => {
            push_str(&mut line, " UNKNOWN");
        },
    }
    centered_row(&line)
}

fn push_backup_age(out: &mut Vec<char>, age_minutes: u32)
    ensures
        final(out)@ == old(out)@ + backup_age_text(age_minutes),
{
    let ghost start = out@;
    if age_minutes == 0 {
        push_str(out, "now");
    } else if age_minutes < 60 {
        push_decimal(out, age_minutes as u64);
        push_str(out, "m");
    } else if age_minutes < 24 * 60 {
        push_decimal(out, (age_minutes / 60) as u64);
        push_str(out, "h");
    } else {
        push_decimal(out, (age_minutes / (24 * 60)) as u64);
        push_str(out, "d");
    }
    assert(out@ =~= start + backup_age_text(age_minutes));
}

fn push_backup(out: &mut Vec<char>, status: &BackupStatus)
    ensures
        final(out)@ == old(out)@ + backup_text(*status),
{
    let ghost start = out@;
    match status {
        BackupStatus::Current { age_minutes } => {
            push_backup_age(out, *age_minutes);
            push_str(out, "✓");
        },
        BackupStatus::Running => push_str(out, "RUN!"),
        BackupStatus::Stale { age_minutes } => {
            push_backup_age(out, *age_minutes);
            push_str(out, "!");
        },
        BackupStatus::Unavailable => push_str(out, "?"),
    }
    assert(out@ =~= start + backup_text(*status));
}

fn border(left: char, right: char) -> (r: Vec<char>)
    ensures
        r@ == seq![left] + repeat('─', INNER_WIDTH as nat) + seq![right],
{
    let mut r: Vec<char> = Vec::new();
    r.push(left);
    push_repeat(&mut r, '─', INNER_WIDTH);
    r.push(right);
    assert(r@ =~= seq![left] + repeat('─', INNER_WIDTH as nat) + seq![right]);
    r
}

fn join(lines: &Vec<Vec<char>>) -> (r: Vec<char>)
    ensures
        r@ == join_lines(lines.deep_view()),
{
    let mut r: Vec<char> = Vec::new();
    let mut i: usize = 0;
    while i < lines.len()
        invariant
            i <= lines.len(),
            r@ == join_lines(lines.deep_view().take(i as int)),
        decreases lines.len() - i,
    {
        let ghost prefix = lines.deep_view().take(i as int);
        let ghost next = lines.deep_view().take(i + 1);
        assert(next.drop_last() =~= prefix);
        assert(next.last() == lines@[i as int]@);
        if i > 0 {
            r.push('\n');
        }
        push_chars(&mut r, &lines[i]);
        i = i + 1;
    }
    assert(lines.deep_view().take(lines.len() as int) =~= lines.deep_view());
    r
}

/// Draws one frame: the top border, Albert's face in `pose`, the rows of Al
/// and Bert, the Pi row, the backup row and the bottom border, joined by
/// line feeds.
pub fn render(status: &AlbertStatus, pose: &FacePose) -> (frame: String)
    ensures
        frame@ == frame_text(*status, *pose),
{
    let mut lines: Vec<Vec<char>> = Vec::new();
    push_piece(&mut lines, border('┌', '┐'));
    face(&mut lines, pose);
    push_piece(&mut lines, disk_row("AL", &status.al));
    push_piece(&mut lines, disk_row("BERT", &status.bert));

    let mut pi: Vec<char> = Vec::new();
    push_repeat(&mut pi, ' ', DATA_INDENT);
    push_str(&mut pi, "PI    ");
    let mut temperature: Vec<char> = Vec::new();
    push_temperature(&mut temperature, status.pi.temperature_c);
    assert(temperature@ =~= temperature_text(status.pi.temperature_c));
    push_padded(&mut pi, &temperature, 5);
    push_str(&mut pi, " · RAM ");
    push_percent(&mut pi, status.pi.ram_percent);
    assert(pi@ =~= repeat(' ', DATA_INDENT as nat) + pi_text(*status));
    push_piece(&mut lines, row(&pi));

    let mut backups: Vec<char> = Vec::new();
    push_str(&mut backups, "BKP XPS→AL ");
    push_backup(&mut backups, &status.backups.xps_to_al);
    push_str(&mut backups, "  XPS→BERT ");
    push_backup(&mut backups, &status.backups.xps_to_bert);
    push_str(&mut backups, "  AL→BERT ");
    push_backup(&mut backups, &status.backups.al_to_bert);
    assert(backups@ =~= backups_text(*status));
    push_piece(&mut lines, centered_row(&backups));

    push_piece(&mut lines, border('└', '┘'));
    assert(lines.deep_view() =~= frame_lines(*status, *pose));
    let chars = join(&lines);
    string_from_chars(&chars)
}

// ---------------------------------------------------------------------------
// Laws
// ---------------------------------------------------------------------------

proof fn lemma_join_len(lines: Seq<Seq<char>>, w: nat)
    requires
        lines.len() > 0,
        forall|i: int| 0 <= i < lines.len() ==> #[trigger] lines[i].len() == w,
    ensures
        join_lines(lines).len() == lines.len() * w + lines.len() - 1,
    decreases lines.len(),
{
    if lines.len() > 1 {
        lemma_join_len(lines.drop_last(), w);
        assert(lines.len() * w == (lines.len() - 1) * w + w) by (nonlinear_arith);
    }
}

/// The frame never changes shape: whatever the status and the pose, it
/// has `FRAME_LINES` lines of exactly `CARD_WIDTH` characters, a top and a
/// bottom border, and side borders on every other line.
pub proof fn lemma_frame_geometry(status: AlbertStatus, pose: FacePose)
    ensures
        frame_lines(status, pose).len() == FRAME_LINES,
        forall|i: int|
            0 <= i < FRAME_LINES ==> #[trigger] frame_lines(status, pose)[i].len() == CARD_WIDTH,
        frame_lines(status, pose)[0] == top_border(),
        frame_lines(status, pose)[FRAME_LINES - 1] == bottom_border(),
        forall|i: int|
            0 < i < FRAME_LINES - 1 ==> #[trigger] frame_lines(status, pose)[i][0] == '│'
                && frame_lines(status, pose)[i][CARD_WIDTH - 1] == '│',
        frame_text(status, pose).len() == FRAME_LINES * CARD_WIDTH + FRAME_LINES - 1,
{
    let ls = frame_lines(status, pose);
    lemma_face_shape(pose);
    assert forall|i: int| 0 < i < FRAME_LINES - 1 implies is_row(#[trigger] ls[i]) by {
        if i < 8 {
            assert(ls[i] == face_lines(pose)[i - 1]);
        } else if i == 8 {
            lemma_disk_row_shape("AL"@, status.al);
        } else if i == 9 {
            lemma_disk_row_shape("BERT"@, status.bert);
        } else if i == 10 {
            lemma_row_shape(repeat(' ', DATA_INDENT as nat) + pi_text(status));
        } else {
            lemma_centered_shape(backups_text(status));
        }
    }
    assert forall|i: int| 0 <= i < FRAME_LINES implies #[trigger] ls[i].len() == CARD_WIDTH by {
        if 0 < i < FRAME_LINES - 1 {
            assert(is_row(ls[i]));
        }
    }
    lemma_join_len(ls, CARD_WIDTH as nat);
}

/// A card row: `CARD_WIDTH` characters between side borders.
pub open spec fn is_row(l: Seq<char>) -> bool {
    l.len() == CARD_WIDTH && l[0] == '│' && l[CARD_WIDTH - 1] == '│'
}

proof fn lemma_row_shape(content: Seq<char>)
    ensures
        is_row(row_text(content)),
{
}

proof fn lemma_centered_shape(content: Seq<char>)
    ensures
        is_row(centered_row_text(content)),
{
    lemma_row_shape(repeat(' ', centering(content)) + content);
}

proof fn lemma_disk_row_shape(name: Seq<char>, disk: DiskStatus)
    ensures
        is_row(disk_row_text(name, disk)),
{
    lemma_centered_shape(mounted_disk_text(name, disk));
    lemma_centered_shape(pad_right(name, 5) + " UNMOUNTED"@);
    lemma_centered_shape(pad_right(name, 5) + " MISSING"@);
    lemma_centered_shape(pad_right(name, 5) + " UNKNOWN"@);
}

proof fn lemma_face_shape(pose: FacePose)
    ensures
        face_lines(pose).len() == FACE_LINES,
        forall|i: int| 0 <= i < FACE_LINES ==> is_row(#[trigger] face_lines(pose)[i]),
{
    lemma_row_shape(Seq::empty());
    lemma_centered_shape(eye_pair(eye_top(pose.mood)));
    lemma_centered_shape(eye_pair(eye_middle(pose)));
    lemma_centered_shape(eye_pair("╰───────╯"@));
    lemma_centered_shape(mouth_text(pose.mouth));
}

/// The layout never moves: the borders and the face rows do not depend on
/// the telemetry, and the telemetry rows (Al, Bert, Pi, backups) do not
/// depend on the face.
pub proof fn lemma_fixed_layout(s1: AlbertStatus, s2: AlbertStatus, p1: FacePose, p2: FacePose)
    ensures
        forall|i: int|
            (0 <= i < 8 || i == FRAME_LINES - 1) ==> #[trigger] frame_lines(s1, p1)[i]
                == frame_lines(s2, p1)[i],
        forall|i: int|
            8 <= i < FRAME_LINES ==> #[trigger] frame_lines(s1, p1)[i] == frame_lines(s1, p2)[i],
{
    let a = frame_lines(s1, p1);
    let b = frame_lines(s2, p1);
    let c = frame_lines(s1, p2);
    let f = face_lines(p1);
    assert(f.len() == FACE_LINES) by {
        lemma_face_shape(p1);
    }
    assert(face_lines(p2).len() == FACE_LINES) by {
        lemma_face_shape(p2);
    }
    assert forall|i: int| (0 <= i < 8 || i == FRAME_LINES - 1) implies #[trigger] a[i] == b[i] by {
        if 1 <= i < 8 {
            assert(a[i] == f[i - 1]);
            assert(b[i] == f[i - 1]);
        }
    }
    assert forall|i: int| 8 <= i < FRAME_LINES implies #[trigger] a[i] == c[i] by {
    }
}

/// Open eyes show the pupil at the gaze column of the pose (counted from
/// the eye's left border), wide when excited; every eye row is nine
/// characters wide.
pub proof fn lemma_pupil_drawn(pose: FacePose)
    ensures
        eye_middle(pose).len() == 9,
        pose.eyes == EyeState::Open ==> eye_middle(pose)[gaze_column(pose.pupil_position) as int + 1]
            == pupil_char(pose.mood),
        pose.eyes == EyeState::Open ==> forall|j: int|
            1 <= j < 8 && j != gaze_column(pose.pupil_position) + 1 ==> #[trigger] eye_middle(
                pose,
            )[j] == ' ',
{
    reveal_strlit("│ ───── │");
}

/// A bar always has `BAR_WIDTH` cells, whatever the free space and total.
pub proof fn lemma_bar_width(available: u16, total: u16)
    ensures
        bar_text(available, total).len() == BAR_WIDTH,
{
}

/// The Pi row lines up with the disk readings: a mounted disk whose free
/// amount has three digits is centered with exactly `DATA_INDENT` spaces
/// before its name, and the Pi row puts its label at that same column.
pub proof fn lemma_pi_aligned_with_disks(name: Seq<char>, disk: DiskStatus, status: AlbertStatus)
    requires
        name.len() <= 5,
        disk.availability == DiskAvailability::Mounted,
        disk.available_gib matches Some(a) && 100 <= a <= 999,
        disk.total_gib is Some,
    ensures
        disk_row_text(name, disk) == row_text(
            repeat(' ', DATA_INDENT as nat) + mounted_disk_text(name, disk),
        ),
        pi_row_text(status) == row_text(repeat(' ', DATA_INDENT as nat) + pi_text(status)),
{
    reveal_strlit("°C");
    reveal_strlit("--°C");
    reveal_strlit(" ");
    reveal_strlit("   ");
    reveal_strlit("✓");
    reveal_strlit("!");
    reveal_strlit("?");
    reveal_strlit("G free  ");
    reveal_with_fuel(decimal, 3);
    let a = disk.available_gib->0;
    let t = disk.total_gib->0;
    lemma_bar_width(a, t);
    assert(decimal(a as nat).len() == 3);
    assert(temperature_text(disk.temperature_c).len() <= 5);
    assert(health_text(disk.health).len() == 1);
    assert(capacity_text(disk.available_gib, disk.total_gib).len() == 21);
    assert(mounted_disk_text(name, disk).len() == 37);
    assert(centering(mounted_disk_text(name, disk)) == DATA_INDENT);
}

/// Each mouth shape has its own glyph: two mouths draw the same text only
/// when they are the same shape, or both the small round "o" (the mouth
/// opening before a yawn and the sleeping exhale); and the wide-open `◯`
/// is drawn for the yawn and for nothing else.
pub proof fn lemma_mouth_shapes_distinct(m1: Mouth, m2: Mouth)
    ensures
        mouth_text(m1) == mouth_text(m2) ==> m1 == m2 || ((m1 == Mouth::SmallO || m1
            == Mouth::SleepingOpen) && (m2 == Mouth::SmallO || m2 == Mouth::SleepingOpen)),
        mouth_text(m1) == seq!['◯'] <==> m1 == Mouth::Yawn,
{
    reveal_strlit("╰───╯");
    reveal_strlit("╰─────╯");
    reveal_strlit("╰─╯");
    reveal_strlit("o");
    reveal_strlit("◯");
    reveal_strlit("~");
    reveal_strlit("");
    if mouth_text(m1) == mouth_text(m2) {
        assert(mouth_text(m1).len() == mouth_text(m2).len());
        if mouth_text(m1).len() == 1 {
            assert(mouth_text(m1)[0] == mouth_text(m2)[0]);
        }
    }
    if mouth_text(m1) == seq!['◯'] {
        assert(mouth_text(m1).len() == 1 && mouth_text(m1)[0] == '◯');
    }
    if m1 == Mouth::Yawn {
        assert(mouth_text(m1) =~= seq!['◯']);
    }
}

/// The mouth row of every frame shows the pose's mouth glyph, centered: the
/// sixth line of the frame, or the seventh when the face is lowered.
pub proof fn lemma_frame_shows_mouth(status: AlbertStatus, pose: FacePose)
    ensures
        frame_lines(status, pose)[if lowered(pose.vertical_offset) { 6int } else { 5int }]
            == centered_row_text(mouth_text(pose.mouth)),
{
}

/// Show good capacity as good: with the same total, more free space never
/// gives a shorter filled part of the bar.
pub proof fn lemma_bar_monotone(a1: u16, a2: u16, total: u16)
    requires
        a1 <= a2,
    ensures
        bar_fill(a1, total) <= bar_fill(a2, total),
{
    if total != 0 {
        let t = total as int;
        let x1 = a1 as int * 100;
        let x2 = a2 as int * 100;
        assert(x1 / t <= x2 / t) by (nonlinear_arith)
            requires
                x1 <= x2,
                t > 0,
        ;
        let p1 = x1 / t;
        let p2 = x2 / t;
        assert(p1 * 10 / 100 <= p2 * 10 / 100) by (nonlinear_arith)
            requires
                0 <= p1 <= p2,
        ;
    }
}

/// An empty disk shows a full bar and a full disk an empty one.
pub proof fn lemma_bar_ends(total: u16)
    requires
        total > 0,
    ensures
        bar_fill(total, total) == BAR_WIDTH,
        bar_fill(0, total) == 0,
{
    let t = total as int;
    assert((t * 100) / t == 100) by (nonlinear_arith)
        requires
            t > 0,
    ;
}

/// No line feed in `s`.
pub open spec fn no_newline(s: Seq<char>) -> bool {
    forall|i: int| 0 <= i < s.len() ==> s[i] != '\n'
}

broadcast proof fn lemma_no_newline_add(a: Seq<char>, b: Seq<char>)
    requires
        no_newline(a),
        no_newline(b),
    ensures
        #[trigger] no_newline(a + b),
{
    assert forall|i: int| 0 <= i < (a + b).len() implies (a + b)[i] != '\n' by {
        if i >= a.len() {
            assert((a + b)[i] == b[i - a.len()]);
        }
    }
}

broadcast proof fn lemma_no_newline_repeat(c: char, n: nat)
    requires
        c != '\n',
    ensures
        #[trigger] no_newline(repeat(c, n)),
{
}

broadcast proof fn lemma_no_newline_pad(t: Seq<char>, w: nat)
    requires
        no_newline(t),
    ensures
        #[trigger] no_newline(pad_right(t, w)),
{
    broadcast use lemma_no_newline_add, lemma_no_newline_repeat;

}

broadcast proof fn lemma_no_newline_decimal(n: nat)
    ensures
        #[trigger] no_newline(decimal(n)),
    decreases n,
{
    if n >= 10 {
        lemma_no_newline_decimal(n / 10);
        assert(no_newline(seq![crate::text::digit_char(n % 10)]));
        lemma_no_newline_add(decimal(n / 10), seq![crate::text::digit_char(n % 10)]);
        assert(decimal(n) =~= decimal(n / 10) + seq![crate::text::digit_char(n % 10)]);
    }
}

proof fn lemma_literals_no_newline()
    ensures
        no_newline("°C"@),
        no_newline("--°C"@),
        no_newline("%"@),
        no_newline("--%"@),
        no_newline("✓"@),
        no_newline("!"@),
        no_newline("?"@),
        no_newline(" "@),
        no_newline("   "@),
        no_newline("G free  "@),
        no_newline("--G free  ░░░░░░░░░░"@),
        no_newline(" UNMOUNTED"@),
        no_newline(" MISSING"@),
        no_newline(" UNKNOWN"@),
        no_newline("now"@),
        no_newline("m"@),
        no_newline("h"@),
        no_newline("d"@),
        no_newline("RUN!"@),
        no_newline("PI    "@),
        no_newline(" · RAM "@),
        no_newline("BKP XPS→AL "@),
        no_newline("  XPS→BERT "@),
        no_newline("  AL→BERT "@),
        no_newline("╲───────╱"@),
        no_newline("╭───────╮"@),
        no_newline("│ ───── │"@),
        no_newline("     "@),
        no_newline("╰───────╯"@),
        no_newline("╰───╯"@),
        no_newline("╰─────╯"@),
        no_newline("╰─╯"@),
        no_newline("o"@),
        no_newline("◯"@),
        no_newline("~"@),
        no_newline(""@),
        no_newline("AL"@),
        no_newline("BERT"@),
{
    reveal_strlit("°C");
    reveal_strlit("--°C");
    reveal_strlit("%");
    reveal_strlit("--%");
    reveal_strlit("✓");
    reveal_strlit("!");
    reveal_strlit("?");
    reveal_strlit(" ");
    reveal_strlit("   ");
    reveal_strlit("G free  ");
    reveal_strlit("--G free  ░░░░░░░░░░");
    reveal_strlit(" UNMOUNTED");
    reveal_strlit(" MISSING");
    reveal_strlit(" UNKNOWN");
    reveal_strlit("now");
    reveal_strlit("m");
    reveal_strlit("h");
    reveal_strlit("d");
    reveal_strlit("RUN!");
    reveal_strlit("PI    ");
    reveal_strlit(" · RAM ");
    reveal_strlit("BKP XPS→AL ");
    reveal_strlit("  XPS→BERT ");
    reveal_strlit("  AL→BERT ");
    reveal_strlit("╲───────╱");
    reveal_strlit("╭───────╮");
    reveal_strlit("│ ───── │");
    reveal_strlit("     ");
    reveal_strlit("╰───────╯");
    reveal_strlit("╰───╯");
    reveal_strlit("╰─────╯");
    reveal_strlit("╰─╯");
    reveal_strlit("o");
    reveal_strlit("◯");
    reveal_strlit("~");
    reveal_strlit("");
    reveal_strlit("AL");
    reveal_strlit("BERT");
}

proof fn lemma_row_no_newline(content: Seq<char>)
    requires
        no_newline(content),
    ensures
        no_newline(row_text(content)),
        no_newline(centered_row_text(content)),
{
    broadcast use lemma_no_newline_add, lemma_no_newline_repeat, lemma_no_newline_pad;

    assert(no_newline(clipped(content)));
    assert(no_newline(seq!['│']));
    let c2 = repeat(' ', centering(content)) + content;
    assert(no_newline(c2));
    assert(no_newline(clipped(c2)));
}

proof fn lemma_frame_lines_no_newline(status: AlbertStatus, pose: FacePose)
    ensures
        forall|i: int|
            0 <= i < frame_lines(status, pose).len() ==> no_newline(
                #[trigger] frame_lines(status, pose)[i],
            ),
{
    broadcast use lemma_no_newline_add, lemma_no_newline_repeat, lemma_no_newline_pad,
        lemma_no_newline_decimal;

    lemma_literals_no_newline();
    let ls = frame_lines(status, pose);
    lemma_row_no_newline(Seq::empty());
    lemma_row_no_newline(eye_pair(eye_top(pose.mood)));
    assert(no_newline(seq!['│']));
    assert(no_newline(seq![pupil_char(pose.mood)]));
    assert(no_newline(eye_middle(pose)));
    lemma_row_no_newline(eye_pair(eye_middle(pose)));
    lemma_row_no_newline(eye_pair("╰───────╯"@));
    lemma_row_no_newline(mouth_text(pose.mouth));
    lemma_disk_no_newline("AL"@, status.al);
    lemma_disk_no_newline("BERT"@, status.bert);
    assert(no_newline(temperature_text(status.pi.temperature_c)));
    assert(no_newline(percent_text(status.pi.ram_percent)));
    lemma_row_no_newline(pi_text(status));
    lemma_row_no_newline(repeat(' ', DATA_INDENT as nat) + pi_text(status));
    lemma_backup_no_newline(status.backups.xps_to_al);
    lemma_backup_no_newline(status.backups.xps_to_bert);
    lemma_backup_no_newline(status.backups.al_to_bert);
    lemma_row_no_newline(backups_text(status));
    assert(no_newline(seq!['┌']));
    assert(no_newline(seq!['┐']));
    assert(no_newline(seq!['└']));
    assert(no_newline(seq!['┘']));
    assert(no_newline(top_border()));
    assert(no_newline(bottom_border()));
    assert forall|i: int| 0 <= i < ls.len() implies no_newline(#[trigger] ls[i]) by {
        if 1 <= i < 8 {
            assert(ls[i] == face_lines(pose)[i - 1]);
        }
    }
}

proof fn lemma_disk_no_newline(name: Seq<char>, disk: DiskStatus)
    requires
        no_newline(name),
    ensures
        no_newline(disk_row_text(name, disk)),
{
    broadcast use lemma_no_newline_add, lemma_no_newline_repeat, lemma_no_newline_pad,
        lemma_no_newline_decimal;

    lemma_literals_no_newline();
    assert(no_newline(temperature_text(disk.temperature_c)));
    assert(no_newline(health_text(disk.health)));
    assert(no_newline(capacity_text(disk.available_gib, disk.total_gib)));
    lemma_row_no_newline(
        pad_right(name, 5) + " "@ + pad_right(temperature_text(disk.temperature_c), 5) + " "@
            + health_text(disk.health) + "   "@ + capacity_text(disk.available_gib, disk.total_gib),
    );
    lemma_row_no_newline(pad_right(name, 5) + " UNMOUNTED"@);
    lemma_row_no_newline(pad_right(name, 5) + " MISSING"@);
    lemma_row_no_newline(pad_right(name, 5) + " UNKNOWN"@);
}

proof fn lemma_backup_no_newline(b: BackupStatus)
    ensures
        no_newline(backup_text(b)),
{
    broadcast use lemma_no_newline_add, lemma_no_newline_decimal;

    lemma_literals_no_newline();
    match b {
        BackupStatus::Current { age_minutes } => {
            assert(no_newline(backup_age_text(age_minutes)));
        },
        BackupStatus::Stale { age_minutes } => {
            assert(no_newline(backup_age_text(age_minutes)));
        },
        _ => {},
    }
}

proof fn lemma_join_front(ls: Seq<Seq<char>>)
    requires
        ls.len() >= 2,
    ensures
        join_lines(ls) == ls[0] + seq!['\n'] + join_lines(ls.drop_first()),
    decreases ls.len(),
{
    if ls.len() > 2 {
        lemma_join_front(ls.drop_last());
        assert(ls.drop_last().drop_first() =~= ls.drop_first().drop_last());
        assert(join_lines(ls) =~= ls[0] + seq!['\n'] + join_lines(ls.drop_first()));
    } else {
        assert(ls.drop_last() =~= seq![ls[0]]);
        assert(ls.drop_first() =~= seq![ls[1]]);
        assert(join_lines(ls.drop_last()) == ls[0]);
        assert(join_lines(ls.drop_first()) == ls[1]);
        assert(ls.last() == ls[1]);
    }
}

proof fn lemma_lines_of_join(ls: Seq<Seq<char>>)
    requires
        ls.len() >= 1,
        forall|i: int|
            0 <= i < ls.len() ==> (#[trigger] ls[i]).len() > 0 && no_newline(ls[i]) && ls[i].last()
                != '\r',
    ensures
        lines(join_lines(ls)) == ls,
    decreases ls.len(),
{
    let l0 = ls[0];
    if ls.len() == 1 {
        lemma_lines_last(l0, 0);
        assert(l0.skip(0) =~= l0);
        assert(l0.subrange(0, l0.len() as int) =~= l0);
        assert(ls =~= seq![l0]);
    } else {
        lemma_join_front(ls);
        let rest = join_lines(ls.drop_first());
        let t = l0 + seq!['\n'] + rest;
        assert forall|j: int| 0 <= j < l0.len() implies t[j] != '\n' by {
            assert(t[j] == l0[j]);
        }
        assert(t[l0.len() as int] == '\n');
        lemma_lines_step(t, 0, l0.len() as int);
        assert(t.skip(0) =~= t);
        assert(t.subrange(0, l0.len() as int) =~= l0);
        assert(t.skip(l0.len() + 1 as int) =~= rest);
        lemma_lines_of_join(ls.drop_first());
        assert(ls =~= seq![l0] + ls.drop_first());
    }
}

proof fn lemma_card_lines_ok(ls: Seq<Seq<char>>)
    requires
        ls.len() == FRAME_LINES,
        forall|i: int| 0 <= i < FRAME_LINES ==> #[trigger] ls[i].len() == CARD_WIDTH,
        ls[0] == top_border(),
        ls[FRAME_LINES - 1] == bottom_border(),
        forall|i: int|
            0 < i < FRAME_LINES - 1 ==> #[trigger] ls[i][0] == '│' && ls[i][CARD_WIDTH - 1]
                == '│',
        forall|i: int| 0 <= i < ls.len() ==> no_newline(#[trigger] ls[i]),
    ensures
        forall|i: int|
            0 <= i < ls.len() ==> (#[trigger] ls[i]).len() > 0 && no_newline(ls[i]) && ls[i].last()
                != '\r',
{
    assert forall|i: int| 0 <= i < ls.len() implies (#[trigger] ls[i]).len() > 0 && no_newline(
        ls[i],
    ) && ls[i].last() != '\r' by {
        assert(ls[i].len() == CARD_WIDTH);
        if 0 < i < FRAME_LINES - 1 {
            assert(ls[i][0] == '│');
        }
    }
}

/// Reading the frame back line by line (`str::lines`) gives exactly its
/// `FRAME_LINES` card lines.
pub proof fn lemma_frame_reads_back(status: AlbertStatus, pose: FacePose)
    ensures
        lines(frame_text(status, pose)) == frame_lines(status, pose),
{
    lemma_frame_geometry(status, pose);
    lemma_frame_lines_no_newline(status, pose);
    lemma_card_lines_ok(frame_lines(status, pose));
    lemma_lines_of_join(frame_lines(status, pose));
}

} // verus!
