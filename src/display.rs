use vstd::prelude::*;

use crate::checks::{summary_text, Check, CheckStatus, CheckSummary};
use crate::stack::{branch_fits, summaries_fit, summary_fits, BranchStatus, StackStatus};
use crate::text::{dec, decimal};

verus! {

pub const RESET: &'static str = "\x1b[0m";

pub const BOLD: &'static str = "\x1b[1m";

pub const DIM: &'static str = "\x1b[2m";

pub const GREEN: &'static str = "\x1b[32m";

pub const RED: &'static str = "\x1b[31m";

pub const YELLOW: &'static str = "\x1b[33m";

pub const BLUE: &'static str = "\x1b[34m";

pub const GRAY: &'static str = "\x1b[90m";

pub const CYAN: &'static str = "\x1b[36m";

/// `s` written `n` times over.
pub open spec fn repeated(s: Seq<char>, n: nat) -> Seq<char>
    decreases n,
{
    if n == 0 {
        Seq::empty()
    } else {
        repeated(s, (n - 1) as nat) + s
    }
}

/// `s` written `n` times over.
pub fn repeat_text(s: &str, n: usize) -> (r: String)
    ensures
        r@ == repeated(s@, n as nat),
{
    let mut out = String::new();
    let mut i: usize = 0;
    while i < n
        invariant
            i <= n,
            out@ == repeated(s@, i as nat),
        decreases n - i,
    {
        out.append(s);
        i += 1;
    }
    out
}

/// A duration in the largest units that fit: seconds, minutes and seconds, or
/// hours and minutes.
pub open spec fn duration_text(secs: nat) -> Seq<char> {
    if secs < 60 {
        dec(secs) + "s"@
    } else if secs < 3600 {
        dec(secs / 60) + "m"@ + dec(secs % 60) + "s"@
    } else {
        dec(secs / 3600) + "h"@ + dec((secs % 3600) / 60) + "m"@
    }
}

/// Writes a duration in the largest units that fit (`42s`, `3m7s`, `2h5m`).
pub fn format_duration(secs: u64) -> (r: String)
    ensures
        r@ == duration_text(secs as nat),
{
    if secs < 60 {
        let mut s = decimal(secs as u128);
        s.append("s");
        s
    } else if secs < 3600 {
        let mut s = decimal((secs / 60) as u128);
        s.append("m");
        s.append(decimal((secs % 60) as u128).as_str());
        s.append("s");
        s
    } else {
        let mut s = decimal((secs / 3600) as u128);
        s.append("h");
        s.append(decimal(((secs % 3600) / 60) as u128).as_str());
        s.append("m");
        s
    }
}

/// The frames of the spinner shown beside a running check.
pub open spec fn spinner_frames() -> Seq<Seq<char>> {
    seq!["⠋"@, "⠙"@, "⠹"@, "⠸"@, "⠼"@, "⠴"@, "⠦"@, "⠧"@, "⠇"@, "⠏"@]
}

/// The frames of the spinner shown beside a running branch.
pub open spec fn progress_frames() -> Seq<Seq<char>> {
    seq!["◐"@, "◓"@, "◑"@, "◒"@]
}

/// The spinner glyph for an animation frame; the frames go round.
pub fn spinner(frame: usize) -> (r: &'static str)
    ensures
        r@ == spinner_frames()[(frame % 10) as int],
{
    let k = frame % 10;
    if k == 0 {
        "⠋"
    } else if k == 1 {
        "⠙"
    } else if k == 2 {
        "⠹"
    } else if k == 3 {
        "⠸"
    } else if k == 4 {
        "⠼"
    } else if k == 5 {
        "⠴"
    } else if k == 6 {
        "⠦"
    } else if k == 7 {
        "⠧"
    } else if k == 8 {
        "⠇"
    } else {
        "⠏"
    }
}

/// The progress glyph for an animation frame; the frames go round.
pub fn progress_spinner(frame: usize) -> (r: &'static str)
    ensures
        r@ == progress_frames()[(frame % 4) as int],
{
    let k = frame % 4;
    if k == 0 {
        "◐"
    } else if k == 1 {
        "◓"
    } else if k == 2 {
        "◑"
    } else {
        "◒"
    }
}

/// The number of filled cells of a bar `width` cells wide.
pub open spec fn filled_cells(completed: nat, total: nat, width: nat) -> nat {
    if total == 0 {
        0
    } else {
        (completed * width) / total
    }
}

proof fn lemma_filled_fits(completed: nat, total: nat, width: nat)
    requires
        completed <= total,
        total > 0,
    ensures
        (completed * width) / total <= width,
{
    assert(completed * width <= total * width) by (nonlinear_arith)
        requires
            completed <= total,
    ;
    assert((completed * width) / total <= (total * width) / total) by (nonlinear_arith)
        requires
            completed * width <= total * width,
            total > 0,
    ;
    assert((total * width) / total == width) by (nonlinear_arith)
        requires
            total > 0,
    ;
}

/// A progress bar: the done share of `width` cells filled, the rest empty.
pub open spec fn progress_bar(completed: nat, total: nat, width: nat) -> Seq<char> {
    if total == 0 {
        DIM@ + repeated("░"@, width) + RESET@
    } else {
        let filled = filled_cells(completed, total, width);
        CYAN@ + repeated("█"@, filled) + DIM@ + repeated(
            "░"@,
            (width - filled) as nat,
        ) + RESET@
    }
}

/// Draws a progress bar of `width` cells for `completed` of `total` done.
pub fn render_progress_bar(completed: usize, total: usize, width: usize) -> (r: String)
    requires
        total == 0 || completed <= total,
    ensures
        r@ == progress_bar(completed as nat, total as nat, width as nat),
{
    if total == 0 {
        let mut s = String::from_str(DIM);
        s.append(repeat_text("░", width).as_str());
        s.append(RESET);
        return s;
    }
    proof {
        lemma_filled_fits(completed as nat, total as nat, width as nat);
    }
    assert(completed as u128 * width as u128 <= 0xffff_ffff_ffff_ffff * 0xffff_ffff_ffff_ffff)
        by (nonlinear_arith)
        requires
            completed <= 0xffff_ffff_ffff_ffff,
            width <= 0xffff_ffff_ffff_ffff,
    ;
    let filled = ((completed as u128 * width as u128) / total as u128) as usize;
    let empty = width - filled;
    let mut s = String::from_str(CYAN);
    s.append(repeat_text("█", filled).as_str());
    s.append(DIM);
    s.append(repeat_text("░", empty).as_str());
    s.append(RESET);
    s
}

/// Polls the keyboard without blocking. Key input is not wired up, so no key is
/// ever reported.
pub fn check_keypress() -> (r: Option<char>)
    ensures
        r is None,
{
    None
}

/// The glyph and color that mark a branch: trunk, checked out, or other.
pub open spec fn marker_of(is_trunk: bool, is_current: bool) -> (Seq<char>, Seq<char>) {
    if is_trunk {
        ("●"@, GRAY@)
    } else if is_current {
        ("◉"@, BLUE@)
    } else {
        ("◯"@, DIM@)
    }
}

/// The glyph and color that mark a branch.
pub fn branch_marker(b: &BranchStatus) -> (r: (&'static str, &'static str))
    ensures
        (r.0@, r.1@) == marker_of(b.is_trunk, b.is_current),
{
    if b.is_trunk {
        ("●", GRAY)
    } else if b.is_current {
        ("◉", BLUE)
    } else {
        ("◯", DIM)
    }
}

/// The status shown under a branch: its checks' overall state, nothing for a
/// trunk, or a note that there is no pull request.
pub open spec fn status_line_of(b: BranchStatus, frame: nat) -> Seq<char> {
    match b.summary {
        Some(s) => match s.overall {
            CheckStatus::Running => {
                let spin = progress_frames()[(frame % 4) as int];
                YELLOW@ + spin + " "@ + spin + " Running ("@ + dec(
                    (s.passed + s.failed) as nat,
                ) + "/"@ + dec(s.total as nat) + ")"@ + RESET@
            },
            CheckStatus::Queued => GRAY@ + "○ ○ Queued"@ + RESET@,
            CheckStatus::Passed => GREEN@ + "✓ ✓ All "@ + dec(s.total as nat) + " passed"@
                + RESET@,
            CheckStatus::Failed => RED@ + "✗ ✗ "@ + dec(s.failed as nat) + " failed"@ + RESET@
                + ", "@ + GREEN@ + dec(s.passed as nat) + " passed"@ + RESET@,
            _ => DIM@ + summary_text(s@) + RESET@,
        },
        None => if b.is_trunk {
            Seq::empty()
        } else {
            DIM@ + "— No PR"@ + RESET@
        },
    }
}

/// The status shown under a branch, for an animation frame.
pub fn branch_status_line(b: &BranchStatus, frame: usize) -> (r: String)
    ensures
        r@ == status_line_of(*b, frame as nat),
{
    match &b.summary {
        Some(s) => match s.overall {
            CheckStatus::Running => {
                let spin = progress_spinner(frame);
                let mut r = String::from_str(YELLOW);
                r.append(spin);
                r.append(" ");
                r.append(spin);
                r.append(" Running (");
                r.append(decimal(s.passed as u128 + s.failed as u128).as_str());
                r.append("/");
                r.append(decimal(s.total as u128).as_str());
                r.append(")");
                r.append(RESET);
                r
            },
            CheckStatus::Queued => {
                let mut r = String::from_str(GRAY);
                r.append("○ ○ Queued");
                r.append(RESET);
                r
            },
            CheckStatus::Passed => {
                let mut r = String::from_str(GREEN);
                r.append("✓ ✓ All ");
                r.append(decimal(s.total as u128).as_str());
                r.append(" passed");
                r.append(RESET);
                r
            },
            CheckStatus::Failed => {
                let mut r = String::from_str(RED);
                r.append("✗ ✗ ");
                r.append(decimal(s.failed as u128).as_str());
                r.append(" failed");
                r.append(RESET);
                r.append(", ");
                r.append(GREEN);
                r.append(decimal(s.passed as u128).as_str());
                r.append(" passed");
                r.append(RESET);
                r
            },
            _ => {
                let mut r = String::from_str(DIM);
                r.append(s.text().as_str());
                r.append(RESET);
                r
            },
        },
        None => {
            if b.is_trunk {
                String::new()
            } else {
                let mut r = String::from_str(DIM);
                r.append("— No PR");
                r.append(RESET);
                r
            }
        },
    }
}

/// `s` cut to fit `width` characters: a longer text keeps its first `width - 1`
/// characters and ends in an ellipsis.
pub open spec fn fitted(s: Seq<char>, width: nat) -> Seq<char> {
    if s.len() > width {
        s.take(width - 1) + "…"@
    } else {
        s
    }
}

/// Cuts `s` to fit `width` characters, marking the cut with an ellipsis.
pub fn fit_to_width(s: &str, width: usize) -> (r: String)
    requires
        width >= 1,
    ensures
        r@ == fitted(s@, width as nat),
{
    let n = s.unicode_len();
    if n > width {
        let mut r = String::from_str(s.substring_char(0, width - 1));
        r.append("…");
        assert(s@.subrange(0, width - 1) =~= s@.take(width - 1));
        r
    } else {
        String::from_str(s)
    }
}

/// `s` followed by blanks up to `width` characters.
pub open spec fn padded_right(s: Seq<char>, width: nat) -> Seq<char> {
    if s.len() >= width {
        s
    } else {
        s + repeated(" "@, (width - s.len()) as nat)
    }
}

/// `s` after blanks up to `width` characters.
pub open spec fn padded_left(s: Seq<char>, width: nat) -> Seq<char> {
    if s.len() >= width {
        s
    } else {
        repeated(" "@, (width - s.len()) as nat) + s
    }
}

/// Pads `s` with blanks on the right to `width` characters.
pub fn pad_right(s: &str, width: usize) -> (r: String)
    ensures
        r@ == padded_right(s@, width as nat),
{
    let n = s.unicode_len();
    if n >= width {
        String::from_str(s)
    } else {
        let mut r = String::from_str(s);
        r.append(repeat_text(" ", width - n).as_str());
        r
    }
}

/// Pads `s` with blanks on the left to `width` characters.
pub fn pad_left(s: &str, width: usize) -> (r: String)
    ensures
        r@ == padded_left(s@, width as nat),
{
    let n = s.unicode_len();
    if n >= width {
        String::from_str(s)
    } else {
        let mut r = repeat_text(" ", width - n);
        r.append(s);
        r
    }
}

/// The glyph and color of one check in the list of a branch.
pub open spec fn check_glyph_of(s: CheckStatus, frame: nat) -> (Seq<char>, Seq<char>) {
    match s {
        CheckStatus::Passed => ("✓"@, GREEN@),
        CheckStatus::Failed => ("✗"@, RED@),
        CheckStatus::Running => (spinner_frames()[(frame % 10) as int], YELLOW@),
        CheckStatus::Queued => ("○"@, GRAY@),
        CheckStatus::Skipped => ("◌"@, GRAY@),
        CheckStatus::Cancelled => ("⊘"@, GRAY@),
        CheckStatus::Unknown => ("?"@, GRAY@),
    }
}

/// The glyph and color of one check, for an animation frame.
pub fn check_glyph(s: CheckStatus, frame: usize) -> (r: (&'static str, &'static str))
    ensures
        (r.0@, r.1@) == check_glyph_of(s, frame as nat),
{
    match s {
        CheckStatus::Passed => ("✓", GREEN),
        CheckStatus::Failed => ("✗", RED),
        CheckStatus::Running => (spinner(frame), YELLOW),
        CheckStatus::Queued => ("○", GRAY),
        CheckStatus::Skipped => ("◌", GRAY),
        CheckStatus::Cancelled => ("⊘", GRAY),
        CheckStatus::Unknown => ("?", GRAY),
    }
}

/// How long a finished check took, or a word for where an unfinished one stands.
pub open spec fn timing_of(s: CheckStatus, duration: Option<u64>) -> Seq<char> {
    match s {
        CheckStatus::Passed | CheckStatus::Failed => match duration {
            Some(d) => duration_text(d as nat),
            None => "—"@,
        },
        CheckStatus::Running => "running…"@,
        CheckStatus::Queued => "queued"@,
        CheckStatus::Skipped => "skipped"@,
        CheckStatus::Cancelled => "cancelled"@,
        CheckStatus::Unknown => "—"@,
    }
}

/// How long a finished check took, or a word for where an unfinished one stands.
pub fn check_timing(c: &Check) -> (r: String)
    ensures
        r@ == timing_of(c.status, c.duration_secs),
{
    match c.status {
        CheckStatus::Passed | CheckStatus::Failed => match c.duration_secs {
            Some(d) => format_duration(d),
            None => String::from_str("—"),
        },
        CheckStatus::Running => String::from_str("running…"),
        CheckStatus::Queued => String::from_str("queued"),
        CheckStatus::Skipped => String::from_str("skipped"),
        CheckStatus::Cancelled => String::from_str("cancelled"),
        CheckStatus::Unknown => String::from_str("—"),
    }
}

/// The colored word for a check's status.
pub open spec fn label_of(s: CheckStatus) -> Seq<char> {
    match s {
        CheckStatus::Passed => GREEN@ + "passed"@ + RESET@,
        CheckStatus::Failed => RED@ + "FAILED"@ + RESET@,
        CheckStatus::Running => YELLOW@ + "running"@ + RESET@,
        CheckStatus::Queued => GRAY@ + "queued"@ + RESET@,
        CheckStatus::Skipped => GRAY@ + "skipped"@ + RESET@,
        CheckStatus::Cancelled => GRAY@ + "stopped"@ + RESET@,
        CheckStatus::Unknown => GRAY@ + "unknown"@ + RESET@,
    }
}

/// The colored word for a check's status.
pub fn check_label(s: CheckStatus) -> (r: String)
    ensures
        r@ == label_of(s),
{
    let (color, word) = match s {
        CheckStatus::Passed => (GREEN, "passed"),
        CheckStatus::Failed => (RED, "FAILED"),
        CheckStatus::Running => (YELLOW, "running"),
        CheckStatus::Queued => (GRAY, "queued"),
        CheckStatus::Skipped => (GRAY, "skipped"),
        CheckStatus::Cancelled => (GRAY, "stopped"),
        CheckStatus::Unknown => (GRAY, "unknown"),
    };
    let mut r = String::from_str(color);
    r.append(word);
    r.append(RESET);
    r
}

/// The left edge of a line inside a branch's box of checks.
pub open spec fn box_edge() -> Seq<char> {
    "    "@ + DIM@ + "│"@ + RESET@
}

/// One line of a branch's box of checks: glyph, name, timing, status word, a
/// link mark in detail mode, and the box's edges. The name column is
/// `box_width - 25` characters wide.
pub open spec fn check_row_of(c: Check, frame: nat, box_width: nat, details: bool) -> Seq<char> {
    let w = (box_width - 25) as nat;
    let (icon, color) = check_glyph_of(c.status, frame);
    let hint = if details && c.url is Some {
        " "@ + DIM@ + "↗"@ + RESET@
    } else {
        Seq::empty()
    };
    box_edge() + " "@ + color + icon + " "@ + padded_right(fitted(c.name@, w), w) + " "@
        + padded_left(timing_of(c.status, c.duration_secs), 10) + "  "@ + label_of(c.status)
        + hint + "  "@ + DIM@ + "│"@ + RESET@
}

/// One line of a branch's box of checks.
pub fn check_row(c: &Check, frame: usize, box_width: usize, details: bool) -> (r: String)
    requires
        box_width >= 26,
    ensures
        r@ == check_row_of(*c, frame as nat, box_width as nat, details),
{
    let w = box_width - 25;
    let (icon, color) = check_glyph(c.status, frame);
    let mut r = String::from_str("    ");
    r.append(DIM);
    r.append("│");
    r.append(RESET);
    r.append(" ");
    r.append(color);
    r.append(icon);
    r.append(" ");
    r.append(pad_right(fit_to_width(c.name.as_str(), w).as_str(), w).as_str());
    r.append(" ");
    r.append(pad_left(check_timing(c).as_str(), 10).as_str());
    r.append("  ");
    r.append(check_label(c.status).as_str());
    if details && c.url.is_some() {
        r.append(" ");
        r.append(DIM);
        r.append("↗");
        r.append(RESET);
    }
    r.append("  ");
    r.append(DIM);
    r.append("│");
    r.append(RESET);
    assert(r@ =~= check_row_of(*c, frame as nat, box_width as nat, details));
    r
}

/// The width of the frame on a terminal `term` columns wide: between 60 and 100.
pub open spec fn frame_width(term: nat) -> nat {
    if term < 60 {
        60
    } else if term > 100 {
        100
    } else {
        term
    }
}

/// The width of a branch's box of checks in a frame `width` wide.
pub open spec fn box_width_of(width: nat) -> nat {
    if width - 6 > 80 {
        80
    } else {
        (width - 6) as nat
    }
}

/// The widest a branch name is shown in a frame `width` wide.
pub open spec fn name_width_of(width: nat) -> nat {
    if width - 30 > 50 {
        50
    } else if width - 30 < 25 {
        25
    } else {
        (width - 30) as nat
    }
}

/// The three lines of the title box and the blank line after it.
pub open spec fn header_of(width: nat, timestamp: Seq<char>) -> Seq<Seq<char>> {
    let time = "Updated: "@ + timestamp;
    let used = 4 + "Stack Status"@.len() + time.len();
    let pad = if used >= width {
        0nat
    } else {
        (width - used) as nat
    };
    seq![
        DIM@ + "╭"@ + repeated("─"@, (width - 2) as nat) + "╮"@ + RESET@,
        DIM@ + "│"@ + RESET@ + " "@ + BOLD@ + "Stack Status"@ + RESET@ + repeated(" "@, pad)
            + CYAN@ + time + " "@ + DIM@ + "│"@ + RESET@,
        DIM@ + "╰"@ + repeated("─"@, (width - 2) as nat) + "╯"@ + RESET@,
        Seq::empty(),
    ]
}

/// The line that names a branch, with its pull request number if it has one.
pub open spec fn branch_line_of(b: BranchStatus, name_width: nat) -> Seq<char> {
    let (glyph, color) = marker_of(b.is_trunk, b.is_current);
    let pr = match b.pr {
        Some(n) => " "@ + CYAN@ + "#"@ + dec(n as nat) + RESET@,
        None => Seq::empty(),
    };
    color + glyph + RESET@ + " "@ + (if b.is_current {
        BOLD@
    } else {
        Seq::empty()
    }) + fitted(b.branch@, name_width) + (if b.is_current {
        RESET@
    } else {
        Seq::empty()
    }) + pr
}

/// How many checks of a summary are done, whatever their outcome.
pub open spec fn completed_of(s: CheckSummary) -> nat {
    (s.passed + s.failed + s.skipped + s.cancelled) as nat
}

/// The two lines of progress shown while checks of a branch are outstanding.
pub open spec fn progress_lines_of(s: CheckSummary, box_width: nat) -> Seq<Seq<char>> {
    let bar = if box_width - 20 > 40 {
        40nat
    } else {
        (box_width - 20) as nat
    };
    let pad = if box_width > bar + 22 {
        repeated(" "@, (box_width - bar - 22) as nat)
    } else {
        Seq::empty()
    };
    seq![
        box_edge() + repeated(" "@, (box_width - 2) as nat) + DIM@ + "│"@ + RESET@,
        box_edge() + " "@ + progress_bar(completed_of(s), s.total as nat, bar) + " "@ + dec(
            completed_of(s),
        ) + "/"@ + dec(s.total as nat) + " complete "@ + pad + DIM@ + "│"@ + RESET@,
    ]
}

/// The box that lists the checks of a branch.
pub open spec fn checks_box_of(
    b: BranchStatus,
    cs: Seq<Check>,
    frame: nat,
    box_width: nat,
    details: bool,
) -> Seq<Seq<char>> {
    let top = "    "@ + DIM@ + "┌"@ + repeated("─"@, (box_width - 2) as nat) + "┐"@ + RESET@;
    let bottom = "    "@ + DIM@ + "└"@ + repeated("─"@, (box_width - 2) as nat) + "┘"@ + RESET@;
    let progress = match b.summary {
        Some(s) => if s.running > 0 || s.queued > 0 {
            progress_lines_of(s, box_width)
        } else {
            Seq::empty()
        },
        None => Seq::empty(),
    };
    seq![Seq::empty(), top] + cs.map_values(|c: Check| check_row_of(c, frame, box_width, details))
        + progress + seq![bottom]
}

/// The lines that show one branch: its name, its status, the box of its checks
/// if it has any, and a connector to the next branch unless it is the last.
pub open spec fn branch_block_of(
    b: BranchStatus,
    frame: nat,
    box_width: nat,
    name_width: nat,
    details: bool,
    last: bool,
) -> Seq<Seq<char>> {
    let status = status_line_of(b, frame);
    let status_lines = if status.len() > 0 {
        seq!["    "@ + status]
    } else {
        Seq::empty()
    };
    let boxed = if !b.is_trunk && b.checks is Some && b.checks->0@.len() > 0 {
        checks_box_of(b, b.checks->0@, frame, box_width, details)
    } else {
        Seq::empty()
    };
    let connector = if last {
        Seq::empty()
    } else {
        seq![DIM@ + "  │"@ + RESET@]
    };
    seq![branch_line_of(b, name_width)] + status_lines + boxed + connector
}

/// The blocks of the first `k` branches of `bs`.
pub open spec fn blocks_upto(
    bs: Seq<BranchStatus>,
    k: nat,
    frame: nat,
    box_width: nat,
    name_width: nat,
    details: bool,
) -> Seq<Seq<char>>
    decreases k,
{
    if k == 0 {
        Seq::empty()
    } else {
        blocks_upto(bs, (k - 1) as nat, frame, box_width, name_width, details) + branch_block_of(
            bs[k - 1],
            frame,
            box_width,
            name_width,
            details,
            k == bs.len(),
        )
    }
}

/// The lines of one frame of the display of a snapshot.
pub open spec fn frame_of(status: StackStatus, details: bool, frame: nat, term: nat) -> Seq<
    Seq<char>,
> {
    let width = frame_width(term);
    header_of(width, status.timestamp@) + blocks_upto(
        status.branches@,
        status.branches@.len(),
        frame,
        box_width_of(width),
        name_width_of(width),
        details,
    ) + seq![Seq::<char>::empty()]
}

pub open spec fn texts(v: Seq<String>) -> Seq<Seq<char>> {
    v.map_values(|s: String| s@)
}

fn push_line(lines: &mut Vec<String>, line: String)
    ensures
        texts(final(lines)@) == texts(old(lines)@).push(line@),
{
    let ghost before = lines@;
    lines.push(line);
    assert(texts(lines@) =~= texts(before).push(line@));
}

fn box_border(left: &str, right: &str, box_width: usize) -> (r: String)
    requires
        box_width >= 2,
    ensures
        r@ == "    "@ + DIM@ + left@ + repeated("─"@, (box_width - 2) as nat) + right@ + RESET@,
{
    let mut r = String::from_str("    ");
    r.append(DIM);
    r.append(left);
    r.append(repeat_text("─", box_width - 2).as_str());
    r.append(right);
    r.append(RESET);
    r
}

fn header_lines(lines: &mut Vec<String>, width: usize, timestamp: &str)
    requires
        60 <= width <= 100,
    ensures
        texts(final(lines)@) == texts(old(lines)@) + header_of(width as nat, timestamp@),
{
    let ghost before = texts(lines@);
    let mut top = String::from_str(DIM);
    top.append("╭");
    top.append(repeat_text("─", width - 2).as_str());
    top.append("╮");
    top.append(RESET);
    let mut time = String::from_str("Updated: ");
    time.append(timestamp);
    let title = "Stack Status";
    proof {
        reveal_strlit("Stack Status");
    }
    let used: u128 = 4 + title.unicode_len() as u128 + time.as_str().unicode_len() as u128;
    let pad: usize = if used >= width as u128 {
        0
    } else {
        (width as u128 - used) as usize
    };
    let mut mid = String::from_str(DIM);
    mid.append("│");
    mid.append(RESET);
    mid.append(" ");
    mid.append(BOLD);
    mid.append(title);
    mid.append(RESET);
    mid.append(repeat_text(" ", pad).as_str());
    mid.append(CYAN);
    mid.append(time.as_str());
    mid.append(" ");
    mid.append(DIM);
    mid.append("│");
    mid.append(RESET);
    let mut bottom = String::from_str(DIM);
    bottom.append("╰");
    bottom.append(repeat_text("─", width - 2).as_str());
    bottom.append("╯");
    bottom.append(RESET);
    push_line(lines, top);
    push_line(lines, mid);
    push_line(lines, bottom);
    push_line(lines, String::new());
    assert(texts(lines@) =~= before + header_of(width as nat, timestamp@));
}

fn branch_line(b: &BranchStatus, name_width: usize) -> (r: String)
    requires
        name_width >= 1,
    ensures
        r@ == branch_line_of(*b, name_width as nat),
{
    let (glyph, color) = branch_marker(b);
    let mut r = String::from_str(color);
    r.append(glyph);
    r.append(RESET);
    r.append(" ");
    if b.is_current {
        r.append(BOLD);
    }
    r.append(fit_to_width(b.branch.as_str(), name_width).as_str());
    if b.is_current {
        r.append(RESET);
    }
    match b.pr {
        Some(n) => {
            r.append(" ");
            r.append(CYAN);
            r.append("#");
            r.append(decimal(n as u128).as_str());
            r.append(RESET);
        },
        None => {},
    }
    assert(r@ =~= branch_line_of(*b, name_width as nat));
    r
}

fn progress_lines(lines: &mut Vec<String>, s: &CheckSummary, box_width: usize)
    requires
        26 <= box_width <= 80,
        summary_fits(*s),
    ensures
        texts(final(lines)@) == texts(old(lines)@) + progress_lines_of(*s, box_width as nat),
{
    let ghost before = texts(lines@);
    let completed = s.passed + s.failed + s.skipped + s.cancelled;
    let bar: usize = if box_width - 20 > 40 {
        40
    } else {
        box_width - 20
    };
    let mut blank = String::from_str("    ");
    blank.append(DIM);
    blank.append("│");
    blank.append(RESET);
    blank.append(repeat_text(" ", box_width - 2).as_str());
    blank.append(DIM);
    blank.append("│");
    blank.append(RESET);
    let mut line = String::from_str("    ");
    line.append(DIM);
    line.append("│");
    line.append(RESET);
    line.append(" ");
    line.append(render_progress_bar(completed, s.total, bar).as_str());
    line.append(" ");
    line.append(decimal(completed as u128).as_str());
    line.append("/");
    line.append(decimal(s.total as u128).as_str());
    line.append(" complete ");
    if box_width > bar + 22 {
        line.append(repeat_text(" ", box_width - bar - 22).as_str());
    }
    line.append(DIM);
    line.append("│");
    line.append(RESET);
    push_line(lines, blank);
    push_line(lines, line);
    assert(texts(lines@) =~= before + progress_lines_of(*s, box_width as nat));
}

fn checks_box(
    lines: &mut Vec<String>,
    b: &BranchStatus,
    cs: &Vec<Check>,
    frame: usize,
    box_width: usize,
    details: bool,
)
    requires
        26 <= box_width <= 80,
        branch_fits(*b),
    ensures
        texts(final(lines)@) == texts(old(lines)@) + checks_box_of(
            *b,
            cs@,
            frame as nat,
            box_width as nat,
            details,
        ),
{
    let ghost before = texts(lines@);
    let ghost rows = cs@.map_values(
        |c: Check| check_row_of(c, frame as nat, box_width as nat, details),
    );
    push_line(lines, String::new());
    push_line(lines, box_border("┌", "┐", box_width));
    let ghost start = texts(lines@);
    let mut i: usize = 0;
    while i < cs.len()
        invariant
            i <= cs@.len(),
            26 <= box_width <= 80,
            start == before + seq![Seq::<char>::empty(), "    "@ + DIM@ + "┌"@ + repeated("─"@, (box_width - 2) as nat) + "┐"@ + RESET@],
            rows == cs@.map_values(
                |c: Check| check_row_of(c, frame as nat, box_width as nat, details),
            ),
            texts(lines@) == start + rows.take(i as int),
        decreases cs@.len() - i,
    {
        push_line(lines, check_row(&cs[i], frame, box_width, details));
        assert(rows.take(i + 1) =~= rows.take(i as int).push(rows[i as int]));
        assert(texts(lines@) =~= start + rows.take(i + 1));
        i += 1;
    }
    assert(rows.take(i as int) =~= rows);
    let ghost mid = texts(lines@);
    match &b.summary {
        Some(s) => {
            if s.running > 0 || s.queued > 0 {
                progress_lines(lines, s, box_width);
            }
        },
        None => {},
    }
    push_line(lines, box_border("└", "┘", box_width));
    assert(texts(lines@) =~= before + checks_box_of(
        *b,
        cs@,
        frame as nat,
        box_width as nat,
        details,
    ));
}

fn branch_block(
    lines: &mut Vec<String>,
    b: &BranchStatus,
    frame: usize,
    box_width: usize,
    name_width: usize,
    details: bool,
    last: bool,
)
    requires
        26 <= box_width <= 80,
        name_width >= 1,
        branch_fits(*b),
    ensures
        texts(final(lines)@) == texts(old(lines)@) + branch_block_of(
            *b,
            frame as nat,
            box_width as nat,
            name_width as nat,
            details,
            last,
        ),
{
    let ghost before = texts(lines@);
    push_line(lines, branch_line(b, name_width));
    let status = branch_status_line(b, frame);
    if status.as_str().unicode_len() > 0 {
        let mut line = String::from_str("    ");
        line.append(status.as_str());
        push_line(lines, line);
    }
    let ghost mid = texts(lines@);
    if !b.is_trunk {
        match &b.checks {
            Some(cs) => {
                if cs.len() > 0 {
                    checks_box(lines, b, cs, frame, box_width, details);
                }
            },
            None => {},
        }
    }
    if !last {
        let mut line = String::from_str(DIM);
        line.append("  │");
        line.append(RESET);
        push_line(lines, line);
    }
    assert(texts(lines@) =~= before + branch_block_of(
        *b,
        frame as nat,
        box_width as nat,
        name_width as nat,
        details,
        last,
    ));
}

/// The lines of one frame of the display of a snapshot on a terminal
/// `term_width` columns wide: a title box with the time of the snapshot, then
/// each branch in stack order with its status and its checks, then a blank line.
pub fn render_lines(status: &StackStatus, details: bool, frame: usize, term_width: usize) -> (r:
    Vec<String>)
    requires
        summaries_fit(status.branches@),
    ensures
        texts(r@) == frame_of(*status, details, frame as nat, term_width as nat),
{
    let width: usize = if term_width < 60 {
        60
    } else if term_width > 100 {
        100
    } else {
        term_width
    };
    let box_width: usize = if width - 6 > 80 {
        80
    } else {
        width - 6
    };
    let name_width: usize = if width - 30 > 50 {
        50
    } else if width - 30 < 25 {
        25
    } else {
        width - 30
    };
    let mut lines: Vec<String> = Vec::new();
    assert(texts(lines@) =~= Seq::<Seq<char>>::empty());
    header_lines(&mut lines, width, status.timestamp.as_str());
    let ghost head = texts(lines@);
    let n = status.branches.len();
    let mut i: usize = 0;
    while i < n
        invariant
            n == status.branches@.len(),
            i <= n,
            26 <= box_width <= 80,
            name_width >= 25,
            box_width as nat == box_width_of(width as nat),
            name_width as nat == name_width_of(width as nat),
            summaries_fit(status.branches@),
            texts(lines@) == head + blocks_upto(
                status.branches@,
                i as nat,
                frame as nat,
                box_width as nat,
                name_width as nat,
                details,
            ),
        decreases n - i,
    {
        let b = &status.branches[i];
        assert(branch_fits(status.branches@[i as int]));
        branch_block(&mut lines, b, frame, box_width, name_width, details, i + 1 == n);
        i += 1;
        assert(texts(lines@) =~= head + blocks_upto(
            status.branches@,
            i as nat,
            frame as nat,
            box_width as nat,
            name_width as nat,
            details,
        ));
    }
    push_line(&mut lines, String::new());
    assert(texts(lines@) =~= frame_of(*status, details, frame as nat, term_width as nat));
    lines
}

} // verus!
