//! Rules of presentation: how values are classified, rounded and written
//! before they are drawn.

use crate::collector::process_views;
use crate::format::{decimal_digits, digit_char, push_decimal};
use crate::process::{ProcessInfo, ProcessView};
use crate::sort::SortKey;
use crate::ui_state::borrowed_views;
use vstd::prelude::*;

verus! {

/// How much attention a value asks for.
#[derive(Clone, Copy, Debug, PartialEq, Eq, Structural)]
pub enum Level {
    Normal,
    Elevated,
    High,
}

/// CPU usage above which a process is shown as elevated, in hundredths of
/// a percent.
pub const CPU_ELEVATED: u64 = 2_000;

/// CPU usage above which a process is shown as high, in hundredths of a
/// percent.
pub const CPU_HIGH: u64 = 5_000;

/// Memory above which a process is shown as elevated, in megabytes.
pub const MEMORY_ELEVATED_MB: u64 = 512;

/// Memory above which a process is shown as high, in megabytes.
pub const MEMORY_HIGH_MB: u64 = 1_024;

/// The level of a value between two thresholds.
pub open spec fn level_of(value: u64, elevated: u64, high: u64) -> Level {
    if value > high {
        Level::High
    } else if value > elevated {
        Level::Elevated
    } else {
        Level::Normal
    }
}

/// Whole megabytes in `bytes`.
pub open spec fn megabytes_of(bytes: u64) -> u64 {
    (bytes / 1024 / 1024) as u64
}

/// Whole megabytes in `bytes`.
pub fn megabytes(bytes: u64) -> (mb: u64)
    ensures
        mb == megabytes_of(bytes),
{
    bytes / 1024 / 1024
}

/// The level at which a CPU usage is shown.
pub fn cpu_level(cpu: u64) -> (level: Level)
    ensures
        level == level_of(cpu, CPU_ELEVATED, CPU_HIGH),
{
    if cpu > CPU_HIGH {
        Level::High
    } else if cpu > CPU_ELEVATED {
        Level::Elevated
    } else {
        Level::Normal
    }
}

/// The level at which an amount of memory is shown.
pub fn memory_level(bytes: u64) -> (level: Level)
    ensures
        level == level_of(megabytes_of(bytes), MEMORY_ELEVATED_MB, MEMORY_HIGH_MB),
{
    let mb = megabytes(bytes);
    if mb > MEMORY_HIGH_MB {
        Level::High
    } else if mb > MEMORY_ELEVATED_MB {
        Level::Elevated
    } else {
        Level::Normal
    }
}

/// `value` divided by `unit`, rounded to the nearest whole; a half rounds
/// up.
pub open spec fn rounded(value: u64, unit: u64) -> u64
    recommends
        unit > 0,
{
    (value / unit + (if 2 * (value % unit) >= unit {
        1nat
    } else {
        0nat
    })) as u64
}

/// `value` divided by `unit`, rounded to the nearest whole.
fn round_to(value: u64, unit: u64) -> (r: u64)
    requires
        unit > 0,
    ensures
        r == rounded(value, unit),
{
    let whole: u64 = value / unit;
    let rest: u64 = value % unit;
    assert(whole < u64::MAX || rest == 0) by (nonlinear_arith)
        requires
            whole == value / unit,
            rest == value % unit,
            unit > 0,
            value <= u64::MAX,
    {
        if whole == u64::MAX {
            assert(unit == 1) by (nonlinear_arith)
                requires
                    value / unit == u64::MAX,
                    value <= u64::MAX,
                    unit > 0,
            {}
        }
    }
    if rest >= unit - rest {
        whole + 1
    } else {
        whole
    }
}

/// A share in hundredths of a percent, rounded to whole percent.
pub fn whole_percent(hundredths: u64) -> (percent: u64)
    ensures
        percent == rounded(hundredths, 100),
{
    round_to(hundredths, 100)
}

/// The text of a number of tenths, with one place after the point.
pub open spec fn tenths_text(tenths: u64) -> Seq<char> {
    decimal_digits((tenths / 10) as nat) + seq!['.', digit_char((tenths % 10) as nat)]
}

/// The text of a number of hundredths, with two places after the point.
pub open spec fn hundredths_text(hundredths: u64) -> Seq<char> {
    decimal_digits((hundredths / 100) as nat) + seq![
        '.',
        digit_char((hundredths / 10 % 10) as nat),
        digit_char((hundredths % 10) as nat),
    ]
}

/// Writes a number of tenths with one place after the point.
pub fn format_tenths(tenths: u64) -> (text: String)
    ensures
        text@ == tenths_text(tenths),
{
    proof {
        reveal_strlit(".");
    }
    let mut text = String::new();
    push_decimal(&mut text, tenths / 10);
    text.append(".");
    push_decimal(&mut text, tenths % 10);
    assert(decimal_digits((tenths % 10) as nat) =~= seq![digit_char((tenths % 10) as nat)]);
    assert(text@ =~= tenths_text(tenths));
    text
}

/// Writes a number of hundredths with two places after the point.
pub fn format_hundredths(hundredths: u64) -> (text: String)
    ensures
        text@ == hundredths_text(hundredths),
{
    proof {
        reveal_strlit(".");
    }
    let mut text = String::new();
    push_decimal(&mut text, hundredths / 100);
    text.append(".");
    push_decimal(&mut text, hundredths / 10 % 10);
    push_decimal(&mut text, hundredths % 10);
    assert(decimal_digits((hundredths / 10 % 10) as nat) =~= seq![
        digit_char((hundredths / 10 % 10) as nat),
    ]);
    assert(decimal_digits((hundredths % 10) as nat) =~= seq![
        digit_char((hundredths % 10) as nat),
    ]);
    assert(text@ =~= hundredths_text(hundredths));
    text
}

/// Writes a share given in hundredths of a percent with one place after
/// the point, rounded to the nearest tenth.
pub fn format_percent(hundredths: u64) -> (text: String)
    ensures
        text@ == tenths_text(rounded(hundredths, 10)),
{
    format_tenths(round_to(hundredths, 10))
}

/// Tenths of a gigabyte in `bytes`, rounded down.
pub open spec fn gigabyte_tenths_of(bytes: u64) -> u64 {
    (bytes as nat * 10 / 1_073_741_824) as u64
}

/// Tenths of a gigabyte in `bytes`, rounded down.
pub fn gigabyte_tenths(bytes: u64) -> (tenths: u64)
    ensures
        tenths == gigabyte_tenths_of(bytes),
{
    let scaled: u128 = bytes as u128 * 10;
    (scaled / 1_073_741_824) as u64
}

/// The offset at which something of size `inner` is centered in `outer`;
/// zero where it does not fit.
pub open spec fn centered_offset(outer: u16, inner: u16) -> u16 {
    if outer >= inner {
        ((outer - inner) / 2) as u16
    } else {
        0
    }
}

/// The offset at which something of size `inner` is centered in `outer`.
pub fn center(outer: u16, inner: u16) -> (offset: u16)
    ensures
        offset == centered_offset(outer, inner),
{
    if outer >= inner {
        (outer - inner) / 2
    } else {
        0
    }
}

/// A rectangle on the screen.
#[derive(Clone, Copy, Debug, PartialEq, Eq, Structural)]
pub struct Area {
    pub x: u16,
    pub y: u16,
    pub width: u16,
    pub height: u16,
}

/// Where the loading message is drawn on a screen of the given size: the
/// middle half of the width, four rows high, two rows above the middle.
pub open spec fn loading_area_of(width: u16, height: u16) -> Area {
    Area {
        x: (width / 4) as u16,
        y: if height / 2 >= 2 {
            (height / 2 - 2) as u16
        } else {
            0
        },
        width: (width / 2) as u16,
        height: 4,
    }
}

/// Where the loading message is drawn on a screen of the given size.
pub fn loading_area(width: u16, height: u16) -> (area: Area)
    ensures
        area == loading_area_of(width, height),
{
    let middle: u16 = height / 2;
    Area {
        x: width / 4,
        y: if middle >= 2 {
            middle - 2
        } else {
            0
        },
        width: width / 2,
        height: 4,
    }
}

/// Padding to the left and to the right of a text of `len` columns that is
/// centered in `width` columns of which `reserved` are taken; none where
/// there is no room.
pub open spec fn centered_padding(width: usize, len: usize, reserved: usize) -> (usize, usize) {
    if width >= len + reserved {
        let left = (width - len - reserved) / 2;
        (left as usize, (width - reserved - left - len) as usize)
    } else {
        (0, 0)
    }
}

/// Padding to the left and to the right of a centered text.
pub fn padding(width: usize, len: usize, reserved: usize) -> (sides: (usize, usize))
    ensures
        sides == centered_padding(width, len, reserved),
{
    if len <= width && reserved <= width - len {
        let left: usize = (width - len - reserved) / 2;
        (left, width - reserved - left - len)
    } else {
        (0, 0)
    }
}

/// The heading of a column: its text, and an arrow for the direction of
/// the sort where the list is sorted by this column.
pub open spec fn heading_text(
    text: Seq<char>,
    key: SortKey,
    current: SortKey,
    ascending: bool,
) -> Seq<char> {
    if key == current {
        text + (if ascending {
            " \u{2191}"@
        } else {
            " \u{2193}"@
        })
    } else {
        text
    }
}

/// The heading of a column.
pub fn heading(text: &str, key: SortKey, current: SortKey, ascending: bool) -> (label: String)
    ensures
        label@ == heading_text(text@, key, current, ascending),
{
    let mut label = String::from_str(text);
    if key == current {
        label.append(
            if ascending {
                " \u{2191}"
            } else {
                " \u{2193}"
            },
        );
    }
    label
}

/// The test of the user tab: processes that `user` owns.
pub open spec fn owned_by(user: Seq<char>) -> spec_fn(ProcessView) -> bool {
    |p: ProcessView| p.user == user
}

/// The test of the system tab: processes whose owner is known and is not
/// `user`.
pub open spec fn owned_by_others(user: Seq<char>) -> spec_fn(ProcessView) -> bool {
    |p: ProcessView| p.user != user && p.user != "unknown"@
}

/// The processes of `list` that `user` owns, in their order.
pub fn user_processes<'a>(list: &'a Vec<ProcessInfo>, user: &String) -> (own: Vec<&'a ProcessInfo>)
    ensures
        borrowed_views(own@) == process_views(list@).filter(owned_by(user@)),
{
    let ghost all = process_views(list@);
    let ghost pred = owned_by(user@);
    let mut own: Vec<&'a ProcessInfo> = Vec::new();
    let mut i: usize = 0;
    while i < list.len()
        invariant
            i <= list.len(),
            all == process_views(list@),
            pred == owned_by(user@),
            borrowed_views(own@) == all.take(i as int).filter(pred),
        decreases list.len() - i,
    {
        proof {
            let seen = all.take(i as int);
            assert(all.take(i + 1) =~= seen.push(list[i as int]@));
            seen.lemma_filter_push(list[i as int]@, pred);
        }
        let info: &'a ProcessInfo = &list[i];
        if info.user == *user {
            assert(borrowed_views(own@.push(info)) =~= borrowed_views(own@).push(info@));
            own.push(info);
        }
        i += 1;
    }
    assert(all.take(list.len() as int) =~= all);
    own
}

/// The processes of `list` whose owner is known and is not `user`, in
/// their order.
pub fn system_processes<'a>(list: &'a Vec<ProcessInfo>, user: &String) -> (others: Vec<
    &'a ProcessInfo,
>)
    ensures
        borrowed_views(others@) == process_views(list@).filter(owned_by_others(user@)),
{
    let ghost all = process_views(list@);
    let ghost pred = owned_by_others(user@);
    let unknown = String::from_str("unknown");
    let mut others: Vec<&'a ProcessInfo> = Vec::new();
    let mut i: usize = 0;
    while i < list.len()
        invariant
            i <= list.len(),
            all == process_views(list@),
            pred == owned_by_others(user@),
            unknown@ == "unknown"@,
            borrowed_views(others@) == all.take(i as int).filter(pred),
        decreases list.len() - i,
    {
        proof {
            let seen = all.take(i as int);
            assert(all.take(i + 1) =~= seen.push(list[i as int]@));
            seen.lemma_filter_push(list[i as int]@, pred);
        }
        let info: &'a ProcessInfo = &list[i];
        if info.user != *user && info.user != unknown {
            assert(borrowed_views(others@.push(info)) =~= borrowed_views(others@).push(info@));
            others.push(info);
        }
        i += 1;
    }
    assert(all.take(list.len() as int) =~= all);
    others
}

} // verus!
