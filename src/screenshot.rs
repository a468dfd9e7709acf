//! Where a screenshot to send is written, and under which name.
use vstd::prelude::*;

use crate::error::SyncError;
use crate::text::{chars_of, push_char, write_two_digits};

verus! {

/// A local wall-clock time, as its calendar fields.
#[derive(Clone, Copy, Debug)]
pub struct LocalTime {
    pub year: u16,
    pub month: u8,
    pub day: u8,
    pub hour: u8,
    pub minute: u8,
    pub second: u8,
}

impl LocalTime {
    /// Fields in their calendar ranges (a leap second allowed), with a
    /// four-digit year.
    pub open spec fn wf(&self) -> bool {
        &&& self.year <= 9999
        &&& 1 <= self.month <= 12
        &&& 1 <= self.day <= 31
        &&& self.hour < 24
        &&& self.minute < 60
        &&& self.second <= 60
    }
}

/// `n` as two decimal digits.
pub open spec fn two_digits(n: u8) -> Seq<char> {
    seq![((n / 10 + 48) as u8) as char, ((n % 10 + 48) as u8) as char]
}

/// `y` as four decimal digits.
pub open spec fn four_digits(y: u16) -> Seq<char> {
    two_digits((y / 100) as u8) + two_digits((y % 100) as u8)
}

/// `screenshot_YYYY-MM-DD_HH-MM-SS.jpg` for the time `t`.
pub open spec fn screenshot_name_spec(t: LocalTime) -> Seq<char> {
    "screenshot_"@ + four_digits(t.year) + seq!['-'] + two_digits(t.month) + seq!['-']
        + two_digits(t.day) + seq!['_'] + two_digits(t.hour) + seq!['-'] + two_digits(t.minute)
        + seq!['-'] + two_digits(t.second) + ".jpg"@
}

/// `name` inside the directory `dir`, with one separator between them.
pub open spec fn join_spec(dir: Seq<char>, name: Seq<char>) -> Seq<char> {
    if dir.len() == 0 || dir.last() == '/' {
        dir + name
    } else {
        dir + seq!['/'] + name
    }
}

/// The file name of a screenshot taken at `t`.
pub fn screenshot_file_name(t: &LocalTime) -> (r: String)
    requires
        t.wf(),
    ensures
        r@ == screenshot_name_spec(*t),
{
    let mut r = String::from_str("screenshot_");
    write_two_digits(&mut r, (t.year / 100) as u8);
    write_two_digits(&mut r, (t.year % 100) as u8);
    push_char(&mut r, '-');
    write_two_digits(&mut r, t.month);
    push_char(&mut r, '-');
    write_two_digits(&mut r, t.day);
    push_char(&mut r, '_');
    write_two_digits(&mut r, t.hour);
    push_char(&mut r, '-');
    write_two_digits(&mut r, t.minute);
    push_char(&mut r, '-');
    write_two_digits(&mut r, t.second);
    r.append(".jpg");
    assert(r@ =~= screenshot_name_spec(*t));
    r
}

/// The path of `name` inside `dir`.
pub fn join_path(dir: &str, name: &str) -> (r: String)
    ensures
        r@ == join_spec(dir@, name@),
{
    let cs = chars_of(dir);
    let mut r = String::from_str(dir);
    if cs.len() != 0 && cs[cs.len() - 1] != '/' {
        push_char(&mut r, '/');
    }
    r.append(name);
    r
}

/// Where a screenshot taken at `now` goes: its path inside `temp_dir` and
/// its file name. Fails with `PlatformUnsupported` where the platform has
/// no capture facility.
pub fn capture_screenshot_to_jpg(supported: bool, now: &LocalTime, temp_dir: &str) -> (r: Result<
    (String, String),
    SyncError,
>)
    requires
        now.wf(),
    ensures
        supported ==> r is Ok && r->Ok_0.1@ == screenshot_name_spec(*now) && r->Ok_0.0@
            == join_spec(temp_dir@, screenshot_name_spec(*now)),
        !supported ==> r is Err && r->Err_0 is PlatformUnsupported,
{
    if !supported {
        return Err(SyncError::PlatformUnsupported);
    }
    let name = screenshot_file_name(now);
    let path = join_path(temp_dir, name.as_str());
    Ok((path, name))
}

} // verus!
