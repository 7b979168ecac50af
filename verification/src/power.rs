//! Keeping the Mac awake and waking its screen with `caffeinate`: the
//! command lines and what the commands answer.
use vstd::prelude::*;
use crate::text::{decimal, joined, push_decimal, result_text};

verus! {

/// The program that keeps the Mac awake.
pub const CAFFEINATE: &'static str = "caffeinate";

/// The answer of every command on a platform other than macOS.
pub fn unsupported_platform() -> (e: String)
    ensures
        e@ == "Only supported on macOS"@,
{
    String::from_str("Only supported on macOS")
}

/// Whether the app may keep the Mac from sleeping: on macOS, and nowhere
/// else.
pub fn check_sleep_permission(on_macos: bool) -> (allowed: bool)
    ensures
        allowed == on_macos,
{
    on_macos
}

/// The seconds that `minutes` minutes last.
pub fn sleep_seconds(minutes: u32) -> (s: u32)
    requires
        minutes * 60 <= u32::MAX,
    ensures
        s == minutes * 60,
{
    minutes * 60
}

/// The texts of a list of strings.
pub open spec fn texts(v: Seq<String>) -> Seq<Seq<char>> {
    v.map_values(|s: String| s@)
}

/// The arguments of `caffeinate` that keep the display awake for
/// `minutes` minutes: `-d -t <seconds>`.
pub fn prevent_sleep_args(minutes: u32) -> (args: Vec<String>)
    requires
        minutes * 60 <= u32::MAX,
    ensures
        texts(args@) == seq!["-d"@, "-t"@, decimal((minutes * 60) as nat)],
{
    let seconds = sleep_seconds(minutes);
    let mut n = String::new();
    push_decimal(&mut n, seconds as u64);
    assert(Seq::<char>::empty() + decimal(seconds as nat) =~= decimal(seconds as nat));
    let mut args: Vec<String> = Vec::new();
    args.push(String::from_str("-d"));
    args.push(String::from_str("-t"));
    args.push(n);
    assert(texts(args@) =~= seq!["-d"@, "-t"@, decimal((minutes * 60) as nat)]);
    args
}

/// The answer of the command that keeps the Mac awake, once `caffeinate`
/// has been started (`Ok`) or could not be (`Err` with the cause's text).
pub fn prevent_sleep_result(minutes: u32, launched: Result<(), String>) -> (r: Result<String, String>)
    ensures
        result_text(r) == match launched {
            Ok(()) => Ok("Sleep prevented for "@ + decimal(minutes as nat) + " minutes"@),
            Err(e) => Err("Error: "@ + e@),
        },
{
    match launched {
        Ok(()) => {
            let mut m = String::from_str("Sleep prevented for ");
            push_decimal(&mut m, minutes as u64);
            m.append(" minutes");
            Ok(m)
        },
        Err(e) => Err(joined("Error: ", e.as_str())),
    }
}

/// The arguments of `caffeinate` that wake the screen: `-u -t 5`.
pub fn wake_screen_args() -> (args: Vec<String>)
    ensures
        texts(args@) == seq!["-u"@, "-t"@, "5"@],
{
    let mut args: Vec<String> = Vec::new();
    args.push(String::from_str("-u"));
    args.push(String::from_str("-t"));
    args.push(String::from_str("5"));
    assert(texts(args@) =~= seq!["-u"@, "-t"@, "5"@]);
    args
}

/// The answer of the command that wakes the screen, once `caffeinate` has
/// been started (`Ok`) or could not be (`Err` with the cause's text).
pub fn wake_screen_result(launched: Result<(), String>) -> (r: Result<String, String>)
    ensures
        result_text(r) == match launched {
            Ok(()) => Ok("Screen awakened"@),
            Err(e) => Err("Error: "@ + e@),
        },
{
    match launched {
        Ok(()) => Ok(String::from_str("Screen awakened")),
        Err(e) => Err(joined("Error: ", e.as_str())),
    }
}

} // verus!
