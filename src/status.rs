//! How a commit's time compares with the upstream commit's, in words.
use vstd::prelude::*;

verus! {

/// A commit's time: seconds since the epoch, and the time zone offset in
/// minutes. Times are ordered by seconds, then by offset.
#[derive(Clone, Copy, Debug, PartialEq, Eq, Structural)]
pub struct CommitTime {
    pub seconds: i64,
    pub offset_minutes: i32,
}

/// The text humantime gives for a duration of whole seconds.
pub uninterp spec fn duration_text(secs: nat) -> Seq<char>;

/// Relies on humantime::format_duration, rendered with `to_string`: the
/// text depends on the number of seconds alone.
#[verifier::external_body]
fn format_duration_secs(secs: u64) -> (r: String)
    ensures
        r@ == duration_text(secs as nat),
{
    humantime::format_duration(std::time::Duration::from_secs(secs)).to_string()
}

pub open spec fn later(a: CommitTime, b: CommitTime) -> bool {
    a.seconds > b.seconds || (a.seconds == b.seconds && a.offset_minutes > b.offset_minutes)
}

pub open spec fn abs_diff(a: i64, b: i64) -> nat {
    if a >= b {
        (a - b) as nat
    } else {
        (b - a) as nat
    }
}

/// The phrase for `prospective` against `current`, given the text of the
/// distance between them.
pub open spec fn relative_phrase(current: CommitTime, prospective: CommitTime, text: Seq<char>) -> Seq<
    char,
> {
    if later(prospective, current) {
        text + " newer than"@
    } else if later(current, prospective) {
        text + " older than"@
    } else {
        "the same as"@
    }
}

/// The phrase for `prospective` against `current`, with `duration` standing
/// for the distance between them.
pub fn describe_relative(current: CommitTime, prospective: CommitTime, duration: &str) -> (r: String)
    ensures
        r@ == relative_phrase(current, prospective, duration@),
{
    let newer = prospective.seconds > current.seconds || (prospective.seconds == current.seconds
        && prospective.offset_minutes > current.offset_minutes);
    let older = current.seconds > prospective.seconds || (current.seconds == prospective.seconds
        && current.offset_minutes > prospective.offset_minutes);
    if newer {
        let mut r = duration.to_owned();
        r.append(" newer than");
        r
    } else if older {
        let mut r = duration.to_owned();
        r.append(" older than");
        r
    } else {
        "the same as".to_owned()
    }
}

/// How `prospective` compares with `current`: "<distance> newer than",
/// "<distance> older than", or "the same as".
pub fn relative_time(current: CommitTime, prospective: CommitTime) -> (r: String)
    ensures
        r@ == relative_phrase(
            current,
            prospective,
            duration_text(abs_diff(prospective.seconds, current.seconds)),
        ),
{
    let diff: u64 = if prospective.seconds >= current.seconds {
        (prospective.seconds as i128 - current.seconds as i128) as u64
    } else {
        (current.seconds as i128 - prospective.seconds as i128) as u64
    };
    let text = format_duration_secs(diff);
    describe_relative(current, prospective, text.as_str())
}

} // verus!
