//! The transcript log: the names of its files, and when a file is old enough to be removed.

use vstd::prelude::*;

use crate::config::below_home;
use crate::text::{last_part, parse_unsigned, strip_extension, to_decimal};

verus! {

/// How many days transcripts are kept.
pub const RETENTION_DAYS: u64 = 7;

/// The seconds that transcripts are kept.
pub const RETENTION_SECONDS: u64 = RETENTION_DAYS * 86400;

/// The form of the date and time in a file name.
pub const STAMP_FORMAT: &'static str = "%Y-%m-%d_%H-%M-%S";

/// The end of the year 9999, in seconds since the Unix epoch.
pub const YEAR_9999_END: i64 = 253_402_300_799;

/// The directory of the log, out of `XDG_STATE_HOME` and `USER`.
pub open spec fn directory_of(state_home: Option<&str>, user: Option<&str>) -> Seq<char> {
    crate::config::variable_or(
        state_home,
        crate::config::home_directory(user, "/.local/state"@),
    ) + "/lds/transcripts"@
}

/// The directory of the transcript log.
pub fn transcript_dir(state_home: Option<&str>, user: Option<&str>) -> (path: String)
    ensures
        path@ == directory_of(state_home, user),
{
    let mut path: String = match state_home {
        Some(state_home) => state_home.to_string(),
        None => below_home(user, "/.local/state"),
    };
    path.append("/lds/transcripts");
    path
}

/// The date and time at `timestamp` seconds since the Unix epoch, where clocks are `utc_offset`
/// seconds ahead of UTC, in the form `format`: nothing where that is out of range.
pub uninterp spec fn stamp_at(timestamp: i64, utc_offset: i32, format: Seq<char>) -> Option<
    Seq<char>,
>;

/// Calls `chrono::DateTime::format`, on the time and the offset from UTC. The text is a function of
/// the time, the offset and the form; there is one for every time from the Unix epoch to the end of
/// the year 9999 and every offset below a day.
#[verifier::external_body]
fn format_stamp(timestamp: i64, utc_offset: i32, format: &str) -> (stamp: Option<String>)
    requires
        format@ == STAMP_FORMAT@,
    ensures
        crate::ipc::optional_text(stamp) == stamp_at(timestamp, utc_offset, format@),
        0 <= timestamp <= YEAR_9999_END && -86400 < utc_offset < 86400 ==> stamp is Some,
{
    let offset = chrono::FixedOffset::east_opt(utc_offset)?;
    let utc = chrono::DateTime::from_timestamp(timestamp, 0)?;
    Some(utc.with_timezone(&offset).format(format).to_string())
}

/// A time as seconds since the Unix epoch, with times before it as the epoch.
pub open spec fn since_epoch(timestamp: i64) -> u64 {
    if timestamp < 0 {
        0
    } else {
        timestamp as u64
    }
}

/// The seconds since the Unix epoch.
pub fn epoch_seconds(timestamp: i64) -> (secs: u64)
    ensures
        secs == since_epoch(timestamp),
{
    if timestamp < 0 {
        0
    } else {
        timestamp as u64
    }
}

/// The name of the file for a transcript of the time `stamp`, which is `secs`.
pub open spec fn name_of(stamp: Seq<char>, secs: u64) -> Seq<char> {
    stamp + "_"@ + crate::text::decimal(secs as nat) + ".txt"@
}

/// The name of a transcript's file: `YYYY-MM-DD_HH-MM-SS_unixepoch.txt`.
pub fn file_name(stamp: &str, secs: u64) -> (name: String)
    ensures
        name@ == name_of(stamp@, secs),
        name@ == stamp@ + "_"@ + crate::text::decimal(secs as nat) + ".txt"@,
{
    let mut name: String = stamp.to_string();
    name.append("_");
    name.append(to_decimal(secs).as_str());
    name.append(".txt");
    name
}

/// The name of the file for a transcript that is saved at a time, where clocks are `utc_offset`
/// seconds ahead of UTC.
pub fn file_name_at(timestamp: i64, utc_offset: i32) -> (name: Option<String>)
    ensures
        match name {
            Some(name) => stamp_at(timestamp, utc_offset, STAMP_FORMAT@) is Some && name@
                == name_of(
                stamp_at(timestamp, utc_offset, STAMP_FORMAT@)->0,
                since_epoch(timestamp),
            ),
            None => stamp_at(timestamp, utc_offset, STAMP_FORMAT@) is None,
        },
        0 <= timestamp <= YEAR_9999_END && -86400 < utc_offset < 86400 ==> name is Some,
{
    match format_stamp(timestamp, utc_offset, STAMP_FORMAT) {
        Some(stamp) => Some(file_name(stamp.as_str(), epoch_seconds(timestamp))),
        None => None,
    }
}

/// The time in the name of a transcript's file.
pub open spec fn epoch_in(name: Seq<char>) -> Option<u64> {
    if crate::text::has_extension(name, "txt"@) {
        crate::text::unsigned_value(crate::text::after_last(crate::text::stem(name), '_'))
    } else {
        None
    }
}

/// Reads the time in the name of a transcript's file: what stands behind the last underscore of
/// its stem.
pub fn epoch_of(name: &str) -> (epoch: Option<u64>)
    ensures
        epoch == epoch_in(name@),
{
    match strip_extension(name, "txt") {
        Some(stem) => {
            let last: String = last_part(stem.as_str(), '_');
            parse_unsigned(last.as_str())
        },
        None => None,
    }
}

/// The time before which a transcript is too old, seen from `timestamp`.
pub open spec fn cutoff_at(timestamp: i64) -> u64 {
    if since_epoch(timestamp) < RETENTION_SECONDS {
        0
    } else {
        (since_epoch(timestamp) - RETENTION_SECONDS) as u64
    }
}

/// The time before which a transcript is too old.
pub fn cutoff(timestamp: i64) -> (secs: u64)
    ensures
        secs == cutoff_at(timestamp),
{
    epoch_seconds(timestamp).saturating_sub(RETENTION_SECONDS)
}

/// The file is a transcript from before the cutoff.
pub open spec fn expired(name: Seq<char>, cutoff: u64) -> bool {
    match epoch_in(name) {
        Some(epoch) => epoch < cutoff,
        None => false,
    }
}

/// Whether a file of the log is to be removed. A file that is not named like a transcript stays.
pub fn is_expired(name: &str, cutoff: u64) -> (result: bool)
    ensures
        result == expired(name@, cutoff),
{
    match epoch_of(name) {
        Some(epoch) => epoch < cutoff,
        None => false,
    }
}

/// The name of a transcript's file gives back the time it was saved at, whatever its date and time
/// look like.
pub proof fn law_name_gives_back_the_time(stamp: Seq<char>, secs: u64)
    ensures
        epoch_in(name_of(stamp, secs)) == Some(secs),
{
    let digits = crate::text::decimal(secs as nat);
    let name = name_of(stamp, secs);
    let stem = stamp.push('_') + digits;
    crate::text::lemma_decimal_is_digits(secs as nat);
    crate::text::lemma_decimal_reads_back(secs);
    assert("txt"@.len() == 3 && !"txt"@.contains('.') && stem.push('.') + "txt"@ =~= name) by {
        reveal_strlit("txt");
        reveal_strlit(".txt");
        reveal_strlit("_");
        assert("_"@ =~= seq!['_']);
        assert(".txt"@ =~= seq!['.'] + "txt"@);
        assert(stamp + "_"@ =~= stamp.push('_'));
    }
    crate::text::lemma_after_last_append(stem, '.', "txt"@);
    assert(crate::text::stem(name) =~= stem);
    assert(!digits.contains('_')) by {
        assert forall|i: int| 0 <= i < digits.len() implies digits[i] != '_' by {
            assert('0' <= digits[i] <= '9');
        }
    }
    crate::text::lemma_after_last_append(stamp, '_', digits);
}

/// A transcript is removed when more than the days of retention have passed since it was saved, and
/// not before.
pub proof fn law_transcripts_are_kept_for_the_retention(
    stamp: Seq<char>,
    saved: i64,
    now: i64,
)
    ensures
        expired(name_of(stamp, since_epoch(saved)), cutoff_at(now)) <==> since_epoch(saved)
            + RETENTION_DAYS * 86400 < since_epoch(now),
{
    law_name_gives_back_the_time(stamp, since_epoch(saved));
}

/// The time in a file name is what stands behind the last underscore before `.txt`, whatever stands
/// before that; a name that does not end in `.txt` has none.
pub proof fn law_time_stands_behind_the_last_underscore(before: Seq<char>, n: u64, name: Seq<char>)
    ensures
        epoch_in(before + "_"@ + crate::text::decimal(n as nat) + ".txt"@) == Some(n),
        epoch_in(name) is Some ==> exists|rest: Seq<char>|
            rest.len() > 0 && name == #[trigger] (rest + ".txt"@),
{
    law_name_gives_back_the_time(before, n);
    if epoch_in(name) is Some {
        reveal_strlit("txt");
        reveal_strlit(".txt");
        assert(!"txt"@.contains('.'));
        crate::text::law_extension_stands_behind_a_dot(name, "txt"@);
        let rest = choose|rest: Seq<char>|
            rest.len() > 0 && name == #[trigger] rest.push('.') + "txt"@;
        assert(rest.push('.') + "txt"@ =~= rest + ".txt"@);
    }
}

/// A file's name starts with its date and time, and files of different times have different names,
/// whatever their dates and times look like.
pub proof fn law_names_tell_times_apart(a: Seq<char>, b: Seq<char>, m: u64, n: u64)
    requires
        m != n,
    ensures
        name_of(a, m) != name_of(b, n),
        name_of(a, m).take(a.len() as int) == a,
{
    law_name_gives_back_the_time(a, m);
    law_name_gives_back_the_time(b, n);
    assert(name_of(a, m).take(a.len() as int) =~= a);
}

/// A transcript is removed once more than seven days have gone by since it was saved, and one that is
/// removable at one time is so at every later one.
pub proof fn law_seven_days_are_kept(stamp: Seq<char>, saved: u32, now: u32, later: u32)
    ensures
        expired(name_of(stamp, saved as u64), cutoff_at(now as i64)) <==> now > saved + 604_800,
        later >= now && expired(name_of(stamp, saved as u64), cutoff_at(now as i64)) ==> expired(
            name_of(stamp, saved as u64),
            cutoff_at(later as i64),
        ),
        since_epoch(saved as i64) == saved,
        since_epoch((-1 - saved) as i64) == 0,
{
    law_name_gives_back_the_time(stamp, saved as u64);
}

/// The log stands below the configured directory where there is one, whoever the user is, and else
/// below the user's home.
pub proof fn law_log_directory_is_found(state_home: &str, user: Option<&str>)
    ensures
        directory_of(Some(state_home), user) == state_home@ + "/lds/transcripts"@,
        directory_of(None, user) == "/home/"@ + (match user {
            Some(user) => user@,
            None => "byte"@,
        }) + "/.local/state/lds/transcripts"@,
{
    reveal_strlit("/.local/state");
    reveal_strlit("/lds/transcripts");
    reveal_strlit("/.local/state/lds/transcripts");
    assert(directory_of(None, user) =~= "/home/"@ + (match user {
        Some(user) => user@,
        None => "byte"@,
    }) + "/.local/state/lds/transcripts"@);
}

} // verus!
