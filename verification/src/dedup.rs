//! Suppressing duplicate hook events: the lock file that a handled event
//! leaves behind, and when such a lock still holds.
use vstd::prelude::*;

use crate::text::{decimal, lemma_parse_decimal, push_decimal, chars_of, parse_u64, parse_u64_spec, push_str, string_of, trim, trim_chars};

verus! {

/// The file name of the lock of a session:
/// `hook-notify-dedup-<session id>.lock`.
pub open spec fn lock_file_name_spec(session_id: Seq<char>) -> Seq<char> {
    "hook-notify-dedup-"@ + session_id + ".lock"@
}

/// The file name of the lock of a session (it lives in the temporary
/// directory).
pub fn dedup_lock_file_name(session_id: &str) -> (r: String)
    ensures
        r@ == lock_file_name_spec(session_id@),
{
    let mut v = chars_of("hook-notify-dedup-");
    push_str(&mut v, session_id);
    push_str(&mut v, ".lock");
    string_of(&v)
}

/// The time stamp that a lock file holds: its text, trimmed, as Unix
/// seconds; 0 when it is not a number.
pub open spec fn lock_stamp(content: Seq<char>) -> u64 {
    match parse_u64_spec(trim(content)) {
        Some(t) => t,
        None => 0,
    }
}

/// A lock written at `stamp` is still held at `now` while its age (0 for
/// a stamp in the future) is below the time to live.
pub open spec fn lock_held_spec(content: Seq<char>, now: u64, ttl_seconds: u64) -> bool {
    let t = lock_stamp(content);
    let age = if now >= t {
        now - t
    } else {
        0
    };
    age < ttl_seconds
}

/// Whether an existing lock file with the given content still holds at
/// Unix time `now`. A lock that no longer holds is stale and may be
/// replaced.
pub fn lock_is_held(content: &str, now: u64, ttl_seconds: u64) -> (r: bool)
    ensures
        r == lock_held_spec(content@, now, ttl_seconds),
{
    let v = chars_of(content);
    let t = string_of(&trim_chars(&v));
    let stamp = match parse_u64(t.as_str()) {
        Some(x) => x,
        None => 0,
    };
    let age = now.saturating_sub(stamp);
    age < ttl_seconds
}


/// A lock file written with the decimal Unix time `stamp` (as a handled
/// event leaves it) holds at `now` exactly while its age is below the time
/// to live; a stamp later than `now` counts as age 0.
pub proof fn lemma_written_lock_holds(stamp: u64, now: u64, ttl_seconds: u64)
    ensures
        lock_held_spec(decimal(stamp as nat), now, ttl_seconds) == if now >= stamp {
            now - stamp < ttl_seconds
        } else {
            0 < ttl_seconds
        },
{
    lemma_parse_decimal(stamp);
}


/// What taking the lock at Unix time `now` does, given the content of an
/// existing lock file (`None` when there is none): `None` when that lock
/// still holds, so the lock is not taken and the file is left as it is;
/// else the text to write into the lock file, `now` in decimal.
pub open spec fn lock_write_spec(existing: Option<Seq<char>>, now: u64, ttl_seconds: u64) -> Option<
    Seq<char>,
> {
    match existing {
        Some(c) => if lock_held_spec(c, now, ttl_seconds) {
            None
        } else {
            Some(decimal(now as nat))
        },
        None => Some(decimal(now as nat)),
    }
}

/// What taking the lock at Unix time `now` does: `None` when the existing
/// lock file (content `existing`) still holds, else the text to write.
pub fn lock_to_write(existing: Option<&str>, now: u64, ttl_seconds: u64) -> (r: Option<String>)
    ensures
        match r {
            Some(t) => lock_write_spec(
                match existing {
                    Some(c) => Some(c@),
                    None => None,
                },
                now,
                ttl_seconds,
            ) == Some(t@),
            None => lock_write_spec(
                match existing {
                    Some(c) => Some(c@),
                    None => None,
                },
                now,
                ttl_seconds,
            ) is None,
        },
{
    let held = match existing {
        Some(c) => lock_is_held(c, now, ttl_seconds),
        None => false,
    };
    if held {
        None
    } else {
        let mut v: Vec<char> = Vec::new();
        push_decimal(&mut v, now);
        Some(string_of(&v))
    }
}

/// Taking a free lock at `t1` writes `t1`; taking it again at `t2`, less
/// than the time to live later, is refused and leaves that file as it is;
/// once the time to live has passed it is taken again.
pub proof fn lemma_second_acquire_refused(t1: u64, t2: u64, ttl_seconds: u64)
    requires
        t1 <= t2,
    ensures
        lock_write_spec(None, t1, ttl_seconds) == Some(decimal(t1 as nat)),
        t2 - t1 < ttl_seconds ==> lock_write_spec(Some(decimal(t1 as nat)), t2, ttl_seconds) is None,
        t2 - t1 >= ttl_seconds ==> lock_write_spec(Some(decimal(t1 as nat)), t2, ttl_seconds) == Some(
            decimal(t2 as nat),
        ),
{
    lemma_written_lock_holds(t1, t2, ttl_seconds);
}

} // verus!
