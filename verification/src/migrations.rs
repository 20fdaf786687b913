//! The migration runner's decisions: which version a database file is at,
//! and what has to run to bring it to the version this build understands.
//! Forward-only: there are no down migrations.

use vstd::prelude::*;

use crate::clock::{debug_quoted, quoted};
use crate::repository::{StorageError, StorageErrorView};
use crate::schema::is_digit;
use crate::text::{chars_of, decimal, owned, push_decimal};

verus! {

/// Where `meta` records the highest applied migration.
pub const VERSION_KEY: &'static str = "schema_version";

/// Whether `meta` exists yet: it is created by the first migration, so on a
/// fresh file asking for its contents would fail.
pub const META_EXISTS: &'static str = "SELECT count(*) FROM sqlite_master WHERE type = 'table' AND name = 'meta'";

/// Reads the recorded version; binds [`VERSION_KEY`].
pub const READ_VERSION: &'static str = "SELECT value FROM meta WHERE key = ?1";

/// Records a version; binds [`VERSION_KEY`] and the version's text.
pub const WRITE_VERSION: &'static str = "INSERT INTO meta (key, value) VALUES (?1, ?2) ON CONFLICT(key) DO UPDATE SET value = excluded.value";

/// The first schema: the records table, the collections table and `meta`.
pub const INIT_SCRIPT: &'static str = "CREATE TABLE meta (key TEXT PRIMARY KEY NOT NULL, value TEXT NOT NULL);
CREATE TABLE collections (slug TEXT PRIMARY KEY NOT NULL, label TEXT NOT NULL);
CREATE TABLE records (
    id TEXT PRIMARY KEY NOT NULL,
    collection TEXT NOT NULL,
    data TEXT NOT NULL,
    created_at TEXT NOT NULL,
    updated_at TEXT NOT NULL
);
CREATE INDEX records_by_collection ON records (collection, id);";

/// Every migration, as (version, script), in ascending version order.
pub open spec fn migration_list() -> Seq<(u32, Seq<char>)> {
    seq![(1u32, INIT_SCRIPT@)]
}

/// Every migration, embedded so that the binary carries its own schema.
pub fn migrations() -> (m: Vec<(u32, &'static str)>)
    ensures
        m@.map_values(|e: (u32, &'static str)| (e.0, e.1@)) == migration_list(),
{
    let mut m: Vec<(u32, &'static str)> = Vec::new();
    m.push((1, INIT_SCRIPT));
    assert(m@.map_values(|e: (u32, &'static str)| (e.0, e.1@)) =~= migration_list());
    m
}

/// The largest version in `list`; `0` for none.
pub open spec fn highest(list: Seq<(u32, Seq<char>)>) -> u32
    decreases list.len(),
{
    if list.len() == 0 {
        0
    } else {
        let rest = highest(list.drop_last());
        if list.last().0 > rest { list.last().0 } else { rest }
    }
}

/// The version a freshly migrated database ends up at.
pub fn latest_version() -> (v: u32)
    ensures
        v == highest(migration_list()),
{
    let m = migrations();
    let ghost list = migration_list();
    let mut best: u32 = 0;
    let mut i: usize = 0;
    while i < m.len()
        invariant
            0 <= i <= m.len(),
            m@.map_values(|e: (u32, &'static str)| (e.0, e.1@)) == list,
            best == highest(list.take(i as int)),
        decreases m.len() - i,
    {
        assert(list.take(i + 1).drop_last() =~= list.take(i as int));
        assert(list[i as int].0 == m[i as int].0);
        if m[i].0 > best {
            best = m[i].0;
        }
        i = i + 1;
    }
    assert(list.take(m.len() as int) =~= list);
    best
}

/// How `str::parse::<u32>` reads `text`: an optional `+`, then one or more
/// decimal digits whose value fits in 32 bits.
pub open spec fn u32_reading(text: Seq<char>) -> Option<u32> {
    let digits = sign_stripped(text);
    if digits.len() == 0 || !all_digits(digits) {
        None
    } else if digits_value(digits) <= u32::MAX {
        Some(digits_value(digits) as u32)
    } else {
        None
    }
}

/// `text` without a leading `+`.
pub open spec fn sign_stripped(text: Seq<char>) -> Seq<char> {
    if text.len() > 0 && text[0] == '+' {
        text.drop_first()
    } else {
        text
    }
}

/// Whether every character of `s` is a decimal digit.
pub open spec fn all_digits(s: Seq<char>) -> bool {
    forall|k: int| 0 <= k < s.len() ==> is_digit(#[trigger] s[k])
}

/// The value of a run of decimal digits.
pub open spec fn digits_value(digits: Seq<char>) -> nat
    decreases digits.len(),
{
    if digits.len() == 0 {
        0
    } else {
        digits_value(digits.drop_last()) * 10 + ((digits.last() as u32) - ('0' as u32)) as nat
    }
}

/// Reads a version number the way `str::parse::<u32>` does.
pub fn parse_version(text: &str) -> (r: Option<u32>)
    ensures
        r == u32_reading(text@),
{
    let chars = chars_of(text);
    let start: usize = if chars.len() > 0 && chars[0] == '+' { 1 } else { 0 };
    let ghost digits = sign_stripped(text@);
    assert(digits =~= chars@.skip(start as int));
    if start == chars.len() {
        return None;
    }
    let mut value: u64 = 0;
    let mut i: usize = start;
    while i < chars.len()
        invariant
            chars@ == text@,
            start <= i <= chars.len(),
            digits == chars@.skip(start as int),
            digits == sign_stripped(text@),
            digits.len() > 0,
            forall|k: int| 0 <= k < i - start ==> is_digit(#[trigger] digits[k]),
            value == digits_value(digits.take(i - start)),
            value <= u32::MAX,
        decreases chars.len() - i,
    {
        let c = chars[i];
        assert(digits[i - start] == c);
        if !('0' <= c && c <= '9') {
            assert(!is_digit(digits[i - start]));
            return None;
        }
        let d: u64 = (c as u32 - '0' as u32) as u64;
        assert(digits.take(i - start + 1).drop_last() =~= digits.take(i - start));
        let next = value * 10 + d;
        if next > u32::MAX as u64 {
            proof {
                assert(digits_value(digits.take(i - start + 1)) == next);
                if all_digits(digits) {
                    lemma_digits_value_grows(digits, i - start + 1);
                }
            }
            return None;
        }
        value = next;
        i = i + 1;
    }
    assert(digits.take(i - start) =~= digits);
    Some(value as u32)
}

/// A longer prefix of digits never has a smaller value.
proof fn lemma_digits_value_grows(digits: Seq<char>, n: int)
    requires
        0 <= n <= digits.len(),
        all_digits(digits),
    ensures
        digits_value(digits.take(n)) <= digits_value(digits),
    decreases digits.len() - n,
{
    if n < digits.len() {
        lemma_digits_value_grows(digits, n + 1);
        assert(digits.take(n + 1).drop_last() =~= digits.take(n));
    } else {
        assert(digits.take(n) =~= digits);
    }
}

/// What is reported of a recorded version that is not a number.
pub open spec fn bad_version_view(text: Seq<char>) -> StorageErrorView {
    StorageErrorView::Migration { detail: VERSION_KEY@ + " is "@ + debug_quoted(text) + ", which is not a version number"@ }
}

/// The version a file records: `0` where it records none yet. A version
/// that is not a number is refused rather than read as zero, which would
/// re-run the first migration over a populated database.
pub fn stored_version(meta_exists: bool, recorded: Option<String>) -> (r: Result<u32, StorageError>)
    ensures
        match r {
            Ok(v) => if !meta_exists {
                v == 0
            } else {
                match recorded {
                    None => v == 0,
                    Some(text) => u32_reading(text@) == Some(v),
                }
            },
            Err(e) => meta_exists && match recorded {
                Some(text) => u32_reading(text@) is None && e@ == bad_version_view(text@),
                None => false,
            },
        },
{
    if !meta_exists {
        return Ok(0);
    }
    match recorded {
        None => Ok(0),
        Some(text) => match parse_version(text.as_str()) {
            Some(v) => Ok(v),
            None => {
                let mut detail = owned(VERSION_KEY);
                detail.append(" is ");
                let q = quoted(text.as_str());
                detail.append(q.as_str());
                detail.append(", which is not a version number");
                Err(StorageError::Migration { detail })
            },
        },
    }
}

/// What is reported of a file from a newer build: both numbers, so that the
/// user can act on it.
pub open spec fn too_new_view(current: u32, latest: u32) -> StorageErrorView {
    StorageErrorView::Migration {
        detail: "database is at schema version "@ + decimal(current as nat) + ", but this build of pressa understands only up to "@
            + decimal(latest as nat) + "; use a newer pressa"@,
    }
}

/// The migrations above `current`, in order.
pub open spec fn pending(list: Seq<(u32, Seq<char>)>, current: u32) -> Seq<(u32, Seq<char>)>
    decreases list.len(),
{
    if list.len() == 0 {
        Seq::empty()
    } else {
        let rest = pending(list.drop_last(), current);
        if list.last().0 > current { rest.push(list.last()) } else { rest }
    }
}

/// What to run on a file at version `current`: nothing when it is current;
/// every later migration, in one transaction, when it is behind; and a
/// refusal when it is ahead, since a newer build may have changed what the
/// columns mean.
pub fn plan(current: u32) -> (r: Result<Vec<(u32, &'static str)>, StorageError>)
    ensures
        match r {
            Ok(steps) => current <= highest(migration_list())
                && steps@.map_values(|e: (u32, &'static str)| (e.0, e.1@)) == pending(migration_list(), current),
            Err(e) => current > highest(migration_list()) && e@ == too_new_view(current, highest(migration_list())),
        },
{
    let latest = latest_version();
    if current > latest {
        let mut detail = owned("database is at schema version ");
        push_decimal(&mut detail, current as u64);
        detail.append(", but this build of pressa understands only up to ");
        push_decimal(&mut detail, latest as u64);
        detail.append("; use a newer pressa");
        return Err(StorageError::Migration { detail });
    }
    let all = migrations();
    let ghost list = migration_list();
    let mut steps: Vec<(u32, &'static str)> = Vec::new();
    let mut i: usize = 0;
    while i < all.len()
        invariant
            0 <= i <= all.len(),
            all@.map_values(|e: (u32, &'static str)| (e.0, e.1@)) == list,
            steps@.map_values(|e: (u32, &'static str)| (e.0, e.1@)) == pending(list.take(i as int), current),
        decreases all.len() - i,
    {
        assert(list.take(i + 1).drop_last() =~= list.take(i as int));
        assert(list[i as int] == (all[i as int].0, all[i as int].1@));
        if all[i].0 > current {
            let ghost before = steps@.map_values(|e: (u32, &'static str)| (e.0, e.1@));
            steps.push(all[i]);
            assert(steps@.map_values(|e: (u32, &'static str)| (e.0, e.1@)) =~= before.push(list[i as int]));
        }
        i = i + 1;
    }
    assert(list.take(all.len() as int) =~= list);
    Ok(steps)
}

/// Running the plan and recording the latest version leaves a file that the
/// next plan has nothing to do for: opening a migrated file again is a no-op.
pub proof fn a_migrated_file_needs_nothing_more()
    ensures
        pending(migration_list(), highest(migration_list())).len() == 0,
{
    assert(pending(migration_list(), highest(migration_list())) =~= Seq::<(u32, Seq<char>)>::empty()) by {
        reveal_with_fuel(pending, 2);
        reveal_with_fuel(highest, 2);
    }
}

/// A fresh file, at version `0`, runs every migration.
pub proof fn a_fresh_file_runs_every_migration()
    ensures
        pending(migration_list(), 0) == migration_list(),
{
    assert(pending(migration_list(), 0) =~= migration_list()) by {
        reveal_with_fuel(pending, 2);
    }
}

} // verus!
