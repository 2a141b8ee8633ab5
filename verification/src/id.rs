//! Composite 64-bit identifiers: 48 bits of seconds since 2000-01-01T00:00:00Z,
//! a 2-bit entity tag, and 14 random bits to reduce same-second collisions.

use vstd::prelude::*;

verus! {

/// Seconds between the Unix epoch and 2000-01-01T00:00:00Z.
pub const EPOCH_2000: u64 = 946684800;

/// Entity kind embedded in an identifier.
pub enum IdType {
    Unknown,
    Message,
    User,
}

/// The 2-bit tag of an identifier kind.
pub open spec fn spec_id_tag(t: IdType) -> u64 {
    match t {
        IdType::Unknown => 0,
        IdType::Message => 1,
        IdType::User => 2,
    }
}

/// Identifier layout: `ts` in the top 48 bits, `tag` in the next 2,
/// `rnd` in the low 14.
pub open spec fn spec_compose_id(ts: u64, tag: u64, rnd: u64) -> u64
    recommends
        ts < 0x1000000000000,
        tag < 4,
        rnd < 0x4000,
{
    (ts * 0x10000 + tag * 0x4000 + rnd) as u64
}

/// The minting time recovered from an identifier: the top 48 bits plus the
/// 2000-01-01 epoch offset.
pub open spec fn spec_to_timestamp(id: u64) -> u64 {
    (id / 0x10000 + EPOCH_2000) as u64
}

/// Composing an identifier from a timestamp, tag and random value and then
/// stripping the low 16 bits recovers the timestamp exactly.
pub proof fn lemma_id_time_recovery(ts: u64, tag: u64, rnd: u64)
    requires
        ts < 0x1000000000000,
        tag < 4,
        rnd < 0x4000,
    ensures
        spec_to_timestamp(spec_compose_id(ts, tag, rnd)) == ts + EPOCH_2000,
{
    let rem = (tag * 0x4000 + rnd) as u64;
    assert(rem < 0x10000);
    assert(ts * 0x10000 + rem < 0x10000000000000000) by (nonlinear_arith)
        requires
            ts < 0x1000000000000,
            rem < 0x10000,
    ;
    assert((ts * 0x10000 + rem) / 0x10000 == ts) by (nonlinear_arith)
        requires
            rem < 0x10000,
    ;
    assert(ts + EPOCH_2000 < 0x10000000000000000);
}

/// Identifier time recovery: an identifier minted at wall-clock unix time `t`
/// (at or after 2000-01-01) decodes back to `t`, whatever the kind and the
/// random bits.
pub proof fn lemma_minted_id_recovers_time(t: u64, tag: u64, rnd: u64)
    requires
        EPOCH_2000 <= t,
        t - EPOCH_2000 < 0x1000000000000,
        tag < 4,
        rnd < 0x4000,
    ensures
        spec_to_timestamp(spec_compose_id((t - EPOCH_2000) as u64, tag, rnd)) == t,
{
    lemma_id_time_recovery((t - EPOCH_2000) as u64, tag, rnd);
}

/// Relies on `std::time::SystemTime::now` and `duration_since`: seconds of the
/// current wall-clock time past the Unix epoch, or 0 if the clock reads
/// earlier than the epoch.
#[verifier::external_body]
fn now_unix_seconds() -> u64 {
    match std::time::SystemTime::now().duration_since(std::time::UNIX_EPOCH) {
        Ok(d) => d.as_secs(),
        Err(_) => 0,
    }
}

/// Relies on `rand::Rng::gen_range`: a value drawn uniformly from the given
/// (non-empty) range.
#[verifier::external_body]
fn random_u14() -> (r: u64)
    ensures
        r < 0x4000,
{
    rand::Rng::gen_range(&mut rand::thread_rng(), 0..0x4000u64)
}

/// Builds the identifier for a mint at unix time `now` with the given random
/// bits.  Times before the 2000 epoch are clamped to it, and the seconds field
/// wraps after 48 bits.
pub fn mint_id(now: u64, id_type: IdType, rnd: u64) -> (r: u64)
    requires
        rnd < 0x4000,
    ensures
        ({
            let ts = if now >= EPOCH_2000 {
                ((now - EPOCH_2000) as u64) % 0x1000000000000
            } else {
                0
            };
            r == spec_compose_id(ts, spec_id_tag(id_type), rnd)
        }),
        EPOCH_2000 <= now && now - EPOCH_2000 < 0x1000000000000 ==> spec_to_timestamp(r) == now,
{
    let since = if now >= EPOCH_2000 {
        now - EPOCH_2000
    } else {
        0
    };
    let ts = since % 0x1000000000000;
    let tag: u64 = match id_type {
        IdType::Unknown => 0,
        IdType::Message => 1,
        IdType::User => 2,
    };
    assert(ts * 0x10000 + tag * 0x4000 + rnd < 0x10000000000000000) by (nonlinear_arith)
        requires
            ts < 0x1000000000000,
            tag < 4,
            rnd < 0x4000,
    ;
    let r = ts * 0x10000 + tag * 0x4000 + rnd;
    proof {
        if EPOCH_2000 <= now && now - EPOCH_2000 < 0x1000000000000 {
            lemma_minted_id_recovers_time(now, tag, rnd);
        }
    }
    r
}

/// Mints a fresh identifier for the given kind from the current wall-clock
/// time and fresh random bits.
pub fn create_id(id_type: IdType) -> (r: u64)
    ensures
        exists|ts: u64, rnd: u64|
            ts < 0x1000000000000 && rnd < 0x4000 && r == spec_compose_id(
                ts,
                spec_id_tag(id_type),
                rnd,
            ),
{
    let now = now_unix_seconds();
    let rnd = random_u14();
    mint_id(now, id_type, rnd)
}

/// Recovers the minting time of an identifier as unix seconds, by stripping
/// the 16 low bits and adding back the 2000-01-01 epoch offset.
pub fn to_timestamp(id: u64) -> (r: u64)
    ensures
        r == spec_to_timestamp(id),
{
    assert(id / 0x10000 <= 0x1000000000000) by (nonlinear_arith);
    id / 0x10000 + EPOCH_2000
}

/// Relies on chrono's `DateTime` formatting: renders the given unix time in
/// the machine's local time zone with the given strftime format; yields an
/// empty string on an invalid format or an out-of-range time.
#[verifier::external_body]
fn format_unix_time_local(secs: u64, fmt: &str) -> String {
    let bad = chrono::format::StrftimeItems::new(fmt).any(
        |it| matches!(it, chrono::format::Item::Error),
    );
    if bad || secs > i64::MAX as u64 {
        return String::new();
    }
    match chrono::DateTime::from_timestamp(secs as i64, 0) {
        Some(dt) => dt.with_timezone(&chrono::Local).format(fmt).to_string(),
        None => String::new(),
    }
}

/// Renders an identifier's minting time as a local-time date string.
pub fn to_timestamp_string(id: u64) -> String {
    let ts = to_timestamp(id);
    format_unix_time_local(ts, "%Y-%m-%d %H:%M:%S")
}

/// Renders an identifier's minting time in the machine's local time zone with
/// the caller's strftime format.
pub fn to_formatted_timestamp(id: u64, fmt: &str) -> String {
    let ts = to_timestamp(id);
    format_unix_time_local(ts, fmt)
}

} // verus!
