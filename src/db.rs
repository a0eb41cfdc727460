use vstd::prelude::*;

use crate::address::Address;
use crate::authentication::validate;
use crate::authentication::validate_spec;
use crate::authentication::ValidationError;
use crate::record::decode_metadata_spec;
use crate::record::decode_payload_spec;
use crate::record::DecodeError;
use crate::record::MetadataRecord;
use crate::record::MetadataView;
use crate::record::Payload;
use crate::record::PayloadView;

verus! {

/// Whether a payload has run out its lifetime at `now` (seconds since the
/// epoch): from the instant `timestamp + ttl` on.
pub open spec fn expired_at_spec(p: PayloadView, now: int) -> bool {
    now >= p.timestamp + p.ttl
}

/// Whether a payload has run out its lifetime at `now`.
pub fn expired_at(payload: &Payload, now: i64) -> (r: bool)
    ensures
        r == expired_at_spec(payload@, now as int),
{
    (now as i128) >= (payload.timestamp as i128) + (payload.ttl as i128)
}

/// Relies on `std::time::SystemTime::now`: the seconds since the Unix epoch,
/// negative before it. Nothing is promised of the value.
#[verifier::external_body]
fn unix_time() -> (r: i64) {
    match std::time::SystemTime::now().duration_since(std::time::UNIX_EPOCH) {
        Ok(d) => d.as_secs() as i64,
        Err(e) => -(e.duration().as_secs() as i64),
    }
}

/// The current time in seconds since the Unix epoch.
pub fn now() -> (r: i64) {
    unix_time()
}

/// Whether a payload has run out its lifetime by the clock, read once.
pub fn expired(payload: &Payload) -> (r: bool)
    ensures
        exists|t: i64| r == expired_at_spec(payload@, t as int),
{
    let t = unix_time();
    expired_at(payload, t)
}

/// What a stored value turns out to be when it is read at some instant.
pub enum Lookup {
    /// Nothing is stored under the key.
    Absent,
    /// A record is stored but its lifetime has run out: it must be deleted
    /// and reported as absent.
    Expired,
    /// The stored bytes are not a record with a readable payload.
    Corrupt,
    /// A live record, with its decoded payload.
    Live(MetadataRecord, Payload),
}

pub enum LookupView {
    Absent,
    Expired,
    Corrupt,
    Live(MetadataView, PayloadView),
}

impl View for Lookup {
    type V = LookupView;

    open spec fn view(&self) -> LookupView {
        match self {
            Lookup::Absent => LookupView::Absent,
            Lookup::Expired => LookupView::Expired,
            Lookup::Corrupt => LookupView::Corrupt,
            Lookup::Live(m, p) => LookupView::Live(m@, p@),
        }
    }
}

pub open spec fn opt_bytes(o: Option<Vec<u8>>) -> Option<Seq<u8>> {
    match o {
        Some(v) => Some(v@),
        None => None,
    }
}

/// What a read at `now` finds in the value stored under a key.
pub open spec fn lookup_spec(raw: Option<Seq<u8>>, now: int) -> LookupView {
    match raw {
        None => LookupView::Absent,
        Some(b) => match decode_metadata_spec(b) {
            None => LookupView::Corrupt,
            Some(m) => match decode_payload_spec(m.serialized_payload) {
                None => LookupView::Corrupt,
                Some(p) => if expired_at_spec(p, now) {
                    LookupView::Expired
                } else {
                    LookupView::Live(m, p)
                },
            },
        },
    }
}

/// Reads the value a store holds under a key at `now`. An expired record
/// is reported as `Expired`, never handed out: the caller deletes it.
pub fn lookup(raw: Option<Vec<u8>>, now: i64) -> (r: Lookup)
    ensures
        r@ == lookup_spec(opt_bytes(raw), now as int),
{
    match raw {
        None => Lookup::Absent,
        Some(b) => match MetadataRecord::decode(b.as_slice()) {
            Err(_) => Lookup::Corrupt,
            Ok(m) => match Payload::decode(m.serialized_payload.as_slice()) {
                Err(_) => Lookup::Corrupt,
                Ok(p) => if expired_at(&p, now) {
                    Lookup::Expired
                } else {
                    Lookup::Live(m, p)
                },
            },
        },
    }
}

/// Whether compaction drops a stored value at `now`: `Ok(true)` when its
/// record has expired, `Ok(false)` when it is live, an error when the bytes
/// are not a record with a readable payload.
pub fn ttl_filter(value: &[u8], now: i64) -> (r: Result<bool, DecodeError>)
    ensures
        match lookup_spec(Some(value@), now as int) {
            LookupView::Expired => r == Ok::<bool, DecodeError>(true),
            LookupView::Live(_, _) => r == Ok::<bool, DecodeError>(false),
            _ => r is Err,
        },
{
    let mut v: Vec<u8> = Vec::new();
    let mut i: usize = 0;
    while i < value.len()
        invariant
            i <= value@.len(),
            v@ == value@.subrange(0, i as int),
        decreases value@.len() - i,
    {
        v.push(value[i]);
        i = i + 1;
        assert(v@ =~= value@.subrange(0, i as int));
    }
    assert(v@ =~= value@);
    match lookup(Some(v), now) {
        Lookup::Expired => Ok(true),
        Lookup::Live(_, _) => Ok(false),
        _ => Err(DecodeError),
    }
}

/// Whether a candidate payload may replace what is stored: anything may
/// replace nothing (or an expired record); an older timestamp is
/// `Outdated`; an equal or newer one passes unless the candidate has
/// itself expired (`ExpiredTTL`); unreadable stored bytes give `EmptyPayload`.
pub open spec fn freshness_spec(current: LookupView, candidate: PayloadView, now: int) -> Result<
    (),
    ValidationError,
> {
    match current {
        LookupView::Absent => Ok(()),
        LookupView::Expired => Ok(()),
        LookupView::Corrupt => Err(ValidationError::EmptyPayload),
        LookupView::Live(_, old) => if candidate.timestamp < old.timestamp {
            Err(ValidationError::Outdated)
        } else if expired_at_spec(candidate, now) {
            Err(ValidationError::ExpiredTTL)
        } else {
            Ok(())
        },
    }
}

/// Checks a candidate payload against what a read of its key found.
pub fn check_freshness(current: &Lookup, candidate: &Payload, now: i64) -> (r: Result<
    (),
    ValidationError,
>)
    ensures
        r == freshness_spec(current@, candidate@, now as int),
{
    match current {
        Lookup::Absent => Ok(()),
        Lookup::Expired => Ok(()),
        Lookup::Corrupt => Err(ValidationError::EmptyPayload),
        Lookup::Live(_, old) => if candidate.timestamp < old.timestamp {
            Err(ValidationError::Outdated)
        } else if expired_at(candidate, now) {
            Err(ValidationError::ExpiredTTL)
        } else {
            Ok(())
        },
    }
}

/// Why a write of a record is refused.
#[derive(Clone, Copy, Debug, PartialEq, Eq, Structural)]
pub enum PutError {
    /// The body is not a record.
    MetadataDecode,
    /// The record's payload is not a payload.
    PayloadDecode,
    /// The record does not authenticate, or is stale or expired.
    Validation(ValidationError),
}

/// Whether the record in `body` may be stored for `addr`, given what a read
/// of that key found at `now`: it must decode, authenticate, carry a
/// readable payload and be fresh, in that order.
pub open spec fn put_decision_spec(addr: Seq<u8>, body: Seq<u8>, current: LookupView, now: int) -> Result<
    (),
    PutError,
> {
    match decode_metadata_spec(body) {
        None => Err(PutError::MetadataDecode),
        Some(m) => match validate_spec(addr, m) {
            Err(e) => Err(PutError::Validation(e)),
            Ok(_) => match decode_payload_spec(m.serialized_payload) {
                None => Err(PutError::PayloadDecode),
                Some(p) => match freshness_spec(current, p, now) {
                    Err(e) => Err(PutError::Validation(e)),
                    Ok(_) => Ok(()),
                },
            },
        },
    }
}

/// Decides a write of the record in `body` for `addr`. On `Ok` the caller
/// stores `body` itself, byte for byte, under the address.
pub fn authorize_put(addr: &Address, body: &[u8], current: &Lookup, now: i64) -> (r: Result<(), PutError>)
    ensures
        r == put_decision_spec(addr@, body@, current@, now as int),
{
    let metadata = match MetadataRecord::decode(body) {
        Ok(m) => m,
        Err(_) => return Err(PutError::MetadataDecode),
    };
    if let Err(e) = validate(addr, &metadata) {
        return Err(PutError::Validation(e));
    }
    let payload = match Payload::decode(metadata.serialized_payload.as_slice()) {
        Ok(p) => p,
        Err(_) => return Err(PutError::PayloadDecode),
    };
    match check_freshness(current, &payload, now) {
        Ok(()) => Ok(()),
        Err(e) => Err(PutError::Validation(e)),
    }
}

/// A write that is accepted carries a record that authenticates for the
/// address; over a live record it is no older than that record and has not
/// itself expired.
pub proof fn lemma_accepted_write(addr: Seq<u8>, body: Seq<u8>, current: LookupView, now: int)
    requires
        put_decision_spec(addr, body, current, now) is Ok,
    ensures
        decode_metadata_spec(body) matches Some(m) && (validate_spec(addr, m) is Ok && (
        decode_payload_spec(m.serialized_payload) matches Some(p) && (current matches LookupView::Live(
            _,
            old,
        ) ==> p.timestamp >= old.timestamp && !expired_at_spec(p, now)))),
{
}

/// What a read at `now` finds under `key` in a store holding `store`.
pub open spec fn store_read(store: Map<Seq<u8>, Seq<u8>>, key: Seq<u8>, now: int) -> LookupView {
    lookup_spec(
        if store.contains_key(key) {
            Some(store[key])
        } else {
            None
        },
        now,
    )
}

/// Against a live record with timestamp `T`, a candidate with timestamp
/// `T - 1` is `Outdated`, and one with timestamp `T` or later passes unless
/// it has itself expired.
pub proof fn lemma_freshness_monotone(
    stored_record: MetadataView,
    stored: PayloadView,
    candidate: PayloadView,
    now: int,
)
    ensures
        candidate.timestamp == stored.timestamp - 1 ==> freshness_spec(
            LookupView::Live(stored_record, stored),
            candidate,
            now,
        ) == Err::<(), ValidationError>(ValidationError::Outdated),
        candidate.timestamp >= stored.timestamp && !expired_at_spec(candidate, now)
            ==> freshness_spec(LookupView::Live(stored_record, stored), candidate, now) == Ok::<
            (),
            ValidationError,
        >(()),
{
}

/// A stored record with timestamp `t` and lifetime `n` reads back whole at
/// `t + n - 1`, and reads as expired at `t + n` and at `t + n + 1`.
pub proof fn lemma_ttl_expiry(b: Seq<u8>, m: MetadataView, p: PayloadView)
    requires
        decode_metadata_spec(b) == Some(m),
        decode_payload_spec(m.serialized_payload) == Some(p),
    ensures
        lookup_spec(Some(b), p.timestamp + p.ttl - 1) == LookupView::Live(m, p),
        lookup_spec(Some(b), p.timestamp + p.ttl) == LookupView::Expired,
        lookup_spec(Some(b), p.timestamp + p.ttl + 1) == LookupView::Expired,
{
}

/// Storing the same record twice in a row: when the first write is accepted
/// and the record is live, the second is accepted too, and a read then
/// finds that record, unchanged.
pub proof fn lemma_put_twice(
    store: Map<Seq<u8>, Seq<u8>>,
    addr: Seq<u8>,
    body: Seq<u8>,
    m: MetadataView,
    p: PayloadView,
    now: int,
)
    requires
        put_decision_spec(addr, body, store_read(store, addr, now), now) is Ok,
        decode_metadata_spec(body) == Some(m),
        decode_payload_spec(m.serialized_payload) == Some(p),
        !expired_at_spec(p, now),
    ensures
        put_decision_spec(addr, body, store_read(store.insert(addr, body), addr, now), now) is Ok,
        store_read(store.insert(addr, body).insert(addr, body), addr, now) == LookupView::Live(m, p),
{
    assert(store.insert(addr, body).insert(addr, body) =~= store.insert(addr, body));
}

} // verus!
