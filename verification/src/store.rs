//! Record encoding and the read/get-or-create semantics.
//!
//! A storage backend holds at most one raw record at a well-known location.
//! This module gives the verified half of every backend: how a raw record
//! is decoded (tolerating trailing whitespace), when a store must be
//! refused, and how the facade composes retrieve and store. It also holds
//! [`MemStorage`], an in-memory backend with exactly those semantics.

use vstd::prelude::*;
use vstd::slice::slice_subrange;

use crate::error::Error;
use crate::id::{lemma_parse_render_roundtrip, parse_spec, render_spec, DevDeviceId};

verus! {

/// ASCII whitespace, as tolerated at the end of a persisted record.
pub open spec fn is_trailing_ws(b: u8) -> bool {
    b == 32 || b == 9 || b == 10 || b == 13
}

/// The record's bytes with trailing ASCII whitespace removed.
pub open spec fn trim_spec(s: Seq<u8>) -> Seq<u8>
    decreases s.len(),
{
    if s.len() > 0 && is_trailing_ws(s.last()) {
        trim_spec(s.drop_last())
    } else {
        s
    }
}

/// Whether a raw record parses as a UUID once trailing whitespace is
/// tolerated.
pub open spec fn record_decodes(raw: Seq<u8>) -> bool {
    parse_spec(trim_spec(raw)) is Some
}

/// The identifier bits spelled by a well-formed raw record.
pub open spec fn record_id(raw: Seq<u8>) -> u128 {
    parse_spec(trim_spec(raw))->0
}

/// What a store leaves behind: an absent record is created from the given
/// identifier; an existing record is never overwritten.
pub open spec fn store_state(rec: Option<Seq<u8>>, id: u128) -> Option<Seq<u8>> {
    if rec is None {
        Some(render_spec(id))
    } else {
        rec
    }
}

/// When a store succeeds: only where no record exists yet.
pub open spec fn store_ok(rec: Option<Seq<u8>>) -> bool {
    rec is None
}

/// What get-or-create leaves behind: an absent record is created from the
/// fresh identifier; an existing record, well-formed or not, is untouched.
pub open spec fn get_or_generate_state(rec: Option<Seq<u8>>, fresh: u128) -> Option<Seq<u8>> {
    if rec is None {
        Some(render_spec(fresh))
    } else {
        rec
    }
}

/// What get-or-create returns: the fresh identifier on an absent record,
/// the recorded identifier on a well-formed one, nothing (an error) on a
/// corrupt one.
pub open spec fn get_or_generate_result(rec: Option<Seq<u8>>, fresh: u128) -> Option<u128> {
    if rec is None {
        Some(fresh)
    } else if record_decodes(rec->0) {
        Some(record_id(rec->0))
    } else {
        None
    }
}

/// A rendered identifier carries no trailing whitespace: trimming is the
/// identity on it.
pub proof fn lemma_render_trims_to_itself(bits: u128)
    ensures
        trim_spec(render_spec(bits)) == render_spec(bits),
{
    let s = render_spec(bits);
    assert(s.last() == crate::id::hex_char_lower(crate::id::nibble_of(bits, 31)));
    assert(!is_trailing_ws(s.last()));
}

/// The index where the trailing whitespace of `s` starts.
fn trimmed_end(s: &[u8]) -> (e: usize)
    ensures
        e <= s@.len(),
        trim_spec(s@) == s@.subrange(0, e as int),
{
    let mut e: usize = s.len();
    proof {
        assert(s@.subrange(0, e as int) =~= s@);
    }
    loop
        invariant
            e <= s@.len(),
            trim_spec(s@) == trim_spec(s@.subrange(0, e as int)),
        ensures
            e <= s@.len(),
            trim_spec(s@) == s@.subrange(0, e as int),
        decreases e,
    {
        if e == 0 {
            proof {
                assert(s@.subrange(0, 0) =~= Seq::<u8>::empty());
            }
            break ;
        }
        let b = s[e - 1];
        if !(b == 32 || b == 9 || b == 10 || b == 13) {
            proof {
                let t = s@.subrange(0, e as int);
                assert(t.last() == b);
                assert(trim_spec(t) == t);
            }
            break ;
        }
        proof {
            let t = s@.subrange(0, e as int);
            assert(t.last() == b);
            assert(t.drop_last() =~= s@.subrange(0, e - 1));
            assert(trim_spec(t) == trim_spec(s@.subrange(0, e - 1)));
        }
        e -= 1;
    }
    e
}

/// Decodes a raw record as read from a backend: absent stays absent, a
/// well-formed record yields its identifier, anything else is a format
/// error. Read-only; trailing ASCII whitespace on the record is tolerated.
pub fn decode_record(raw: Option<&[u8]>) -> (r: Result<Option<DevDeviceId>, Error>)
    ensures
        raw is None ==> r == Ok::<Option<DevDeviceId>, Error>(None),
        raw matches Some(b) ==> (record_decodes(b@) ==> (r matches Ok(o) && o matches Some(id)
            && id.bits == record_id(b@))),
        raw matches Some(b) ==> (!record_decodes(b@) ==> (r matches Err(e)
            && e is BadUuidFormat)),
{
    match raw {
        None => Ok(None),
        Some(b) => {
            let e = trimmed_end(b);
            let t = slice_subrange(b, 0, e);
            match DevDeviceId::parse_bytes(t) {
                Ok(id) => Ok(Some(id)),
                Err(er) => Err(er),
            }
        },
    }
}

/// An in-memory storage backend: a deterministic stand-in for the
/// OS-backed stores, with the same read/get-or-create semantics. Its view
/// is the raw record it holds, if any.
pub struct MemStorage {
    record: Option<Vec<u8>>,
}

impl View for MemStorage {
    type V = Option<Seq<u8>>;

    closed spec fn view(&self) -> Option<Seq<u8>> {
        match self.record {
            Some(v) => Some(v@),
            None => None,
        }
    }
}

impl MemStorage {
    /// A fresh environment holding no record.
    pub fn new() -> (s: MemStorage)
        ensures
            s@ is None,
    {
        MemStorage { record: None }
    }

    /// An environment whose location already holds the given raw record,
    /// as if written by an earlier process or tampered with from outside.
    pub fn with_raw_record(raw: Vec<u8>) -> (s: MemStorage)
        ensures
            s@ == Some(raw@),
    {
        MemStorage { record: Some(raw) }
    }

    /// The currently persisted identifier, or absent if none exists yet.
    /// Read-only.
    pub fn retrieve(&self) -> (r: Result<Option<DevDeviceId>, Error>)
        ensures
            self@ is None ==> r == Ok::<Option<DevDeviceId>, Error>(None),
            self@ matches Some(b) ==> (record_decodes(b) ==> (r matches Ok(o) && o matches Some(
                id,
            ) && id.bits == record_id(b))),
            self@ matches Some(b) ==> (!record_decodes(b) ==> (r matches Err(e)
                && e is BadUuidFormat)),
    {
        match &self.record {
            None => Ok(None),
            Some(v) => decode_record(Some(v.as_slice())),
        }
    }

    /// Persists `id` as the record; refuses to overwrite an existing
    /// record, whatever it holds.
    pub fn store(&mut self, id: &DevDeviceId) -> (r: Result<(), Error>)
        ensures
            final(self)@ == store_state(old(self)@, id.bits),
            r is Ok <==> store_ok(old(self)@),
            r matches Err(e) ==> e is AlreadySet,
    {
        if self.record.is_some() {
            return Err(Error::AlreadySet);
        }
        self.record = Some(id.render_bytes());
        Ok(())
    }
}

/// After a competitive store, a lost race is not an error: the caller goes
/// on to re-read and recovers the winner's value. Any other store failure
/// propagates.
pub fn absorb_already_set(r: Result<(), Error>) -> (out: Result<(), Error>)
    ensures
        r is Ok ==> out is Ok,
        r matches Err(e) && e is AlreadySet ==> out is Ok,
        r matches Err(e) && !(e is AlreadySet) ==> out == r,
{
    match r {
        Err(Error::AlreadySet) => Ok(()),
        other => other,
    }
}

/// The facade's final step: whatever the re-read found wins; only if the
/// re-read itself came back absent is the freshly generated (but not
/// confirmed-persisted) value used. Errors of the re-read propagate.
pub fn settle_reread(r: Result<Option<DevDeviceId>, Error>, fresh: &DevDeviceId) -> (out: Result<
    DevDeviceId,
    Error,
>)
    ensures
        r == Ok::<Option<DevDeviceId>, Error>(None) ==> out == Ok::<DevDeviceId, Error>(*fresh),
        r matches Ok(o) ==> (o matches Some(id) ==> out == Ok::<DevDeviceId, Error>(id)),
        r matches Err(e) ==> out == Err::<DevDeviceId, Error>(e),
{
    match r {
        Ok(Some(id)) => Ok(id),
        Ok(None) => Ok(*fresh),
        Err(e) => Err(e),
    }
}

/// Facade read: delegates directly to the backend's retrieve and passes
/// the absent case and all errors through unchanged.
pub fn get(s: &MemStorage) -> (r: Result<Option<DevDeviceId>, Error>)
    ensures
        s@ is None ==> r == Ok::<Option<DevDeviceId>, Error>(None),
        s@ matches Some(b) ==> (record_decodes(b) ==> (r matches Ok(o) && o matches Some(id)
            && id.bits == record_id(b))),
        s@ matches Some(b) ==> (!record_decodes(b) ==> (r matches Err(e) && e is BadUuidFormat)),
{
    s.retrieve()
}

/// Facade read-or-create: returns the persisted identifier if present;
/// otherwise persists the caller's freshly generated one and re-reads, so
/// that a concurrently stored value wins over this call's own candidate.
pub fn get_or_generate(s: &mut MemStorage, fresh: &DevDeviceId) -> (r: Result<DevDeviceId, Error>)
    ensures
        final(s)@ == get_or_generate_state(old(s)@, fresh.bits),
        r is Ok <==> get_or_generate_result(old(s)@, fresh.bits) is Some,
        r matches Ok(id) ==> get_or_generate_result(old(s)@, fresh.bits) == Some(id.bits),
        r matches Err(e) ==> e is BadUuidFormat,
        old(s)@ is None ==> r == Ok::<DevDeviceId, Error>(*fresh),
{
    let first = s.retrieve();
    match first {
        Ok(Some(id)) => Ok(id),
        Ok(None) => {
            let stored = s.store(fresh);
            match absorb_already_set(stored) {
                Ok(_) => {},
                Err(e) => {
                    return Err(e);
                },
            }
            proof {
                lemma_render_trims_to_itself(fresh.bits);
                lemma_parse_render_roundtrip(fresh.bits);
            }
            settle_reread(s.retrieve(), fresh)
        },
        Err(e) => Err(e),
    }
}

/// Idempotence of get-or-create: on a fresh environment the first call
/// returns its fresh identifier and persists its rendering; a second call,
/// with any other candidate, returns the same identifier and changes
/// nothing; a read of the resulting record finds exactly that identifier.
pub proof fn lemma_get_or_generate_idempotent(f1: u128, f2: u128)
    ensures
        get_or_generate_result(None, f1) == Some(f1),
        get_or_generate_state(None, f1) == Some(render_spec(f1)),
        get_or_generate_result(Some(render_spec(f1)), f2) == Some(f1),
        get_or_generate_state(Some(render_spec(f1)), f2) == Some(render_spec(f1)),
        record_decodes(render_spec(f1)),
        record_id(render_spec(f1)) == f1,
{
    lemma_render_trims_to_itself(f1);
    lemma_parse_render_roundtrip(f1);
}

/// No overwrite: on a fresh location the first store succeeds and writes
/// its identifier's rendering; a second store, with any other identifier,
/// fails as already-set and leaves the first value in place.
pub proof fn lemma_store_no_overwrite(id1: u128, id2: u128)
    ensures
        store_ok(None),
        store_state(None, id1) == Some(render_spec(id1)),
        !store_ok(store_state(None, id1)),
        store_state(store_state(None, id1), id2) == Some(render_spec(id1)),
{
}

} // verus!

