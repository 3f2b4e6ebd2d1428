use vstd::prelude::*;
use vstd::string::StringSliceAdditionalSpecFns;
use crate::codec::{decoded, lemma_decode_encoding, PostcardValue, Storable};
use crate::flash_map::{
    flash_checks_alignment, strict_alignment,
    entries, map_close, map_erase, map_fetch, map_open, map_store, no_entries, Flash, FlashMap,
    MapFault,
};
use crate::keys::{pad_key, padded, KEY_WIDTH};
use crate::region::FlashRegion;

verus! {

/// Key under which the validity marker is kept.
pub const MARKER_KEY: &'static str = "__INIT_MARKER";

/// The byte that the validity marker must hold.
pub const MARKER_VALUE: u8 = 0xAA;

/// Size of the scratch buffer that records are staged in.
pub const DATA_BUFFER_SIZE: usize = 256;

/// Room reserved per record for the engine's own bookkeeping.
pub const OVERHEAD_ESTIMATE: usize = 64;

/// What went wrong in a storage operation.
#[derive(Debug, Clone, Copy, PartialEq, Eq, Structural)]
pub enum StorageError {
    /// Stored bytes fail the engine's integrity check, or do not decode.
    Corrupted,
    /// The flash driver failed.
    DriverFailure,
    /// A record needs a larger scratch buffer than there is; the size needed.
    BufferTooSmall(usize),
    /// The record can never fit in the storage region.
    RecordTooLarge,
    /// The key is longer than [`KEY_WIDTH`] bytes.
    KeyTooLong,
    /// No room is left for the record.
    StorageFull,
    /// The engine failed in another way.
    Engine,
    /// The region was erased but the validity marker could not be written
    /// back; it must be erased again before its reads can be trusted.
    MarkerNotWritten,
    /// The flash demands write buffers aligned to four bytes, which the
    /// scratch buffers of this store do not promise.
    FlashRejected,
}

/// The library's error for each failure of the map engine.
pub open spec fn spec_error_of(f: MapFault) -> StorageError {
    match f {
        MapFault::Driver => StorageError::DriverFailure,
        MapFault::Full => StorageError::StorageFull,
        MapFault::Corrupted => StorageError::Corrupted,
        MapFault::BufferTooSmall(n) => StorageError::BufferTooSmall(n),
        MapFault::ItemTooBig => StorageError::RecordTooLarge,
        MapFault::Other => StorageError::Engine,
    }
}

/// Maps a failure of the map engine to the library's error.
pub fn error_of(f: MapFault) -> (r: StorageError)
    ensures
        r == spec_error_of(f),
{
    match f {
        MapFault::Driver => StorageError::DriverFailure,
        MapFault::Full => StorageError::StorageFull,
        MapFault::Corrupted => StorageError::Corrupted,
        MapFault::BufferTooSmall(n) => StorageError::BufferTooSmall(n),
        MapFault::ItemTooBig => StorageError::RecordTooLarge,
        MapFault::Other => StorageError::Engine,
    }
}

/// Why the validity protocol erased the region.
#[derive(Debug, Clone, Copy, PartialEq, Eq, Structural)]
pub enum Recovery {
    /// No marker was stored.
    MarkerMissing,
    /// The marker held another byte.
    MarkerWrong(u8),
    /// The marker could not be read.
    MarkerUnreadable(StorageError),
}

/// What the validity protocol found and did.
#[derive(Debug, Clone, Copy, PartialEq, Eq, Structural)]
pub enum InitOutcome {
    /// The marker was valid: the region was kept as it was.
    Accepted,
    /// The region was erased once and the marker written again.
    Recovered(Recovery),
}

/// The bytes of the marker key.
pub open spec fn marker_key_bytes() -> Seq<u8> {
    seq![95u8, 95u8, 73u8, 78u8, 73u8, 84u8, 95u8, 77u8, 65u8, 82u8, 75u8, 69u8, 82u8]
}

/// The fixed-width key of the validity marker.
pub open spec fn marker_key() -> Seq<u8> {
    padded(marker_key_bytes())
}

/// The marker key is a key of valid length whose fixed-width form is
/// [`marker_key`].
pub proof fn lemma_marker_key()
    ensures
        key_fits(MARKER_KEY),
        key_of(MARKER_KEY) == marker_key(),
{
    reveal_strlit("__INIT_MARKER");
    broadcast use vstd::string::is_ascii_spec_bytes;
    assert(vstd::string::is_ascii(MARKER_KEY));
    assert(MARKER_KEY.spec_bytes() =~= marker_key_bytes());
}

/// The contents hold a valid marker.
pub open spec fn marker_ok(c: Map<Seq<u8>, Seq<u8>>) -> bool {
    c.contains_key(marker_key()) && decoded::<u8>(c[marker_key()]) == Some(MARKER_VALUE)
}

/// The contents of a freshly erased and marked region.
pub open spec fn marked_only() -> Map<Seq<u8>, Seq<u8>> {
    no_entries().insert(marker_key(), MARKER_VALUE.encoding())
}

/// Upper bound on the size of a record whose value encodes in at most
/// `value_max` bytes.
pub open spec fn record_estimate(value_max: nat) -> nat {
    (KEY_WIDTH + value_max + OVERHEAD_ESTIMATE) as nat
}

/// A key of valid length.
pub open spec fn key_fits(key: &str) -> bool {
    key.spec_bytes().len() <= KEY_WIDTH
}

/// The fixed-width key of a textual key.
pub open spec fn key_of(key: &str) -> Seq<u8> {
    padded(key.spec_bytes())
}

/// What the validity protocol promises: from contents `before`, outcome `r`
/// and contents `after`.
pub open spec fn validated(
    before: Map<Seq<u8>, Seq<u8>>,
    r: Result<InitOutcome, StorageError>,
    after: Map<Seq<u8>, Seq<u8>>,
) -> bool {
    &&& r matches Ok(InitOutcome::Accepted) ==> marker_ok(before) && keeps(before, after, marker_key())
    &&& r matches Ok(InitOutcome::Recovered(reason)) ==> after == marked_only()
        && spec_marker_decision(marker_read_of(reason)) == Some(reason)
    &&& r matches Ok(InitOutcome::Recovered(Recovery::MarkerMissing)) ==> !before.contains_key(
        marker_key(),
    )
    &&& r matches Ok(InitOutcome::Recovered(Recovery::MarkerWrong(b))) ==> before.contains_key(
        marker_key(),
    ) && decoded::<u8>(before[marker_key()]) == Some(b) && b != MARKER_VALUE
    &&& before.contains_key(marker_key()) && decoded::<u8>(before[marker_key()]) is None ==> !(
    r matches Ok(InitOutcome::Accepted))
}

/// What `insert` promises: from contents `before`, storing `value` under
/// `key` with result `r` leaves contents `after`.
pub open spec fn inserted<V: Storable>(
    before: Map<Seq<u8>, Seq<u8>>,
    key: &str,
    value: V,
    r: Result<(), StorageError>,
    after: Map<Seq<u8>, Seq<u8>>,
) -> bool {
    &&& !key_fits(key) ==> r is Err && r->Err_0 == StorageError::KeyTooLong && after == before
    &&& r is Err && r->Err_0 == StorageError::KeyTooLong ==> !key_fits(key)
    &&& key_fits(key) && V::max_len() > DATA_BUFFER_SIZE ==> r is Err && r->Err_0
        == StorageError::RecordTooLarge && after == before
    &&& key_fits(key) && V::max_len() <= DATA_BUFFER_SIZE && record_estimate(V::max_len())
        > DATA_BUFFER_SIZE ==> r is Err && r->Err_0 == StorageError::BufferTooSmall(
        record_estimate(V::max_len()) as usize,
    ) && after == before
    &&& r is Ok ==> key_fits(key) && record_estimate(V::max_len()) <= DATA_BUFFER_SIZE && after
        == before.insert(key_of(key), value.encoding())
}

/// What `get` promises: from contents `before`, reading `key` gives `r` and
/// leaves contents `after`.
pub open spec fn got<V: Storable>(
    before: Map<Seq<u8>, Seq<u8>>,
    key: &str,
    r: Result<Option<V>, StorageError>,
    after: Map<Seq<u8>, Seq<u8>>,
) -> bool {
    &&& !key_fits(key) ==> r is Err && r->Err_0 == StorageError::KeyTooLong && after == before
    &&& r is Err && r->Err_0 == StorageError::KeyTooLong ==> !key_fits(key)
    &&& r is Ok ==> keeps(before, after, key_of(key))
    &&& r matches Ok(None) ==> key_fits(key) && !before.contains_key(key_of(key))
    &&& r matches Ok(Some(v)) ==> key_fits(key) && before.contains_key(key_of(key)) && decoded::<V>(
        before[key_of(key)],
    ) == Some(v)
    &&& before.contains_key(key_of(key)) && decoded::<V>(before[key_of(key)]) is None ==> r is Err
    &&& key_fits(key) ==> r == spec_decode_record::<V>(stored_at(before, key_of(key))) || (r is Err
        && is_engine_error(r->Err_0))
}

/// The bytes held under `key`, if any.
pub open spec fn stored_at(c: Map<Seq<u8>, Seq<u8>>, key: Seq<u8>) -> Option<Seq<u8>> {
    if c.contains_key(key) {
        Some(c[key])
    } else {
        None
    }
}

/// An error that the map engine can report.
pub open spec fn is_engine_error(e: StorageError) -> bool {
    exists|f: MapFault| #[trigger] spec_error_of(f) == e
}

/// After an operation, `key` is held with the same bytes as before, or is
/// absent as before.
pub open spec fn keeps(before: Map<Seq<u8>, Seq<u8>>, after: Map<Seq<u8>, Seq<u8>>, key: Seq<u8>) -> bool {
    &&& after.contains_key(key) == before.contains_key(key)
    &&& before.contains_key(key) ==> after[key] == before[key]
}

/// What a fetched record gives: nothing stored is `None`, bytes that decode
/// give the value, other bytes are [`StorageError::Corrupted`].
pub open spec fn spec_decode_record<V: Storable>(fetched: Option<Seq<u8>>) -> Result<Option<V>, StorageError> {
    match fetched {
        None => Ok(None),
        Some(b) => match decoded::<V>(b) {
            Some(v) => Ok(Some(v)),
            None => Err(StorageError::Corrupted),
        },
    }
}

/// Decodes what a fetch of a record returned.
pub fn decode_record<V: Storable>(fetched: Option<Vec<u8>>) -> (r: Result<Option<V>, StorageError>)
    ensures
        r == spec_decode_record::<V>(
            match fetched {
                Some(b) => Some(b@),
                None => None,
            },
        ),
{
    match fetched {
        None => Ok(None),
        Some(bytes) => match PostcardValue::<V>::deserialize_from(bytes.as_slice()) {
            Ok(p) => Ok(Some(p.into_inner())),
            Err(_) => Err(StorageError::Corrupted),
        },
    }
}

/// What the marker read can give.
pub open spec fn marker_read_of(reason: Recovery) -> Result<Option<u8>, StorageError> {
    match reason {
        Recovery::MarkerMissing => Ok(None),
        Recovery::MarkerWrong(b) => Ok(Some(b)),
        Recovery::MarkerUnreadable(e) => Err(e),
    }
}

/// The validity decision on what the marker read gave: keep the region
/// (`None`) only when it gave the sentinel; otherwise erase, for the reason
/// given.
pub open spec fn spec_marker_decision(found: Result<Option<u8>, StorageError>) -> Option<Recovery> {
    match found {
        Ok(Some(b)) => if b == MARKER_VALUE {
            None
        } else {
            Some(Recovery::MarkerWrong(b))
        },
        Ok(None) => Some(Recovery::MarkerMissing),
        Err(e) => Some(Recovery::MarkerUnreadable(e)),
    }
}

/// Decides, from what the marker read gave, whether the region is kept.
pub fn marker_decision(found: Result<Option<u8>, StorageError>) -> (r: Option<Recovery>)
    ensures
        r == spec_marker_decision(found),
{
    match found {
        Ok(Some(b)) => {
            if b == MARKER_VALUE {
                None
            } else {
                Some(Recovery::MarkerWrong(b))
            }
        },
        Ok(None) => Some(Recovery::MarkerMissing),
        Err(e) => Some(Recovery::MarkerUnreadable(e)),
    }
}

/// The persistent key-value store: a map engine on the flash region, used
/// one operation at a time.
pub struct Storage {
    map: Option<FlashMap>,
    region: FlashRegion,
}

impl View for Storage {
    type V = Map<Seq<u8>, Seq<u8>>;

    closed spec fn view(&self) -> Map<Seq<u8>, Seq<u8>> {
        entries(self.map->Some_0)
    }
}

impl Storage {
    /// The store is bound to a usable region.
    pub closed spec fn wf(&self) -> bool {
        self.map is Some && self.region.wf()
    }

    pub closed spec fn spec_region(&self) -> FlashRegion {
        self.region
    }

    /// Opens the map engine on `region` of `flash` with an empty lookup
    /// cache, without checking what the region holds.
    pub fn open(flash: Flash, region: FlashRegion) -> (r: Storage)
        requires
            region.wf(),
            !strict_alignment(flash),
        ensures
            r.wf(),
            r.spec_region() == region,
    {
        proof {
            region.lemma_bounds();
        }
        let map = map_open(flash, region.start(), region.end());
        Storage { map: Some(map), region }
    }

    /// Gives the flash back.
    pub fn release(self) -> (r: Flash)
        requires
            self.wf(),
    {
        map_close(self.map.unwrap())
    }

    /// Stores `value` under the fixed-width key `key`. Fails before any
    /// flash access when the value, or the record, could exceed the scratch
    /// buffer.
    fn store_padded<V: Storable>(&mut self, key: &[u8; 64], value: &V) -> (r: Result<(), StorageError>)
        requires
            old(self).wf(),
            value.valid(),
        ensures
            final(self).wf(),
            final(self).spec_region() == old(self).spec_region(),
            V::max_len() > DATA_BUFFER_SIZE ==> (r is Err && r->Err_0 == StorageError::RecordTooLarge)
                && final(self)@ == old(self)@,
            V::max_len() <= DATA_BUFFER_SIZE && record_estimate(V::max_len()) > DATA_BUFFER_SIZE ==> (r is Err
                && r->Err_0 == StorageError::BufferTooSmall(record_estimate(V::max_len()) as usize))
                && final(self)@ == old(self)@,
            r is Ok ==> record_estimate(V::max_len()) <= DATA_BUFFER_SIZE && final(self)@ == old(self)@.insert(key@, value.encoding()),
            r is Err && r->Err_0 == StorageError::KeyTooLong ==> false,
    {
        let value_max = V::max_size();
        if value_max > DATA_BUFFER_SIZE {
            return Err(StorageError::RecordTooLarge);
        }
        let estimate = KEY_WIDTH + value_max + OVERHEAD_ESTIMATE;
        if estimate > DATA_BUFFER_SIZE {
            return Err(StorageError::BufferTooSmall(estimate));
        }
        let bytes = value.encode();
        let mut buffer = [0u8; 256];
        let m = self.map.as_mut().unwrap();
        match map_store(m, &mut buffer, key, bytes.as_slice()) {
            Ok(()) => Ok(()),
            Err(f) => Err(error_of(f)),
        }
    }

    /// Reads the value stored under the fixed-width key `key`.
    fn fetch_padded<V: Storable>(&mut self, key: &[u8; 64]) -> (r: Result<Option<V>, StorageError>)
        requires
            old(self).wf(),
        ensures
            final(self).wf(),
            final(self).spec_region() == old(self).spec_region(),
            r is Ok ==> keeps(old(self)@, final(self)@, key@),
            r == spec_decode_record::<V>(stored_at(old(self)@, key@)) || (r is Err && is_engine_error(
                r->Err_0,
            )),
    {
        let mut buffer = [0u8; 256];
        let m = self.map.as_mut().unwrap();
        match map_fetch(m, &mut buffer, key) {
            Ok(fetched) => decode_record::<V>(fetched),
            Err(f) => Err(error_of(f)),
        }
    }

    /// Stores `value` under `key`. A key longer than [`KEY_WIDTH`] bytes, or
    /// a value type whose largest record could exceed the scratch buffer, is
    /// rejected before the flash is touched.
    pub fn insert<V: Storable>(&mut self, key: &str, value: &V) -> (r: Result<(), StorageError>)
        requires
            old(self).wf(),
            value.valid(),
        ensures
            final(self).wf(),
            final(self).spec_region() == old(self).spec_region(),
            inserted(old(self)@, key, *value, r, final(self)@),
    {
        match pad_key(key) {
            None => Err(StorageError::KeyTooLong),
            Some(k) => self.store_padded(&k, value),
        }
    }

    /// Reads the value stored under `key`: `None` when there is none, an
    /// error when the stored bytes do not decode as a `V`.
    pub fn get<V: Storable>(&mut self, key: &str) -> (r: Result<Option<V>, StorageError>)
        requires
            old(self).wf(),
        ensures
            final(self).wf(),
            final(self).spec_region() == old(self).spec_region(),
            got(old(self)@, key, r, final(self)@),
    {
        match pad_key(key) {
            None => Err(StorageError::KeyTooLong),
            Some(k) => self.fetch_padded(&k),
        }
    }

    /// The fixed-width key of the validity marker.
    fn marker_key_array() -> (r: [u8; 64])
        ensures
            r@ == marker_key(),
    {
        proof {
            lemma_marker_key();
        }
        pad_key(MARKER_KEY).unwrap()
    }

    /// Erases the whole region, starts the lookup cache afresh, then writes
    /// the validity marker again. A failure to write the marker after a
    /// successful erase is reported as [`StorageError::MarkerNotWritten`].
    pub fn erase_all(&mut self) -> (r: Result<(), StorageError>)
        requires
            old(self).wf(),
        ensures
            final(self).wf(),
            final(self).spec_region() == old(self).spec_region(),
            r is Ok ==> final(self)@ == marked_only(),
            r matches Err(e) ==> e == StorageError::MarkerNotWritten || is_engine_error(e),
    {
        let (map, erased) = map_erase(self.map.take().unwrap());
        self.map = Some(map);
        match erased {
            Err(f) => Err(error_of(f)),
            Ok(()) => {
                let key = Self::marker_key_array();
                match self.store_padded(&key, &MARKER_VALUE) {
                    Ok(()) => Ok(()),
                    Err(_) => Err(StorageError::MarkerNotWritten),
                }
            },
        }
    }

    /// The validity protocol: keeps the region when it holds a valid marker;
    /// otherwise (no marker, another byte, or a marker that cannot be read)
    /// erases it once and writes the marker again.
    pub fn validate(&mut self) -> (r: Result<InitOutcome, StorageError>)
        requires
            old(self).wf(),
        ensures
            final(self).wf(),
            final(self).spec_region() == old(self).spec_region(),
            validated(old(self)@, r, final(self)@),
            r matches Err(e) ==> e == StorageError::MarkerNotWritten || is_engine_error(e),
    {
        let key = Self::marker_key_array();
        let found = self.fetch_padded::<u8>(&key);
        match marker_decision(found) {
            None => Ok(InitOutcome::Accepted),
            Some(reason) => match self.erase_all() {
                Ok(()) => Ok(InitOutcome::Recovered(reason)),
                Err(e) => Err(e),
            },
        }
    }

    /// Deleting a single key is not supported: the call changes nothing and
    /// always succeeds.
    pub fn remove(&self, key: &str) -> (r: Result<(), StorageError>)
        ensures
            r is Ok,
    {
        Ok(())
    }
}

/// Builds the store on `region` of `flash` and runs the validity protocol:
/// a region with a valid marker is kept, any other is erased once and marked.
pub fn init(flash: Flash, region: FlashRegion) -> (r: Result<(Storage, InitOutcome), StorageError>)
    requires
        region.wf(),
    ensures
        r matches Ok((s, o)) ==> s.wf() && s.spec_region() == region && marker_ok(s@) && (
        o is Recovered ==> s@ == marked_only()),
        strict_alignment(flash) <==> (r is Err && r->Err_0 == StorageError::FlashRejected),
{
    if flash_checks_alignment(&flash) {
        return Err(StorageError::FlashRejected);
    }
    let mut storage = Storage::open(flash, region);
    match storage.validate() {
        Ok(outcome) => {
            proof {
                lemma_marked_only_ok();
            }
            Ok((storage, outcome))
        },
        Err(e) => Err(e),
    }
}

/// A freshly marked region holds a valid marker.
pub proof fn lemma_marked_only_ok()
    ensures
        marker_ok(marked_only()),
{
    lemma_decode_encoding(MARKER_VALUE);
}

/// Storing a value and then reading the same key gives the value back:
/// once `insert` has succeeded, a `get` of that key returns exactly the value
/// stored, unless the map engine itself fails the read.
pub proof fn lemma_insert_then_get<V: Storable>(
    c0: Map<Seq<u8>, Seq<u8>>,
    key: &str,
    value: V,
    c1: Map<Seq<u8>, Seq<u8>>,
    r: Result<Option<V>, StorageError>,
    c2: Map<Seq<u8>, Seq<u8>>,
)
    requires
        value.valid(),
        inserted(c0, key, value, Ok(()), c1),
        got(c1, key, r, c2),
    ensures
        (r matches Ok(Some(x)) && x == value) || (r is Err && is_engine_error(r->Err_0)),
        r is Ok ==> keeps(c1, c2, key_of(key)),
{
    lemma_decode_encoding(value);
}

/// Running the validity protocol twice in a row: once the first run has
/// succeeded, the second finds the marker and erases nothing on its account;
/// when it keeps the region, the marker stays as it was.
pub proof fn lemma_validate_twice(
    c0: Map<Seq<u8>, Seq<u8>>,
    r1: Result<InitOutcome, StorageError>,
    c1: Map<Seq<u8>, Seq<u8>>,
    r2: Result<InitOutcome, StorageError>,
    c2: Map<Seq<u8>, Seq<u8>>,
)
    requires
        validated(c0, r1, c1),
        r1 is Ok,
        validated(c1, r2, c2),
    ensures
        marker_ok(c1),
        !(r2 matches Ok(InitOutcome::Recovered(Recovery::MarkerMissing))),
        !(r2 matches Ok(InitOutcome::Recovered(Recovery::MarkerWrong(_)))),
        r2 matches Ok(InitOutcome::Accepted) ==> keeps(c1, c2, marker_key()),
{
    lemma_marked_only_ok();
}

/// A region whose marker holds another byte: a successful validity run
/// erases it once for that reason and leaves a marker that reads back as the
/// sentinel.
pub proof fn lemma_wrong_marker_recovers(
    c0: Map<Seq<u8>, Seq<u8>>,
    b: u8,
    r: Result<InitOutcome, StorageError>,
    c1: Map<Seq<u8>, Seq<u8>>,
)
    requires
        c0.contains_key(marker_key()),
        decoded::<u8>(c0[marker_key()]) == Some(b),
        b != MARKER_VALUE,
        validated(c0, r, c1),
        r is Ok,
    ensures
        r matches Ok(InitOutcome::Recovered(_)),
        c1 == marked_only(),
        c1.contains_key(key_of(MARKER_KEY)),
        decoded::<u8>(c1[key_of(MARKER_KEY)]) == Some(MARKER_VALUE),
{
    lemma_marked_only_ok();
    lemma_marker_key();
}

} // verus!
