use vstd::prelude::*;
use sequential_storage::cache::key_pointers::ArrayKeyPointers;
use sequential_storage::cache::page_pointers::ArrayPagePointers;
use sequential_storage::cache::page_states::ArrayPageStates;
use sequential_storage::cache::Cache;
use sequential_storage::map::{MapConfig, MapStorage};
use sequential_storage::mock_flash::{MockFlashBase, MockFlashError};

verus! {

/// The NOR flash device that holds the store: eight pages of 128 bytes,
/// written in words of four bytes.
pub type Flash = MockFlashBase<8, 4, 32>;

#[verifier::external_type_specification]
#[verifier::external_body]
pub struct ExMockFlashBase<const PAGES: usize, const BYTES_PER_WORD: usize, const PAGE_WORDS: usize>(
    MockFlashBase<PAGES, BYTES_PER_WORD, PAGE_WORDS>,
);

#[verifier::external_type_specification]
#[verifier::external_body]
pub struct ExMockFlashError(MockFlashError);

#[verifier::external_type_specification]
#[verifier::external_body]
#[verifier::reject_recursive_types(S)]
pub struct ExStorageError<S>(sequential_storage::Error<S>);

/// Bytes in one erasable page of [`Flash`].
pub const PAGE_SIZE: u32 = 128;

/// Failures that the map engine reports, in the library's terms.
#[derive(Debug, Clone, Copy, PartialEq, Eq, Structural)]
pub enum MapFault {
    /// The flash driver failed.
    Driver,
    /// No page has room for the item, even after reclaiming stale ones.
    Full,
    /// The stored bytes fail the engine's integrity checks.
    Corrupted,
    /// The scratch buffer is too small; the size that was needed.
    BufferTooSmall(usize),
    /// The item can never fit in a page.
    ItemTooBig,
    /// Any other engine failure.
    Other,
}

/// A key-value map kept as an append-only log on [`Flash`], with a lookup
/// cache. Its contents are [`entries`].
#[verifier::external_body]
pub struct FlashMap {
    inner: MapStorage<
        [u8; 64],
        Flash,
        Cache<ArrayPageStates<8>, ArrayPagePointers<8>, ArrayKeyPointers<[u8; 64], 16>, [u8; 64]>,
    >,
}

/// What the map holds: each 64-byte key with the bytes last stored under it.
pub uninterp spec fn entries(m: FlashMap) -> Map<Seq<u8>, Seq<u8>>;

/// The contents of a map that holds nothing.
pub open spec fn no_entries() -> Map<Seq<u8>, Seq<u8>> {
    Map::empty()
}

/// The flash was built to panic on a write from a buffer that is not
/// aligned to four bytes.
pub uninterp spec fn strict_alignment(f: Flash) -> bool;

/// Relies on the `alignment_check` field of sequential_storage's
/// `MockFlashBase`: whether a write from a buffer that is not aligned to four
/// bytes panics.
#[verifier::external_body]
pub(crate) fn flash_checks_alignment(f: &Flash) -> (r: bool)
    ensures
        r == strict_alignment(*f),
{
    f.alignment_check
}

/// Relies on sequential_storage's `MapStorage::new` with a fresh lookup cache
/// (sized for eight pages) and `MapConfig::new`, which panics unless the
/// range is page-aligned and spans at least two pages. The scratch buffers
/// of the library carry no alignment, so the flash must not demand it.
#[verifier::external_body]
pub(crate) fn map_open(flash: Flash, start: u32, end: u32) -> (r: FlashMap)
    requires
        start % PAGE_SIZE == 0,
        end % PAGE_SIZE == 0,
        start + 2 * PAGE_SIZE <= end,
        end - start <= 8 * PAGE_SIZE,
        !strict_alignment(flash),
{
    FlashMap {
        inner: MapStorage::new(
            flash,
            MapConfig::new(start..end),
            Cache::new(ArrayPageStates::new(), ArrayPagePointers::new(), ArrayKeyPointers::new()),
        ),
    }
}

/// Relies on sequential_storage's `MapStorage::destroy`: hands the flash back.
#[verifier::external_body]
pub(crate) fn map_close(m: FlashMap) -> (r: Flash) {
    m.inner.destroy().0
}

/// Relies on sequential_storage's `MapStorage::fetch_item` with raw byte
/// values, driven to completion by embassy_futures' `block_on`: the bytes
/// last stored under the key, if any. A fetch that succeeds leaves that key
/// as it was.
#[verifier::external_body]
pub(crate) fn map_fetch(m: &mut FlashMap, buf: &mut [u8], key: &[u8; 64]) -> (r: Result<
    Option<Vec<u8>>,
    MapFault,
>)
    ensures
        r is Ok ==> entries(*final(m)).contains_key(key@) == entries(*old(m)).contains_key(key@),
        r is Ok && entries(*old(m)).contains_key(key@) ==> entries(*final(m))[key@] == entries(
            *old(m),
        )[key@],
        r matches Ok(None) ==> !entries(*old(m)).contains_key(key@),
        r matches Ok(Some(v)) ==> entries(*old(m)).contains_key(key@) && entries(*old(m))[key@]
            == v@,
{
    let fetched = embassy_futures::block_on(m.inner.fetch_item::<&[u8]>(buf, key));
    match fetched {
        Ok(v) => Ok(v.map(|b| b.to_vec())),
        Err(e) => Err(fault_of(e)),
    }
}

/// Relies on sequential_storage's `MapStorage::store_item` with a raw byte
/// value, driven to completion by embassy_futures' `block_on`: on success the
/// key maps to the given bytes and every other key is as it was.
#[verifier::external_body]
pub(crate) fn map_store(m: &mut FlashMap, buf: &mut [u8], key: &[u8; 64], value: &[u8]) -> (r: Result<
    (),
    MapFault,
>)
    ensures
        r is Ok ==> entries(*final(m)) == entries(*old(m)).insert(key@, value@),
{
    let stored = embassy_futures::block_on(m.inner.store_item::<&[u8]>(buf, key, &value));
    stored.map_err(fault_of)
}

/// Relies on sequential_storage's `MapStorage::erase_all`, driven to
/// completion by embassy_futures' `block_on`, on a map rebuilt over the same
/// flash and range with a fresh lookup cache (`destroy`, then `new`): every
/// page of the range is erased, after which the map holds nothing.
#[verifier::external_body]
pub(crate) fn map_erase(m: FlashMap) -> (r: (FlashMap, Result<(), MapFault>))
    ensures
        r.1 is Ok ==> entries(r.0) == no_entries(),
{
    let range = m.inner.flash_range();
    let (flash, _) = m.inner.destroy();
    let cache = Cache::new(ArrayPageStates::new(), ArrayPagePointers::new(), ArrayKeyPointers::new());
    let mut inner = MapStorage::new(flash, MapConfig::new(range), cache);
    let erased = embassy_futures::block_on(inner.erase_all()).map_err(fault_of);
    (FlashMap { inner }, erased)
}

/// Tells the engine's error variants apart, one library fault for each.
#[verifier::external_body]
fn fault_of(e: sequential_storage::Error<MockFlashError>) -> (r: MapFault) {
    match e {
        sequential_storage::Error::Storage { .. } => MapFault::Driver,
        sequential_storage::Error::FullStorage => MapFault::Full,
        sequential_storage::Error::Corrupted { .. } => MapFault::Corrupted,
        sequential_storage::Error::BufferTooSmall(n) => MapFault::BufferTooSmall(n),
        sequential_storage::Error::ItemTooBig => MapFault::ItemTooBig,
        _ => MapFault::Other,
    }
}

} // verus!
