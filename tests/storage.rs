use flash_kv::flash_map::Flash;
use flash_kv::region::{flash_range_from_linker, FlashRegion};
use flash_kv::storage::{
    error_of, init, InitOutcome, Recovery, Storage, StorageError, MARKER_KEY, MARKER_VALUE,
};
use flash_kv::flash_map::MapFault;
use sequential_storage::mock_flash::WriteCountCheck;

fn erased_flash() -> Flash {
    Flash::new(WriteCountCheck::Twice, None, false)
}

fn region() -> FlashRegion {
    flash_range_from_linker(0x0800_0000, 0x0800_0400).unwrap()
}

fn fresh_storage() -> Storage {
    let (s, outcome) = init(erased_flash(), region()).unwrap();
    assert_eq!(outcome, InitOutcome::Recovered(Recovery::MarkerMissing));
    s
}

#[test]
fn init_on_erased_region_erases_and_marks() {
    let mut s = fresh_storage();
    assert_eq!(s.get::<u8>(MARKER_KEY), Ok(Some(MARKER_VALUE)));
}

#[test]
fn insert_then_get_round_trips() {
    let mut s = fresh_storage();
    assert_eq!(s.insert("app/run_count", &1u32), Ok(()));
    assert_eq!(s.get::<u32>("app/run_count"), Ok(Some(1)));
    assert_eq!(s.insert("big", &4_000_000_000u32), Ok(()));
    assert_eq!(s.get::<u32>("big"), Ok(Some(4_000_000_000)));
    assert_eq!(s.insert("byte", &0u8), Ok(()));
    assert_eq!(s.get::<u8>("byte"), Ok(Some(0)));
    assert_eq!(s.insert("arr", &[1u8, 2, 3, 4, 5]), Ok(()));
    assert_eq!(s.get::<[u8; 5]>("arr"), Ok(Some([1, 2, 3, 4, 5])));
}

#[test]
fn later_insert_overwrites_earlier() {
    let mut s = fresh_storage();
    assert_eq!(s.insert("k", &7u32), Ok(()));
    assert_eq!(s.insert("k", &8u32), Ok(()));
    assert_eq!(s.get::<u32>("k"), Ok(Some(8)));
}

#[test]
fn get_of_missing_key_is_none() {
    let mut s = fresh_storage();
    assert_eq!(s.get::<u32>("nonexistent"), Ok(None));
}

#[test]
fn key_of_full_width_is_accepted() {
    let mut s = fresh_storage();
    let key = "k".repeat(64);
    assert_eq!(s.insert(&key, &5u8), Ok(()));
    assert_eq!(s.get::<u8>(&key), Ok(Some(5)));
}

#[test]
fn key_longer_than_width_is_rejected() {
    let mut s = fresh_storage();
    let key = "k".repeat(65);
    assert_eq!(s.insert(&key, &5u8), Err(StorageError::KeyTooLong));
    assert_eq!(s.get::<u8>(&key), Err(StorageError::KeyTooLong));
}

#[test]
fn size_rejection_leaves_every_key_unchanged() {
    let mut s = fresh_storage();
    assert_eq!(s.insert("a", &11u32), Ok(()));
    assert_eq!(s.insert("b", &22u8), Ok(()));
    let big = [9u8; 200];
    assert_eq!(s.insert("a", &big), Err(StorageError::BufferTooSmall(328)));
    assert_eq!(s.insert("c", &big), Err(StorageError::BufferTooSmall(328)));
    let huge = [9u8; 300];
    assert_eq!(s.insert("a", &huge), Err(StorageError::RecordTooLarge));
    assert_eq!(s.get::<u32>("a"), Ok(Some(11)));
    assert_eq!(s.get::<u8>("b"), Ok(Some(22)));
    assert_eq!(s.get::<u8>("c"), Ok(None));
    assert_eq!(s.get::<u8>(MARKER_KEY), Ok(Some(MARKER_VALUE)));
}

#[test]
fn record_at_buffer_limit_is_accepted_by_the_size_check() {
    let mut s = fresh_storage();
    let r = s.insert("edge", &[1u8; 128]);
    assert_eq!(r, Err(StorageError::RecordTooLarge));
    let r = s.insert("edge", &[1u8; 129]);
    assert_eq!(r, Err(StorageError::BufferTooSmall(257)));
}

#[test]
fn wrong_type_read_is_corrupted() {
    let mut s = fresh_storage();
    assert_eq!(s.insert("one", &7u8), Ok(()));
    assert_eq!(s.get::<[u8; 5]>("one"), Err(StorageError::Corrupted));
}

#[test]
fn marker_check_is_idempotent() {
    let mut s = fresh_storage();
    assert_eq!(s.insert("keep", &1234u32), Ok(()));
    let flash = s.release();
    let (mut s, outcome) = init(flash, region()).unwrap();
    assert_eq!(outcome, InitOutcome::Accepted);
    assert_eq!(s.get::<u32>("keep"), Ok(Some(1234)));
    let flash = s.release();
    let (mut s, outcome) = init(flash, region()).unwrap();
    assert_eq!(outcome, InitOutcome::Accepted);
    assert_eq!(s.get::<u32>("keep"), Ok(Some(1234)));
    assert_eq!(s.validate(), Ok(InitOutcome::Accepted));
}

#[test]
fn invalid_marker_triggers_single_recovery() {
    let mut s = fresh_storage();
    assert_eq!(s.insert("gone", &5u32), Ok(()));
    assert_eq!(s.insert(MARKER_KEY, &0x55u8), Ok(()));
    let flash = s.release();
    let (mut s, outcome) = init(flash, region()).unwrap();
    assert_eq!(outcome, InitOutcome::Recovered(Recovery::MarkerWrong(0x55)));
    assert_eq!(s.get::<u8>(MARKER_KEY), Ok(Some(MARKER_VALUE)));
    assert_eq!(s.get::<u32>("gone"), Ok(None));
    assert_eq!(s.validate(), Ok(InitOutcome::Accepted));
}

#[test]
fn undecodable_marker_triggers_recovery() {
    let mut s = fresh_storage();
    assert_eq!(s.insert(MARKER_KEY, &[1u8; 0]), Ok(()));
    let flash = s.release();
    let (mut s, outcome) = init(flash, region()).unwrap();
    assert_eq!(
        outcome,
        InitOutcome::Recovered(Recovery::MarkerUnreadable(StorageError::Corrupted))
    );
    assert_eq!(s.get::<u8>(MARKER_KEY), Ok(Some(MARKER_VALUE)));
}

#[test]
fn erase_all_keeps_only_the_marker() {
    let mut s = fresh_storage();
    assert_eq!(s.insert("x", &1u32), Ok(()));
    assert_eq!(s.insert("y", &2u8), Ok(()));
    assert_eq!(s.erase_all(), Ok(()));
    assert_eq!(s.get::<u32>("x"), Ok(None));
    assert_eq!(s.get::<u8>("y"), Ok(None));
    assert_eq!(s.get::<u8>(MARKER_KEY), Ok(Some(MARKER_VALUE)));
    assert_eq!(s.insert("x", &3u32), Ok(()));
    assert_eq!(s.get::<u32>("x"), Ok(Some(3)));
}

#[test]
fn remove_changes_nothing() {
    let mut s = fresh_storage();
    assert_eq!(s.insert("r", &9u32), Ok(()));
    assert_eq!(s.remove("r"), Ok(()));
    assert_eq!(s.get::<u32>("r"), Ok(Some(9)));
    assert_eq!(s.remove("absent"), Ok(()));
    assert_eq!(s.get::<u32>("absent"), Ok(None));
}

#[test]
fn many_writes_survive_page_reclaim() {
    let mut s = fresh_storage();
    for i in 0..200u32 {
        assert_eq!(s.insert("spin", &i), Ok(()));
    }
    assert_eq!(s.get::<u32>("spin"), Ok(Some(199)));
    assert_eq!(s.get::<u8>(MARKER_KEY), Ok(Some(MARKER_VALUE)));
}

#[test]
fn engine_faults_map_to_storage_errors() {
    assert_eq!(error_of(MapFault::Driver), StorageError::DriverFailure);
    assert_eq!(error_of(MapFault::Full), StorageError::StorageFull);
    assert_eq!(error_of(MapFault::Corrupted), StorageError::Corrupted);
    assert_eq!(error_of(MapFault::BufferTooSmall(7)), StorageError::BufferTooSmall(7));
    assert_eq!(error_of(MapFault::ItemTooBig), StorageError::RecordTooLarge);
    assert_eq!(error_of(MapFault::Other), StorageError::Engine);
}

#[test]
fn region_out_of_device_fails_at_driver() {
    let r = flash_range_from_linker(0x0800_FC00, 0x0801_0000).unwrap();
    assert_eq!(r.start(), 0xFC00);
    match init(erased_flash(), r) {
        Err(e) => assert_eq!(e, StorageError::DriverFailure),
        Ok(_) => panic!("a region beyond the device cannot be erased"),
    }
}

#[test]
fn distinct_keys_eventually_fill_the_region() {
    let mut s = fresh_storage();
    let mut first_failure = None;
    for i in 0..32u32 {
        let key = format!("fill/{}", i);
        match s.insert(&key, &i) {
            Ok(()) => {}
            Err(e) => {
                first_failure = Some(e);
                break;
            }
        }
    }
    assert_eq!(first_failure, Some(StorageError::StorageFull));
    assert_eq!(s.get::<u32>("fill/0"), Ok(Some(0)));
}

#[test]
fn flash_demanding_aligned_buffers_is_rejected() {
    let strict = Flash::new(WriteCountCheck::Twice, None, true);
    match init(strict, region()) {
        Err(e) => assert_eq!(e, StorageError::FlashRejected),
        Ok(_) => panic!("a flash that checks buffer alignment must be rejected"),
    }
}

#[test]
fn erase_all_then_read_of_cached_key() {
    let mut s = fresh_storage();
    assert_eq!(s.insert("warm", &5u32), Ok(()));
    assert_eq!(s.get::<u32>("warm"), Ok(Some(5)));
    assert_eq!(s.erase_all(), Ok(()));
    assert_eq!(s.get::<u32>("warm"), Ok(None));
}
