use flash_kv::codec::{decode, PostcardValue, SerializationError, Storable};
use flash_kv::config::{
    get_amsg, get_baud_rate, get_heater_config, get_sensors_interval, get_serial_number,
    set_amsg, set_baud_rate, set_heater_config, set_sensors_interval, set_serial_number, Amsg,
    HeatMode, HeaterNvdata, StorableString, get_device_name, set_device_name,
};
use flash_kv::flash_map::Flash;
use flash_kv::keys::pad_key;
use flash_kv::region::{flash_range_from_linker, RegionError};
use flash_kv::storage::{init, Storage};
use sequential_storage::mock_flash::WriteCountCheck;

fn fresh_storage() -> Storage {
    let flash = Flash::new(WriteCountCheck::Twice, None, false);
    let region = flash_range_from_linker(0x0800_0000, 0x0800_0400).unwrap();
    init(flash, region).unwrap().0
}

#[test]
fn u32_encodes_as_varint() {
    assert_eq!(0u32.encode(), vec![0x00]);
    assert_eq!(127u32.encode(), vec![0x7F]);
    assert_eq!(300u32.encode(), vec![0xAC, 0x02]);
    assert_eq!(u32::MAX.encode(), vec![0xFF, 0xFF, 0xFF, 0xFF, 0x0F]);
    assert_eq!(decode::<u32>(&[0xAC, 0x02]), Some(300));
    assert_eq!(decode::<u32>(&[0xAC, 0x02, 0x55]), Some(300));
    assert_eq!(decode::<u32>(&[0xFF, 0xFF, 0xFF, 0xFF, 0x1F]), None);
    assert_eq!(decode::<u32>(&[0x80]), None);
    assert_eq!(decode::<u32>(&[]), None);
}

#[test]
fn u8_and_arrays_encode_raw() {
    assert_eq!(0xAAu8.encode(), vec![0xAA]);
    assert_eq!(decode::<u8>(&[0x42, 0x01]), Some(0x42));
    assert_eq!([1u8, 2, 3, 4, 5].encode(), vec![1, 2, 3, 4, 5]);
    assert_eq!(decode::<[u8; 5]>(&[1, 2, 3, 4, 5]), Some([1, 2, 3, 4, 5]));
    assert_eq!(decode::<[u8; 5]>(&[1, 2, 3, 4]), None);
    assert_eq!(<[u8; 5]>::max_size(), 5);
    assert_eq!(u32::max_size(), 5);
}

#[test]
fn records_encode_field_by_field() {
    let a = Amsg { id: 300, interval: 5 };
    assert_eq!(a.encode(), vec![0xAC, 0x02, 0x05]);
    assert_eq!(decode::<Amsg>(&a.encode()), Some(a));
    let h = HeaterNvdata { mode: HeatMode::Auto, hysteresis: 3, threshold: -1 };
    assert_eq!(h.encode(), vec![0x02, 0x03, 0x01]);
    assert_eq!(decode::<HeaterNvdata>(&h.encode()), Some(h));
    let h = HeaterNvdata { mode: HeatMode::PwrSave, hysteresis: 0, threshold: -32768 };
    assert_eq!(h.encode(), vec![0x03, 0x00, 0xFF, 0xFF, 0x03]);
    assert_eq!(decode::<HeaterNvdata>(&h.encode()), Some(h));
    assert_eq!(decode::<HeatMode>(&[0x04]), None);
    assert_eq!(decode::<HeaterNvdata>(&[0x01, 0x02]), None);
}

#[test]
fn pad_key_pads_with_zeros() {
    let k = pad_key("ab").unwrap();
    assert_eq!(&k[..2], b"ab");
    assert!(k[2..].iter().all(|b| *b == 0));
    assert!(pad_key(&"z".repeat(64)).is_some());
    assert!(pad_key(&"z".repeat(65)).is_none());
}

#[test]
fn region_resolves_device_relative_range() {
    let r = flash_range_from_linker(0x0800_FC00, 0x0801_0000).unwrap();
    assert_eq!((r.start(), r.end()), (0xFC00, 0x10000));
}

#[test]
fn region_rejects_each_misplacement() {
    assert_eq!(flash_range_from_linker(0x0700_0000, 0x0800_0400), Err(RegionError::BelowFlashBase));
    assert_eq!(flash_range_from_linker(0x0800_0400, 0x0800_0400), Err(RegionError::Empty));
    assert_eq!(flash_range_from_linker(0x0800_0000, 0x0800_0040), Err(RegionError::SmallerThanPage));
    assert_eq!(flash_range_from_linker(0x0800_0000, 0x0800_00C0), Err(RegionError::SizeNotPageMultiple));
    assert_eq!(flash_range_from_linker(0x0800_0040, 0x0800_0440), Err(RegionError::StartNotAligned));
    assert_eq!(flash_range_from_linker(0x0800_0000, 0x0800_0800), Err(RegionError::PageCountMismatch));
}

#[test]
fn configuration_values_round_trip() {
    let mut s = fresh_storage();
    assert_eq!(get_serial_number(&mut s), Ok(None));
    assert_eq!(set_serial_number(&mut s, &[9, 8, 7, 6, 5]), Ok(()));
    assert_eq!(get_serial_number(&mut s), Ok(Some([9, 8, 7, 6, 5])));
    assert_eq!(set_baud_rate(&mut s, 57600), Ok(()));
    assert_eq!(get_baud_rate(&mut s), Ok(Some(57600)));
    let a = Amsg { id: 7, interval: 1000 };
    assert_eq!(set_amsg(&mut s, &a), Ok(()));
    assert_eq!(get_amsg(&mut s), Ok(Some(a)));
    assert_eq!(set_sensors_interval(&mut s, 30), Ok(()));
    assert_eq!(get_sensors_interval(&mut s), Ok(Some(30)));
    let h = HeaterNvdata { mode: HeatMode::On, hysteresis: 2, threshold: -40 };
    assert_eq!(set_heater_config(&mut s, &h), Ok(()));
    assert_eq!(get_heater_config(&mut s), Ok(Some(h)));
}

#[test]
fn postcard_value_writes_into_fixed_buffer() {
    let v = PostcardValue::from(300u32);
    let mut buf = [0xEEu8; 4];
    assert_eq!(v.serialize_into(&mut buf), Ok(2));
    assert_eq!(buf, [0xAC, 0x02, 0xEE, 0xEE]);
    let mut small = [0u8; 1];
    assert_eq!(v.serialize_into(&mut small), Err(SerializationError::BufferTooSmall));
    assert_eq!(small, [0]);
    assert_eq!(v.into_inner(), 300);
    let back = PostcardValue::<u32>::deserialize_from(&buf).unwrap();
    assert_eq!(back.into_inner(), 300);
    assert!(matches!(
        PostcardValue::<u32>::deserialize_from(&[0x80]),
        Err(SerializationError::InvalidData)
    ));
}

#[test]
fn bounded_string_encodes_as_postcard_string() {
    let name = StorableString::<22>::new("sensor-01").unwrap();
    let mut expected = vec![9u8];
    expected.extend_from_slice(b"sensor-01");
    assert_eq!(name.encode(), expected);
    assert_eq!(decode::<StorableString<22>>(&expected), Some(name));
    assert_eq!(name.as_bytes(), b"sensor-01".to_vec());
    assert!(StorableString::<22>::new(&"x".repeat(22)).is_some());
    assert!(StorableString::<22>::new(&"x".repeat(23)).is_none());
    let mut long = vec![23u8];
    long.extend_from_slice(&[b'x'; 23]);
    assert_eq!(decode::<StorableString<22>>(&long), None);
    assert_eq!(decode::<StorableString<22>>(&[2, 0xC3, 0x28]), None);
    assert_eq!(decode::<StorableString<22>>(&[5, b'a']), None);
    let umlaut = StorableString::<22>::new("größe").unwrap();
    assert_eq!(decode::<StorableString<22>>(&umlaut.encode()), Some(umlaut));
}

#[test]
fn device_name_round_trips() {
    let mut s = fresh_storage();
    assert_eq!(get_device_name(&mut s), Ok(None));
    let name = StorableString::<22>::new("bench unit").unwrap();
    assert_eq!(set_device_name(&mut s, &name), Ok(()));
    assert_eq!(get_device_name(&mut s), Ok(Some(name)));
}
