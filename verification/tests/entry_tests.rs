use wolf_rpg_data::file_time_to_system_time;
use wolf_rpg_data::system_time_to_file_time;
use wolf_rpg_data::Attributes;
use wolf_rpg_data::FileEntry;
use wolf_rpg_data::FileTimes;

/// The Unix epoch expressed in FILETIME ticks (100 ns since 1601-01-01).
const UNIX_EPOCH_FILETIME: u64 = 116_444_736_000_000_000;

#[test]
fn file_time_at_unix_epoch() {
    assert_eq!(file_time_to_system_time(UNIX_EPOCH_FILETIME), Some(0));
    assert_eq!(file_time_to_system_time(UNIX_EPOCH_FILETIME + 1), Some(100));
}

#[test]
fn file_time_before_unix_epoch_is_none() {
    assert_eq!(file_time_to_system_time(0), None);
    assert_eq!(file_time_to_system_time(UNIX_EPOCH_FILETIME - 1), None);
}

#[test]
fn file_time_overflow_is_none() {
    assert_eq!(file_time_to_system_time(u64::MAX), None);
}

#[test]
fn system_time_round_trip() {
    assert_eq!(system_time_to_file_time(0), Some(UNIX_EPOCH_FILETIME));
    let nanos: u64 = 1_600_000_000_123_456_789;
    let ft = system_time_to_file_time(nanos).unwrap();
    // the conversion truncates to 100-nanosecond ticks
    assert_eq!(file_time_to_system_time(ft), Some(nanos / 100 * 100));
}

#[test]
fn system_time_overflow_is_none() {
    assert_eq!(system_time_to_file_time(u64::MAX), None);
}

#[test]
fn file_times_getters_and_setters() {
    let mut times = FileTimes { created: 0, accessed: 0, modified: 0 };
    assert_eq!(times.created(), None);

    assert_eq!(times.set_created(100), Some(()));
    assert_eq!(times.set_accessed(200), Some(()));
    assert_eq!(times.set_modified(300), Some(()));
    assert_eq!(times.created(), Some(100));
    assert_eq!(times.accessed(), Some(200));
    assert_eq!(times.modified(), Some(300));

    // a time that cannot be represented leaves the value unchanged
    assert_eq!(times.set_modified(u64::MAX), None);
    assert_eq!(times.modified(), Some(300));
}

#[test]
fn attribute_bits() {
    let dir = Attributes::from_bits_retain(0x10);
    assert!(dir.contains(Attributes::directory()));
    assert!(!dir.contains(Attributes::archive()));
    let both = Attributes::from_bits_retain(0x30);
    assert!(both.contains(Attributes::directory()));
    assert!(both.contains(Attributes::archive()));
}

#[test]
fn file_entry_predicates() {
    let times = FileTimes { created: 1, accessed: 2, modified: 3 };
    let entry = FileEntry {
        name_position: 4,
        attributes: Attributes::from_bits_retain(0x20),
        file_times: times,
        data_position: 10,
        data_size: 20,
        compressed_data_size: Some(15),
    };
    assert!(!entry.is_dir());
    assert!(entry.is_file());
    assert!(entry.is_compressed());
    assert_eq!(entry.size(), 20);
    assert_eq!(entry.compressed_size(), Some(15));
    assert_eq!(entry.get_attributes(), Attributes::from_bits_retain(0x20));
    assert_eq!(entry.file_times(), times);

    let dir_entry = FileEntry {
        attributes: Attributes::from_bits_retain(0x10),
        compressed_data_size: None,
        ..entry
    };
    assert!(dir_entry.is_dir());
    assert!(!dir_entry.is_file());
    assert!(!dir_entry.is_compressed());
}
