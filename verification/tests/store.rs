use stat_store::value::{CustomStat, DurationValue, StatData};
use stat_store::Stats;

#[test]
fn core_features() {
    let mut stats = Stats::new();
    let id = "Enemies Killed";
    let stat_data = StatData::new(0u64);

    stats.add_to_stat(&id, stat_data);
    assert_eq!(*stats.get_stat_downcast::<u64>(&id).unwrap(), 0);
    stats.add_to_stat(&id, StatData::new(5u64));
    assert_eq!(*stats.get_stat_downcast::<u64>(&id).unwrap(), 5);

    stats.sub_from_stat(&id, StatData::new(3u64));
    assert_eq!(*stats.get_stat_downcast::<u64>(&id).unwrap(), 2);

    stats.reset_stat(&id);
    assert_eq!(*stats.get_stat_downcast::<u64>(&id).unwrap(), 0);

    stats.set_stat(&id, StatData::new(3u64));
    assert_eq!(*stats.get_stat_downcast::<u64>(&id).unwrap(), 3);

    // If the stat has already been added then it ignores invalid stat types
    stats.add_to_stat(&id, StatData::new(5i64));
    assert_eq!(*stats.get_stat_downcast::<u64>(&id).unwrap(), 3);

    stats.remove_stat(&id);
    assert_eq!(stats.get_stat_downcast::<u64>(&id), None);

    // If the stat has been cleared then you can add new stats of different types
    stats.add_to_stat(&id, StatData::new(5i64));
    assert_eq!(*stats.get_stat_downcast::<i64>(&id).unwrap(), 5);
}

#[test]
fn duration() {
    let mut stats = Stats::new();
    let id = "Playtime";
    let stat_data = StatData::new(DurationValue::new(5, 0));

    stats.add_to_stat(&id, stat_data);

    assert_eq!(
        *stats.get_stat_downcast::<DurationValue>(&id).unwrap(),
        DurationValue::new(5, 0)
    );
    stats.add_to_stat(&id, StatData::new(DurationValue::new(5, 0)));
    assert_eq!(
        *stats.get_stat_downcast::<DurationValue>(&id).unwrap(),
        DurationValue::new(10, 0)
    );
    stats.sub_from_stat(&id, StatData::new(DurationValue::new(3, 0)));
    assert_eq!(
        *stats.get_stat_downcast::<DurationValue>(&id).unwrap(),
        DurationValue::new(7, 0)
    );

    // If the stat has already been added then it ignores invalid stat types
    stats.add_to_stat(&id, StatData::new(5i64));
    assert_eq!(
        *stats.get_stat_downcast::<DurationValue>(&id).unwrap(),
        DurationValue::new(7, 0)
    );
}

#[test]
fn zero_identity() {
    let mut stats = Stats::new();
    let id = "score";
    stats.set_stat(&id, StatData::new(41u32));
    stats.add_to_stat(&id, StatData::new(0u32));
    assert_eq!(*stats.get_stat_downcast::<u32>(&id).unwrap(), 41);
    stats.sub_from_stat(&id, StatData::new(0u32));
    assert_eq!(*stats.get_stat_downcast::<u32>(&id).unwrap(), 41);
}

#[test]
fn add_sub_cancellation() {
    let mut stats = Stats::new();
    let id = "balance";
    stats.set_stat(&id, StatData::new(10i8));
    stats.add_to_stat(&id, StatData::new(50i8));
    stats.sub_from_stat(&id, StatData::new(50i8));
    assert_eq!(*stats.get_stat_downcast::<i8>(&id).unwrap(), 10);
}

#[test]
fn unsigned_saturation() {
    let mut stats = Stats::new();
    let id = "full";
    stats.set_stat(&id, StatData::new(u8::MAX));
    stats.add_to_stat(&id, StatData::new(5u8));
    assert_eq!(*stats.get_stat_downcast::<u8>(&id).unwrap(), u8::MAX);

    stats.set_stat(&id, StatData::new(0u8));
    stats.sub_from_stat(&id, StatData::new(5u8));
    assert_eq!(*stats.get_stat_downcast::<u8>(&id).unwrap(), 0);

    stats.set_stat(&id, StatData::new(u128::MAX));
    stats.add_to_stat(&id, StatData::new(1u128));
    assert_eq!(*stats.get_stat_downcast::<u128>(&id).unwrap(), u128::MAX);
}

#[test]
fn signed_saturation() {
    let mut stats = Stats::new();
    let id = "swing";
    stats.set_stat(&id, StatData::new(i8::MAX));
    stats.add_to_stat(&id, StatData::new(1i8));
    assert_eq!(*stats.get_stat_downcast::<i8>(&id).unwrap(), i8::MAX);

    stats.set_stat(&id, StatData::new(i8::MIN));
    stats.sub_from_stat(&id, StatData::new(1i8));
    assert_eq!(*stats.get_stat_downcast::<i8>(&id).unwrap(), i8::MIN);

    stats.set_stat(&id, StatData::new(i64::MIN));
    stats.add_to_stat(&id, StatData::new(-1i64));
    assert_eq!(*stats.get_stat_downcast::<i64>(&id).unwrap(), i64::MIN);
}

#[test]
fn kind_lock() {
    let mut stats = Stats::new();
    let id = "locked";
    stats.add_to_stat(&id, StatData::new(0u64));
    stats.add_to_stat(&id, StatData::new(5u64));
    stats.add_to_stat(&id, StatData::new(9u32));
    stats.sub_from_stat(&id, StatData::new(9u32));
    assert_eq!(*stats.get_stat_downcast::<u64>(&id).unwrap(), 5);
    assert_eq!(stats.get_stat_downcast::<u32>(&id), None);
}

#[test]
fn set_changes_kind() {
    let mut stats = Stats::new();
    let id = "rebound";
    stats.add_to_stat(&id, StatData::new(5u64));
    stats.set_stat(&id, StatData::new(3u32));
    assert_eq!(*stats.get_stat_downcast::<u32>(&id).unwrap(), 3);
    assert_eq!(stats.get_stat_downcast::<u64>(&id), None);
}

#[test]
fn remove_resets_kind_binding() {
    let mut stats = Stats::new();
    let id = "fresh";
    stats.add_to_stat(&id, StatData::new(5u64));
    stats.remove_stat(&id);
    stats.add_to_stat(&id, StatData::new(3u32));
    assert_eq!(*stats.get_stat_downcast::<u32>(&id).unwrap(), 3);
    assert_eq!(stats.get_stat_downcast::<u64>(&id), None);
}

#[test]
fn reset_idempotence() {
    let mut stats = Stats::new();
    let id = "twice";
    stats.set_stat(&id, StatData::new(9u16));
    stats.reset_stat(&id);
    assert_eq!(*stats.get_stat_downcast::<u16>(&id).unwrap(), 0);
    stats.reset_stat(&id);
    assert_eq!(*stats.get_stat_downcast::<u16>(&id).unwrap(), 0);

    // Reset on an absent key never creates a slot.
    let absent = "never";
    stats.reset_stat(&absent);
    assert!(stats.get_stat(&absent).is_none());
    stats.reset_stat(&absent);
    assert!(stats.get_stat(&absent).is_none());
}

#[test]
fn duration_sub_underflow_saturates_to_zero() {
    let mut stats = Stats::new();
    let id = "timer";
    stats.set_stat(&id, StatData::new(DurationValue::new(3, 0)));
    stats.sub_from_stat(&id, StatData::new(DurationValue::new(5, 0)));
    assert_eq!(
        *stats.get_stat_downcast::<DurationValue>(&id).unwrap(),
        DurationValue::new(0, 0)
    );
}

#[test]
fn duration_add_saturates_at_max() {
    let max = DurationValue::new(u64::MAX, 999_999_999);
    let mut stats = Stats::new();
    let id = "eternity";
    stats.set_stat(&id, StatData::new(max));
    stats.add_to_stat(&id, StatData::new(DurationValue::new(1, 0)));
    assert_eq!(*stats.get_stat_downcast::<DurationValue>(&id).unwrap(), max);
}

#[test]
fn duration_normalizes_nanos() {
    assert_eq!(
        DurationValue::new(1, 1_500_000_000),
        DurationValue::new(2, 500_000_000)
    );
    let borrow = DurationValue::new(2, 100_000_000);
    let mut stats = Stats::new();
    let id = "borrowed";
    stats.set_stat(&id, StatData::new(borrow));
    stats.sub_from_stat(&id, StatData::new(DurationValue::new(0, 600_000_000)));
    assert_eq!(
        *stats.get_stat_downcast::<DurationValue>(&id).unwrap(),
        DurationValue::new(1, 500_000_000)
    );
}

#[test]
fn custom_stat_merges() {
    let mut stats = Stats::new();
    let id = "crops";
    stats.add_to_stat(
        &id,
        StatData::new(CustomStat::new("CropsGrown", vec![("Potato".to_string(), 5)])),
    );
    stats.add_to_stat(
        &id,
        StatData::new(CustomStat::new("CropsGrown", vec![("Potato".to_string(), 5)])),
    );
    stats.add_to_stat(
        &id,
        StatData::new(CustomStat::new(
            "CropsGrown",
            vec![("Dandelion".to_string(), 500)],
        )),
    );
    let got = stats.get_stat_downcast::<CustomStat>(&id).unwrap();
    assert_eq!(got.get("Potato"), Some(10));
    assert_eq!(got.get("Dandelion"), Some(500));
    assert_eq!(got.get("Wheat"), None);
    assert!(got.same_as(&CustomStat::new(
        "CropsGrown",
        vec![("Dandelion".to_string(), 500), ("Potato".to_string(), 10)],
    )));
}

#[test]
fn custom_stat_sub_saturates_per_key() {
    let mut stats = Stats::new();
    let id = "crops";
    stats.set_stat(
        &id,
        StatData::new(CustomStat::new("CropsGrown", vec![("Potato".to_string(), 5)])),
    );
    stats.sub_from_stat(
        &id,
        StatData::new(CustomStat::new(
            "CropsGrown",
            vec![("Potato".to_string(), 2), ("Dandelion".to_string(), 9)],
        )),
    );
    let got = stats.get_stat_downcast::<CustomStat>(&id).unwrap();
    assert_eq!(got.get("Potato"), Some(3));
    assert_eq!(got.get("Dandelion"), Some(0));
}

#[test]
fn custom_stats_of_different_tags_do_not_mix() {
    let mut stats = Stats::new();
    let id = "table";
    stats.add_to_stat(
        &id,
        StatData::new(CustomStat::new("CropsGrown", vec![("Potato".to_string(), 5)])),
    );
    stats.add_to_stat(
        &id,
        StatData::new(CustomStat::new("FishCaught", vec![("Carp".to_string(), 2)])),
    );
    let got = stats.get_stat_downcast::<CustomStat>(&id).unwrap();
    assert_eq!(got.tag_str(), "CropsGrown");
    assert_eq!(got.get("Potato"), Some(5));
    assert_eq!(got.get("Carp"), None);
}

#[test]
fn custom_stat_last_pair_wins() {
    let c = CustomStat::new(
        "CropsGrown",
        vec![("Potato".to_string(), 5), ("Potato".to_string(), 7)],
    );
    assert_eq!(c.get("Potato"), Some(7));
    assert!(!c.same_as(&CustomStat::new(
        "CropsGrown",
        vec![("Potato".to_string(), 5)]
    )));
}

#[test]
fn get_on_absent_key() {
    let stats = Stats::new();
    let id = "nothing";
    assert!(stats.get_stat(&id).is_none());
    assert!(stats.get_stat_manual("nothing").is_none());
    assert_eq!(stats.get_stat_downcast::<u64>(&id), None);
}

#[test]
fn manual_and_identified_access_agree() {
    let mut stats = Stats::new();
    stats.add_to_stat_manual("Enemies Killed", StatData::new(4u64));
    assert_eq!(
        *stats
            .get_stat_downcast::<u64>(&"Enemies Killed")
            .unwrap(),
        4
    );
    stats.sub_from_stat_manual("Enemies Killed", StatData::new(1u64));
    stats.set_stat_manual("Bosses Killed", StatData::new(2u64));
    assert!(stats.get_stat_manual("Enemies Killed").is_some());
    assert!(stats.get_stat_manual("Bosses Killed").is_some());
    stats.remove_stat_manual("Bosses Killed");
    assert!(stats.get_stat_manual("Bosses Killed").is_none());
    stats.reset_stat_manual("Enemies Killed");
    assert_eq!(
        *stats
            .get_stat_downcast::<u64>(&"Enemies Killed")
            .unwrap(),
        0
    );
}
