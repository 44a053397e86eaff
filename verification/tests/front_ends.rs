use stat_store::commands::modify_entity_stat;
use stat_store::events::{handle_stat_modifications, ModifyStat};
use stat_store::stat_modification::ModificationType;
use stat_store::value::{CustomStat, StatData};
use stat_store::Stats;

#[test]
fn entity_commands() {
    let mut target = Some(Stats::new());
    let id = "Enemies Killed";

    modify_entity_stat(&mut target, &id, ModificationType::add(5u64));
    modify_entity_stat(&mut target, &id, ModificationType::add(10u64));
    assert_eq!(
        *target
            .as_ref()
            .unwrap()
            .get_stat_downcast::<u64>(&id)
            .unwrap(),
        15u64
    );

    modify_entity_stat(&mut target, &id, ModificationType::reset());
    modify_entity_stat(&mut target, &id, ModificationType::add(15u64));
    modify_entity_stat(&mut target, &id, ModificationType::sub(5u64));
    modify_entity_stat(&mut target, &id, ModificationType::sub(7u64));
    assert_eq!(
        *target
            .as_ref()
            .unwrap()
            .get_stat_downcast::<u64>(&id)
            .unwrap(),
        3u64
    );

    modify_entity_stat(&mut target, &id, ModificationType::set(7u64));
    assert_eq!(
        *target
            .as_ref()
            .unwrap()
            .get_stat_downcast::<u64>(&id)
            .unwrap(),
        7u64
    );

    modify_entity_stat(&mut target, &id, ModificationType::remove());
    assert_eq!(
        target.as_ref().unwrap().get_stat_downcast::<u64>(&id),
        None
    );
}

#[test]
fn resource_stats() {
    let mut stats = Stats::new();
    handle_stat_modifications(&mut stats, vec![ModifyStat::add("Enemies Killed", 2u64)]);
    assert_eq!(
        *stats
            .get_stat_downcast::<u64>(&"Enemies Killed")
            .unwrap(),
        2u64
    );
}

#[test]
fn custom_stat_data() {
    let mut target = Some(Stats::new());
    let id = "Enemies Killed";

    modify_entity_stat(
        &mut target,
        &id,
        ModificationType::add(CustomStat::new("CropsGrown", vec![("Potato".to_string(), 5)])),
    );
    assert!(target
        .as_ref()
        .unwrap()
        .get_stat_downcast::<CustomStat>(&id)
        .unwrap()
        .same_as(&CustomStat::new(
            "CropsGrown",
            vec![("Potato".to_string(), 5)]
        )));

    modify_entity_stat(
        &mut target,
        &id,
        ModificationType::add(CustomStat::new("CropsGrown", vec![("Potato".to_string(), 5)])),
    );
    modify_entity_stat(
        &mut target,
        &id,
        ModificationType::add(CustomStat::new(
            "CropsGrown",
            vec![("Dandelion".to_string(), 500)],
        )),
    );
    assert!(target
        .as_ref()
        .unwrap()
        .get_stat_downcast::<CustomStat>(&id)
        .unwrap()
        .same_as(&CustomStat::new(
            "CropsGrown",
            vec![("Dandelion".to_string(), 500), ("Potato".to_string(), 10)],
        )));
}

#[test]
fn event_ordering_applies_left_to_right() {
    let mut stats = Stats::new();
    let id = "Enemies Killed";
    handle_stat_modifications(
        &mut stats,
        vec![
            ModifyStat::add(id, 2u64),
            ModifyStat::set(id, 10u64),
            ModifyStat::sub(id, 3u64),
        ],
    );
    assert_eq!(*stats.get_stat_downcast::<u64>(&id).unwrap(), 7u64);
}

#[test]
fn event_constructors_cover_every_verb() {
    let mut stats = Stats::new();
    let id = "Playtime";
    handle_stat_modifications(
        &mut stats,
        vec![
            ModifyStat::new(id, ModificationType::add(4u32)),
            ModifyStat::add(id, 3u32),
            ModifyStat::sub(id, 2u32),
            ModifyStat::reset(id),
            ModifyStat::set(id, 9u32),
        ],
    );
    assert_eq!(*stats.get_stat_downcast::<u32>(&id).unwrap(), 9u32);
    handle_stat_modifications(&mut stats, vec![ModifyStat::remove(id)]);
    assert!(stats.get_stat(&id).is_none());
}

#[test]
fn empty_event_batch_changes_nothing() {
    let mut stats = Stats::new();
    stats.add_to_stat(&"Enemies Killed", StatData::new(6u64));
    handle_stat_modifications(&mut stats, vec![]);
    assert_eq!(
        *stats
            .get_stat_downcast::<u64>(&"Enemies Killed")
            .unwrap(),
        6u64
    );
}

#[test]
fn command_dropped_on_missing_target() {
    let mut target: Option<Stats> = None;
    modify_entity_stat(&mut target, &"Enemies Killed", ModificationType::add(5u64));
    assert!(target.is_none());
    modify_entity_stat(&mut target, &"Enemies Killed", ModificationType::remove());
    assert!(target.is_none());
}

#[test]
fn commands_cover_every_verb() {
    let mut target = Some(Stats::new());
    let id = "Health";
    modify_entity_stat(&mut target, &id, ModificationType::add(30u16));
    modify_entity_stat(&mut target, &id, ModificationType::sub(10u16));
    assert_eq!(
        *target
            .as_ref()
            .unwrap()
            .get_stat_downcast::<u16>(&id)
            .unwrap(),
        20u16
    );
    modify_entity_stat(&mut target, &id, ModificationType::reset());
    assert_eq!(
        *target
            .as_ref()
            .unwrap()
            .get_stat_downcast::<u16>(&id)
            .unwrap(),
        0u16
    );
    modify_entity_stat(&mut target, &id, ModificationType::set(7u16));
    assert_eq!(
        *target
            .as_ref()
            .unwrap()
            .get_stat_downcast::<u16>(&id)
            .unwrap(),
        7u16
    );
    modify_entity_stat(&mut target, &id, ModificationType::remove());
    assert!(target.as_ref().unwrap().get_stat(&id).is_none());
}

#[test]
fn apply_modification_dispatches_to_primitives() {
    let mut stats = Stats::new();
    stats.apply_modification("hits", ModificationType::add(2u64));
    stats.apply_modification("hits", ModificationType::add(3u64));
    assert_eq!(*stats.get_stat_downcast::<u64>(&"hits").unwrap(), 5u64);
    stats.apply_modification("hits", ModificationType::set(11u64));
    stats.apply_modification("hits", ModificationType::sub(1u64));
    assert_eq!(*stats.get_stat_downcast::<u64>(&"hits").unwrap(), 10u64);
    stats.apply_modification("hits", ModificationType::reset());
    assert_eq!(*stats.get_stat_downcast::<u64>(&"hits").unwrap(), 0u64);
    stats.apply_modification("hits", ModificationType::remove());
    assert!(stats.get_stat_manual("hits").is_none());
}
