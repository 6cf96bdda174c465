use entity_pool::Bucket;
use entity_pool::Entity;

#[derive(Default)]
struct TestComponent {
    x: i32,
    y: i32,
}

#[derive(Default, Debug, PartialEq)]
struct Health {
    points: u32,
}

#[test]
fn test_add_entity_to_bucket() {
    let mut bucket = Bucket::new();
    let _ = bucket.create_entity();
    assert!(bucket.get_all_entities().len() == 1);
    let ent = bucket.get_all_entities().get(0).unwrap().as_ref().unwrap();
    assert_eq!(ent.index(), 0);
}

#[test]
fn test_remove_entity_from_bucket() {
    let mut bucket = Bucket::new();
    let index = bucket.create_entity().unwrap().index();
    let deleted = bucket.delete_entity_by_id(index);
    assert!(deleted.is_ok());
    assert_eq!(*bucket.free_ids().get(0).unwrap(), 0);
}

#[test]
fn test_get_component_from_entity() {
    let mut bucket = Bucket::new();
    let ent = bucket.create_entity().unwrap();

    let test_component = ent.add_component::<TestComponent>();
    test_component.x = 1;
    test_component.y = 2;

    let comp = ent.get_component::<TestComponent>().unwrap();

    assert_eq!(comp.x, 1);
    assert_eq!(comp.y, 2);

    let comp_mut = ent.get_component_mut::<TestComponent>().unwrap();

    assert_eq!(comp_mut.x, 1);
    assert_eq!(comp_mut.y, 2);
}

#[test]
fn fresh_pool_counts_ids_up() {
    let mut bucket = Bucket::new();
    for expected in 0..25usize {
        let id = bucket.create_entity().unwrap().index();
        assert_eq!(id, expected);
    }
    assert_eq!(bucket.get_all_entities().len(), 25);
    assert!(bucket.free_ids().is_empty());
}

#[test]
fn deleted_id_is_handed_out_again() {
    let mut bucket = Bucket::new();
    for _ in 0..5 {
        bucket.create_entity().unwrap();
    }
    assert!(bucket.delete_entity_by_id(3).is_ok());
    assert_eq!(bucket.create_entity().unwrap().index(), 3);
    assert!(bucket.free_ids().is_empty());
}

#[test]
fn vacated_ids_come_back_last_first() {
    let mut bucket = Bucket::new();
    for _ in 0..4 {
        bucket.create_entity().unwrap();
    }
    assert!(bucket.delete_entity_by_id(0).is_ok());
    assert!(bucket.delete_entity_by_id(2).is_ok());
    assert_eq!(bucket.free_ids().as_slice(), &[0usize, 2]);
    assert_eq!(bucket.create_entity().unwrap().index(), 2);
    assert_eq!(bucket.create_entity().unwrap().index(), 0);
    assert_eq!(bucket.create_entity().unwrap().index(), 4);
}

#[test]
fn pool_grows_only_when_nothing_is_vacated() {
    let mut bucket = Bucket::new();
    assert_eq!(bucket.create_entity().unwrap().index(), 0);
    assert_eq!(bucket.create_entity().unwrap().index(), 1);
    assert_eq!(bucket.create_entity().unwrap().index(), 2);
    assert!(bucket.delete_entity_by_id(1).is_ok());
    assert_eq!(bucket.create_entity().unwrap().index(), 1);
    assert_eq!(bucket.get_all_entities().len(), 3);
    assert_eq!(bucket.create_entity().unwrap().index(), 3);
    assert_eq!(bucket.get_all_entities().len(), 4);
}

#[test]
fn lookup_finds_live_entities_only() {
    let mut bucket = Bucket::new();
    assert!(bucket.get_entity_by_id(0).is_none());
    bucket.create_entity().unwrap();
    bucket.create_entity().unwrap();
    assert_eq!(bucket.get_entity_by_id(0).unwrap().index(), 0);
    assert_eq!(bucket.get_entity_by_id(1).unwrap().index(), 1);
    assert!(bucket.get_entity_by_id(2).is_none());
    assert!(bucket.get_entity_by_id(usize::MAX).is_none());
    assert!(bucket.delete_entity_by_id(0).is_ok());
    assert!(bucket.get_entity_by_id(0).is_none());
    assert_eq!(bucket.get_entity_by_id(1).unwrap().index(), 1);
}

#[test]
fn delete_out_of_range_is_refused_and_changes_nothing() {
    let mut bucket = Bucket::new();
    assert_eq!(bucket.delete_entity_by_id(0), Err("Could not delete entity"));
    bucket.create_entity().unwrap();
    bucket.create_entity().unwrap();
    assert!(bucket.delete_entity_by_id(1).is_ok());
    assert_eq!(bucket.delete_entity_by_id(2), Err("Could not delete entity"));
    assert_eq!(bucket.delete_entity_by_id(usize::MAX), Err("Could not delete entity"));
    assert_eq!(bucket.free_ids().as_slice(), &[1usize]);
    let slots = bucket.get_all_entities();
    assert_eq!(slots.len(), 2);
    assert!(slots[0].is_some());
    assert!(slots[1].is_none());
}

#[test]
fn deleting_twice_lists_the_id_twice() {
    let mut bucket = Bucket::new();
    bucket.create_entity().unwrap();
    assert!(bucket.delete_entity_by_id(0).is_ok());
    assert!(bucket.delete_entity_by_id(0).is_ok());
    assert_eq!(bucket.free_ids().as_slice(), &[0usize, 0]);
    assert_eq!(bucket.create_entity().unwrap().index(), 0);
    assert_eq!(bucket.create_entity().unwrap().index(), 0);
    assert_eq!(bucket.get_all_entities().len(), 1);
    assert_eq!(bucket.create_entity().unwrap().index(), 1);
}

#[test]
fn all_entities_shows_vacant_slots_too() {
    let mut bucket = Bucket::new();
    for _ in 0..3 {
        bucket.create_entity().unwrap();
    }
    assert!(bucket.delete_entity_by_id(1).is_ok());
    let slots = bucket.get_all_entities();
    assert_eq!(slots.len(), 3);
    assert_eq!(slots[0].as_ref().unwrap().index(), 0);
    assert!(slots[1].is_none());
    assert_eq!(slots[2].as_ref().unwrap().index(), 2);
}

#[test]
fn new_entity_has_its_id_and_no_components() {
    let ent = Entity::new(17);
    assert_eq!(ent.index(), 17);
    assert!(ent.get_component::<Health>().is_none());
    assert!(ent.get_component::<TestComponent>().is_none());
}

#[test]
fn recreated_entity_starts_without_components() {
    let mut bucket = Bucket::new();
    bucket.create_entity().unwrap().add_component::<Health>().points = 9;
    assert!(bucket.delete_entity_by_id(0).is_ok());
    let ent = bucket.create_entity().unwrap();
    assert_eq!(ent.index(), 0);
    assert!(ent.get_component::<Health>().is_none());
}

#[test]
fn added_component_starts_at_default() {
    let mut ent = Entity::new(0);
    assert_eq!(*ent.add_component::<Health>(), Health { points: 0 });
    assert_eq!(*ent.add_component::<u64>(), 0);
    assert_eq!(ent.get_component::<Health>(), Some(&Health { points: 0 }));
}

#[test]
fn adding_twice_overwrites_with_default() {
    let mut ent = Entity::new(0);
    ent.add_component::<Health>().points = 40;
    assert_eq!(ent.get_component::<Health>().unwrap().points, 40);
    let again = ent.add_component::<Health>();
    assert_eq!(again.points, 0);
    assert_eq!(ent.get_component::<Health>().unwrap().points, 0);
    assert_eq!(ent.get_component_mut::<Health>().unwrap().points, 0);
}

#[test]
fn type_never_added_is_absent() {
    let mut ent = Entity::new(0);
    ent.add_component::<TestComponent>().x = 3;
    assert!(ent.get_component::<Health>().is_none());
    assert!(ent.get_component_mut::<Health>().is_none());
    assert!(ent.get_component::<i32>().is_none());
    assert_eq!(ent.get_component::<TestComponent>().unwrap().x, 3);
}

#[test]
fn components_of_different_types_live_side_by_side() {
    let mut ent = Entity::new(0);
    ent.add_component::<Health>().points = 7;
    *ent.add_component::<u32>() = 11;
    *ent.add_component::<u64>() = 13;
    ent.add_component::<TestComponent>().y = -1;
    assert_eq!(ent.get_component::<Health>().unwrap().points, 7);
    assert_eq!(*ent.get_component::<u32>().unwrap(), 11);
    assert_eq!(*ent.get_component::<u64>().unwrap(), 13);
    assert_eq!(ent.get_component::<TestComponent>().unwrap().y, -1);
    *ent.add_component::<u32>() = 12;
    assert_eq!(ent.get_component::<Health>().unwrap().points, 7);
    assert_eq!(*ent.get_component::<u32>().unwrap(), 12);
    assert_eq!(*ent.get_component::<u64>().unwrap(), 13);
}

#[test]
fn writes_through_the_mutable_handle_are_kept() {
    let mut ent = Entity::new(0);
    ent.add_component::<Health>();
    ent.get_component_mut::<Health>().unwrap().points = 5;
    assert_eq!(ent.get_component::<Health>().unwrap().points, 5);
    ent.get_component_mut::<Health>().unwrap().points += 1;
    assert_eq!(ent.get_component::<Health>().unwrap().points, 6);
    assert_eq!(ent.index(), 0);
}

#[test]
fn components_are_reached_through_the_pool() {
    let mut bucket = Bucket::new();
    bucket.create_entity().unwrap().add_component::<Health>().points = 1;
    bucket.create_entity().unwrap().add_component::<Health>().points = 2;
    assert_eq!(bucket.get_entity_by_id(0).unwrap().get_component::<Health>().unwrap().points, 1);
    assert_eq!(bucket.get_entity_by_id(1).unwrap().get_component::<Health>().unwrap().points, 2);
    bucket.get_entity_by_id(0).unwrap().get_component_mut::<Health>().unwrap().points = 10;
    assert_eq!(bucket.get_entity_by_id(0).unwrap().get_component::<Health>().unwrap().points, 10);
    assert_eq!(bucket.get_entity_by_id(1).unwrap().get_component::<Health>().unwrap().points, 2);
}

#[test]
fn same_type_is_told_from_another() {
    assert!(entity_pool::component::is_same_type::<Health, Health>());
    assert!(!entity_pool::component::is_same_type::<Health, TestComponent>());
    assert!(!entity_pool::component::is_same_type::<u32, i32>());
}
