use cb_planning::identity::{GestureID, Identity, MachineID, ProjectID};
use cb_planning::table::IdMap;

#[test]
fn identities_stand_for_their_numbers() {
    assert_eq!(GestureID(7).to_number(), 7);
    assert_eq!(ProjectID(u128::MAX).to_number(), u128::MAX);
    assert_eq!(MachineID(255).to_number(), 255);
}

#[test]
fn new_table_is_empty() {
    let table: IdMap<MachineID, u32> = IdMap::new();
    assert_eq!(table.len(), 0);
    assert!(table.get(MachineID(0)).is_none());
    assert!(!table.contains_key(MachineID(0)));
    assert_eq!(table.position(MachineID(0)), None);
}

#[test]
fn insert_keeps_the_place_of_an_entry_that_is_there() {
    let mut table: IdMap<ProjectID, &str> = IdMap::new();
    table.insert(ProjectID(3), "three");
    table.insert(ProjectID(1), "one");
    table.insert(ProjectID(2), "two");
    table.insert(ProjectID(1), "uno");
    assert_eq!(table.len(), 3);
    assert_eq!(table.key_at(0), ProjectID(3));
    assert_eq!(table.key_at(1), ProjectID(1));
    assert_eq!(table.key_at(2), ProjectID(2));
    assert_eq!(*table.value_at(1), "uno");
    assert_eq!(table.get(ProjectID(1)), Some(&"uno"));
    assert_eq!(table.get(ProjectID(2)), Some(&"two"));
    assert_eq!(table.get(ProjectID(4)), None);
    assert_eq!(table.position(ProjectID(2)), Some(2));
    assert!(table.contains_key(ProjectID(3)));
}

#[test]
fn remove_moves_the_entries_behind_up() {
    let mut table: IdMap<ProjectID, u8> = IdMap::new();
    for n in 0..5u8 {
        table.insert(ProjectID(n as u128), n);
    }
    assert_eq!(table.remove(ProjectID(1)), Some(1));
    assert_eq!(table.remove(ProjectID(1)), None);
    assert_eq!(table.remove(ProjectID(9)), None);
    assert_eq!(table.len(), 4);
    let keys: Vec<u128> = (0..table.len()).map(|i| table.key_at(i).0).collect();
    assert_eq!(keys, vec![0, 2, 3, 4]);
    assert_eq!(*table.value_at(1), 2);
    assert_eq!(table.remove(ProjectID(4)), Some(4));
    assert_eq!(table.remove(ProjectID(0)), Some(0));
    let keys: Vec<u128> = (0..table.len()).map(|i| table.key_at(i).0).collect();
    assert_eq!(keys, vec![2, 3]);
}

#[test]
fn set_value_at_keeps_key_and_place() {
    let mut table: IdMap<GestureID, u8> = IdMap::new();
    table.insert(GestureID(10), 1);
    table.insert(GestureID(20), 2);
    table.set_value_at(0, 9);
    assert_eq!(table.key_at(0), GestureID(10));
    assert_eq!(table.get(GestureID(10)), Some(&9));
    assert_eq!(table.get(GestureID(20)), Some(&2));
    assert_eq!(table.len(), 2);
}
