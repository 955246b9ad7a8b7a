use hivin_bot::service::group;

const GROUP_ID: &str = "22346";
const GROUP_NAME: &str = "李四";

#[test]
fn add_test() {
    let mut sev = group::new();
    let id = sev.add_group(GROUP_ID, GROUP_NAME).unwrap();
    assert!(id > 0, "add_group return id should not be 0");
    println!("add_group return {:?}", id);
}

#[test]
fn all_test() {
    let mut sev = group::new();
    sev.add_group(GROUP_ID, GROUP_NAME).unwrap();
    let list = sev.all();
    assert!(list.len() > 0, "list should is empty");
    for item in list {
        println!("item {:?}", item);
    }
}

#[test]
fn set_mute_test() {
    let mut sev = group::new();
    sev.add_group(GROUP_ID, GROUP_NAME).unwrap();
    let _ = sev.set_mute_polling(GROUP_ID, false).unwrap();
    let _ = sev.set_mute_welcome(GROUP_ID, false).unwrap();

    let is_mute_polling = sev.should_do_polling(GROUP_ID).unwrap();
    let is_mute_welcome = sev.should_do_welcome(GROUP_ID).unwrap();
    assert_eq!(is_mute_polling, false, "set_mute_polling should not be false, got {:?}", is_mute_polling);
    assert_eq!(is_mute_welcome, false, "set_mute_welcome should not be false, got {:?}", is_mute_welcome);
}

#[test]
fn add_group_is_idempotent() {
    let mut sev = group::new();
    let first = sev.add_group(GROUP_ID, GROUP_NAME).unwrap();
    let second = sev.add_group(GROUP_ID, "renamed").unwrap();
    assert_eq!(first, second);
    let list = sev.all();
    assert_eq!(list.len(), 1);
    // no name update on rejoin
    assert_eq!(list[0].group_name, GROUP_NAME);
}

#[test]
fn delete_group_removes_row() {
    let mut sev = group::new();
    sev.add_group(GROUP_ID, GROUP_NAME).unwrap();
    assert!(sev.delete_group(GROUP_ID).unwrap());
    assert_eq!(sev.all().len(), 0);
    assert!(!sev.delete_group(GROUP_ID).unwrap());
}
