use hivin_bot::service::group;
use hivin_bot::service::msg::{self, MsgType};
use hivin_bot::service::polling_msg::{self, ScheduleError};

const GROUP_ID: i64 = 22346;

#[test]
fn add_group_msg_test() {
    let mut sev = polling_msg::new();
    let id = sev.add_polling_msg(3, GROUP_ID, "08:30").unwrap();
    assert!(id > 0);
    println!("group id is {}", id);
}

#[test]
fn get_group_msg_test() {
    let mut groups = group::new();
    let mut msgs = msg::new();
    let mut sev = polling_msg::new();
    let gid = groups.add_group("22346", "group name").unwrap();
    let mid = msgs.add_msg(MsgType::Polling, "morning news", "news");
    sev.add_polling_msg(mid, gid, "08:30").unwrap();
    let data = sev.get_polling_msg(&msgs, &groups, gid, "08:30");
    assert!(data.is_some());
    println!("group id is {:?}", data.unwrap());
}

#[test]
fn add_rejects_malformed_times() {
    let mut sev = polling_msg::new();
    for bad in ["8:30", "24:00", "12:60", "ab:cd", "12-30", "", "12:3", "112:30", " 08:30"] {
        let r = sev.add_polling_msg(1, 1, bad);
        assert!(matches!(r, Err(ScheduleError::InvalidTimeFormat)), "accepted {:?}", bad);
    }
    // nothing was stored
    let groups = group::new();
    let msgs = msg::new();
    assert!(sev.get_polling_msgs_by_time(&msgs, &groups, "08:30").is_empty());
}

#[test]
fn duplicate_triples_fire_independently() {
    let mut groups = group::new();
    let mut msgs = msg::new();
    let mut sev = polling_msg::new();
    let gid = groups.add_group("1", "g").unwrap();
    let mid = msgs.add_msg(MsgType::Polling, "text", "title");
    sev.add_polling_msg(mid, gid, "10:00").unwrap();
    sev.add_polling_msg(mid, gid, "10:00").unwrap();
    let due = sev.get_polling_msgs_by_time(&msgs, &groups, "10:00");
    assert_eq!(due.len(), 2);
}

#[test]
fn delete_all_entries_of_a_group() {
    let mut groups = group::new();
    let mut msgs = msg::new();
    let mut sev = polling_msg::new();
    let g1 = groups.add_group("1", "one").unwrap();
    let g2 = groups.add_group("2", "two").unwrap();
    let mid = msgs.add_msg(MsgType::Polling, "text", "title");
    sev.add_polling_msg(mid, g1, "10:00").unwrap();
    sev.add_polling_msg(mid, g1, "11:00").unwrap();
    sev.add_polling_msg(mid, g2, "10:00").unwrap();
    assert!(sev.delete_group_msgs(g1));
    assert!(sev.get_group_msgs(&msgs, &groups, g1).is_empty());
    assert_eq!(sev.get_group_msgs(&msgs, &groups, g2).len(), 1);
    assert!(!sev.delete_group_msgs(g1));
}

#[test]
fn delete_entry_by_id() {
    let mut groups = group::new();
    let mut msgs = msg::new();
    let mut sev = polling_msg::new();
    let gid = groups.add_group("1", "g").unwrap();
    let mid = msgs.add_msg(MsgType::Polling, "text", "title");
    let eid = sev.add_polling_msg(mid, gid, "10:00").unwrap();
    assert!(sev.delete_polling_msg_by_id(eid));
    assert!(!sev.delete_polling_msg_by_id(eid));
    assert!(sev.get_polling_msgs_by_time(&msgs, &groups, "10:00").is_empty());
}
