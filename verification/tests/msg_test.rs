use hivin_bot::service::msg::{self, MsgType};
use hivin_bot::service::polling_msg;

#[test]
fn all_msg() {
    let mut ser = msg::new();
    ser.add_msg(MsgType::Polling, "daily update", "news");
    let msgs = ser.all();
    assert!(msgs.len() > 0, "no found msg data.");
    for msg in msgs {
        println!("{:?}", msg);
    }
}

#[test]
fn add_msg() {
    let mut ser = msg::new();
    let msg_type = MsgType::Welcome;
    let msg_text = "Hello, world!";

    let id = ser.add_msg(msg_type, msg_text, "welcome");
    assert!(id > 0, "添加消息成功");
    println!("Add new msg success, The id: {}", id);
}

#[test]
fn remove_msg() {
    let mut ser = msg::new();
    let mut schedule = polling_msg::new();
    ser.add_msg(MsgType::Welcome, "hello", "welcome");
    ser.add_msg(MsgType::Polling, "news", "daily");
    let _ = ser.remove_msg(&mut schedule, 2);
    let is_ok = ser.all().len() == 0;
    assert!(is_ok, "Remove message success");
}

#[test]
fn msg_welcome() {
    let ser = msg::new();
    let welcome = ser.welcome_msg();
    println!("{:?}", welcome);
}

#[test]
fn welcome_is_a_singleton() {
    let mut ser = msg::new();
    assert!(ser.add_welcome_msg("first text"));
    assert!(ser.add_welcome_msg("second text"));
    // overwritten in place, not duplicated: the polling list stays empty
    assert_eq!(ser.all().len(), 0);
    assert_eq!(ser.welcome_msg(), "second text");
}

#[test]
fn welcome_fallback_when_unset() {
    let ser = msg::new();
    assert_eq!(ser.welcome_msg(), "Hi! Nice to meet you");
}

#[test]
fn edit_msg_text() {
    let mut ser = msg::new();
    let id = ser.add_msg(MsgType::Polling, "old body", "title");
    assert!(ser.edit_msg(id, "new body"));
    let all = ser.all();
    assert_eq!(all.len(), 1);
    assert_eq!(all[0].msg_text, "new body");
    assert_eq!(all[0].msg_title, "title");
    assert!(!ser.edit_msg(id + 1, "nothing"));
}
