use hivin_bot::scheduler::{complete_tick, run_scheduler_tick};
use hivin_bot::service::group;
use hivin_bot::service::msg::{self, MsgType};
use hivin_bot::service::polling_msg;

#[test]
fn tick_dispatches_exactly_the_due_entries() {
    let mut groups = group::new();
    let mut msgs = msg::new();
    let mut schedule = polling_msg::new();
    let g1 = groups.add_group("100", "one").unwrap();
    let g2 = groups.add_group("200", "two").unwrap();
    let m1 = msgs.add_msg(MsgType::Polling, "early", "a");
    let m2 = msgs.add_msg(MsgType::Polling, "late", "b");
    schedule.add_polling_msg(m1, g1, "07:00").unwrap();
    schedule.add_polling_msg(m2, g1, "19:30").unwrap();
    schedule.add_polling_msg(m1, g2, "07:00").unwrap();

    let due = schedule.get_polling_msgs_by_time(&msgs, &groups, "07:00");
    assert_eq!(due.len(), 2);
    assert!(due.iter().all(|d| d.send_time == "07:00" && d.msg_text == "early"));
    let external: Vec<&str> = due.iter().map(|d| d.group_id.as_str()).collect();
    assert_eq!(external, vec!["100", "200"]);

    assert!(schedule.get_polling_msgs_by_time(&msgs, &groups, "07:01").is_empty());
    assert_eq!(schedule.get_polling_msgs_by_time(&msgs, &groups, "19:30").len(), 1);
}

#[test]
fn one_failure_does_not_stop_the_tick() {
    let mut groups = group::new();
    let mut msgs = msg::new();
    let mut schedule = polling_msg::new();
    let gid = groups.add_group("100", "one").unwrap();
    let mid = msgs.add_msg(MsgType::Polling, "text", "title");
    schedule.add_polling_msg(mid, gid, "07:00").unwrap();
    schedule.add_polling_msg(mid, gid, "07:00").unwrap();
    schedule.add_polling_msg(mid, gid, "07:00").unwrap();

    let plan = schedule.get_polling_msgs_by_time(&msgs, &groups, "07:00");
    assert_eq!(plan.len(), 3);
    // simulate the middle send failing: the rest is still processed
    let report = complete_tick(&plan, &vec![true, false, true]);
    assert_eq!(report.delivered.len(), 2);
    assert_eq!(report.failed.len(), 1);
    assert_eq!(report.delivered[0].id, plan[0].id);
    assert_eq!(report.delivered[1].id, plan[2].id);
    assert_eq!(report.failed[0].id, plan[1].id);
}

#[test]
fn cascade_delete_clears_schedule() {
    let mut groups = group::new();
    let mut msgs = msg::new();
    let mut schedule = polling_msg::new();
    let g1 = groups.add_group("100", "one").unwrap();
    let g2 = groups.add_group("200", "two").unwrap();
    let mid = msgs.add_msg(MsgType::Polling, "text", "title");
    schedule.add_polling_msg(mid, g1, "07:00").unwrap();
    schedule.add_polling_msg(mid, g2, "08:00").unwrap();

    assert!(msgs.remove_msg(&mut schedule, mid));
    assert!(schedule.get_group_msgs(&msgs, &groups, g1).is_empty());
    assert!(schedule.get_group_msgs(&msgs, &groups, g2).is_empty());
}

#[test]
fn tick_clock_reading_is_well_formed() {
    let groups = group::new();
    let msgs = msg::new();
    let schedule = polling_msg::new();
    let (now, plan) = run_scheduler_tick(&schedule, &msgs, &groups);
    assert!(plan.is_empty());
    let bytes = now.as_bytes();
    assert_eq!(bytes.len(), 5);
    assert_eq!(bytes[2], b':');
    let hours = (bytes[0] - b'0') as u32 * 10 + (bytes[1] - b'0') as u32;
    let minutes = (bytes[3] - b'0') as u32 * 10 + (bytes[4] - b'0') as u32;
    assert!(bytes.iter().enumerate().all(|(i, b)| i == 2 || b.is_ascii_digit()));
    assert!(hours <= 23 && minutes <= 59);
}

#[test]
fn group_view_lists_entries_with_titles() {
    let mut groups = group::new();
    let mut msgs = msg::new();
    let mut schedule = polling_msg::new();
    let gid = groups.add_group("100", "one").unwrap();
    let mid = msgs.add_msg(MsgType::Polling, "body text", "the title");
    schedule.add_polling_msg(mid, gid, "09:15").unwrap();

    let listed = schedule.get_group_msgs(&msgs, &groups, gid);
    assert_eq!(listed.len(), 1);
    assert_eq!(listed[0].msg_title, "the title");
    assert_eq!(listed[0].send_time, "09:15");
    assert_eq!(listed[0].hv_msg_id, mid);
}
