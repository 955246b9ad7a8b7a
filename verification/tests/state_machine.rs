use hivin_bot::my_handler::{handle_event, Caller, Effect, Event, Transition};
use hivin_bot::service::{group, msg, polling_msg, user};
use hivin_bot::State;

struct World {
    users: user::User,
    msgs: msg::Msg,
    groups: group::Group,
    schedule: polling_msg::PollingMsgDb,
}

fn world() -> World {
    World {
        users: user::new(),
        msgs: msg::new(),
        groups: group::new(),
        schedule: polling_msg::new(),
    }
}

fn caller(id: &str) -> Caller {
    Caller { user_id: id.to_string(), user_name: format!("user {}", id) }
}

fn text(w: &mut World, state: &State, who: &Caller, s: &str) -> Transition {
    handle_event(
        state,
        who,
        Event::Text(s.to_string()),
        &mut w.users,
        &mut w.msgs,
        &mut w.groups,
        &mut w.schedule,
    )
}

fn callback(w: &mut World, state: &State, who: &Caller, s: &str) -> Transition {
    handle_event(
        state,
        who,
        Event::Callback(s.to_string()),
        &mut w.users,
        &mut w.msgs,
        &mut w.groups,
        &mut w.schedule,
    )
}

#[test]
fn first_start_becomes_admin() {
    let mut w = world();
    let alice = caller("1001");
    let t = text(&mut w, &State::Menu, &alice, "/start");
    assert_eq!(t.next, State::Menu);
    assert!(matches!(t.effect, Effect::AdminGranted));
    assert!(w.users.is_admin("1001"));
}

#[test]
fn second_start_does_not_grant() {
    let mut w = world();
    let alice = caller("1001");
    let bob = caller("1002");
    text(&mut w, &State::Menu, &alice, "/start");
    let t = text(&mut w, &State::Menu, &bob, "/start");
    assert_eq!(t.next, State::Menu);
    assert!(matches!(t.effect, Effect::AccessRestricted));
    assert!(!w.users.is_admin("1002"));
    // the admin is simply welcomed back, idempotently
    let t = text(&mut w, &State::Menu, &alice, "/start");
    assert!(matches!(t.effect, Effect::AdminCommandMenu));
    assert_eq!(w.users.all_admins().len(), 1);
}

#[test]
fn admin_reply_token_counts() {
    // zero, one, two and three whitespace-separated tokens
    let cases = ["", "only", "2002 bob", "2002 bob extra"];
    for (i, reply) in cases.iter().enumerate() {
        let mut w = world();
        let admin = caller("1001");
        text(&mut w, &State::Menu, &admin, "/start");
        let t = text(&mut w, &State::AdminAdd, &admin, reply);
        if i == 2 {
            assert!(matches!(t.effect, Effect::AdminAdded), "reply {:?}", reply);
            assert_eq!(t.next, State::Menu);
            assert!(w.users.is_admin("2002"));
        } else {
            assert!(matches!(t.effect, Effect::AdminAddInvalidFormat), "reply {:?}", reply);
            assert_eq!(t.next, State::AdminAdd);
            assert_eq!(w.users.all_admins().len(), 1);
        }
    }
}

#[test]
fn non_admin_is_denied_admin_actions() {
    let mut w = world();
    let alice = caller("1001");
    let mallory = caller("6666");
    text(&mut w, &State::Menu, &alice, "/start");
    let before = w.users.all_admins().len();
    let t = text(&mut w, &State::Menu, &mallory, "/admins");
    assert!(matches!(t.effect, Effect::AccessDenied));
    assert_eq!(t.next, State::Menu);
    assert_eq!(w.users.all_admins().len(), before);
}

#[test]
fn whitespace_polling_body_is_refused() {
    let mut w = world();
    let admin = caller("1001");
    let t = text(&mut w, &State::AddPollingMsg, &admin, "  \t ");
    assert_eq!(t.next, State::AddPollingMsg);
    assert!(matches!(t.effect, Effect::EmptyInput));
    assert_eq!(w.msgs.all().len(), 0);
}

#[test]
fn full_push_scenario() {
    let mut w = world();
    let admin = caller("1001");
    text(&mut w, &State::Menu, &admin, "/start");
    w.groups.add_group("777", "Team A").unwrap();

    // add the polling message: body, then title
    let t = text(&mut w, &State::AddPollingMsg, &admin, "Good morning!");
    assert!(matches!(t.effect, Effect::PromptPollingTitle));
    let t = text(&mut w, &t.next, &admin, "Morning Greeting");
    assert!(matches!(t.effect, Effect::PollingAdded));
    assert_eq!(t.next, State::Menu);
    let catalog = w.msgs.all();
    assert_eq!(catalog.len(), 1);
    assert_eq!(catalog[0].msg_text, "Good morning!");
    assert_eq!(catalog[0].msg_title, "Morning Greeting");

    // choose the group, choose the message, enter the time
    let t = callback(&mut w, &State::Group, &admin, "group_1_Team A");
    assert!(matches!(t.effect, Effect::GroupMenu));
    let group_menu_state = t.next;
    let t = callback(&mut w, &group_menu_state, &admin, &format!("group_msg_{}", catalog[0].id));
    assert!(matches!(t.effect, Effect::PromptTime));
    let t = text(&mut w, &t.next, &admin, "08:30");
    assert!(matches!(t.effect, Effect::PushSaved));
    assert_eq!(t.next, group_menu_state);

    // the tick's query dispatches it exactly at 08:30, and not at 08:31
    let due = w.schedule.get_polling_msgs_by_time(&w.msgs, &w.groups, "08:30");
    assert_eq!(due.len(), 1);
    assert_eq!(due[0].msg_text, "Good morning!");
    assert_eq!(due[0].group_id, "777");
    let later = w.schedule.get_polling_msgs_by_time(&w.msgs, &w.groups, "08:31");
    assert!(later.is_empty());
}

#[test]
fn bad_time_is_retryable() {
    let mut w = world();
    let admin = caller("1001");
    let st = State::GroupPushMsg {
        group_db_id: 1,
        group_name: "Team A".to_string(),
        msg_db_id: 1,
    };
    let t = text(&mut w, &st, &admin, "8 o'clock");
    assert!(matches!(t.effect, Effect::BadTimeFormat));
    assert_eq!(t.next, st);
}

#[test]
fn cancel_resets_to_menu() {
    let mut w = world();
    let admin = caller("1001");
    let st = State::AddPollingTitle("pending body".to_string());
    let t = callback(&mut w, &st, &admin, "cancel");
    assert_eq!(t.next, State::Menu);
    assert!(matches!(t.effect, Effect::Cancelled));
}

#[test]
fn unroutable_callback_changes_nothing() {
    let mut w = world();
    let admin = caller("1001");
    let st = State::AddPollingMsg;
    let t = callback(&mut w, &st, &admin, "no_such_actuator");
    assert_eq!(t.next, st);
    assert!(matches!(t.effect, Effect::UnroutableCallback));
}

#[test]
fn callback_in_wrong_state_recovers() {
    let mut w = world();
    let admin = caller("1001");
    // choosing a message without a chosen group resets the dialogue
    let t = callback(&mut w, &State::Menu, &admin, "group_msg_4");
    assert_eq!(t.next, State::Menu);
    assert!(matches!(t.effect, Effect::StateReset));
}

#[test]
fn set_welcome_round_trip() {
    let mut w = world();
    let admin = caller("1001");
    let t = callback(&mut w, &State::Menu, &admin, "setting_welcome_message");
    assert_eq!(t.next, State::SetWelcomeMsg);
    let t = text(&mut w, &t.next, &admin, "  Hello newcomers!  ");
    assert!(matches!(t.effect, Effect::WelcomeSaved));
    assert_eq!(t.next, State::Menu);
    let t = callback(&mut w, &State::Menu, &admin, "current_welcome_message");
    match t.effect {
        Effect::CurrentWelcome(text) => assert_eq!(text, "Hello newcomers!"),
        other => panic!("expected the welcome text, got {:?}", other),
    }
}

#[test]
fn revoke_admin_via_callback() {
    let mut w = world();
    let alice = caller("1001");
    text(&mut w, &State::Menu, &alice, "/start");
    let t = text(&mut w, &State::AdminAdd, &alice, "2002 bob");
    assert!(matches!(t.effect, Effect::AdminAdded));
    let t = callback(&mut w, &State::Menu, &alice, "chosen_admin_2002");
    assert_eq!(t.next, State::AdminChoose("2002".to_string()));
    let t = callback(&mut w, &t.next, &alice, "admin_delete");
    assert!(matches!(t.effect, Effect::AdminDeleted));
    assert_eq!(t.next, State::Admin);
    assert!(!w.users.is_admin("2002"));
    // soft revocation: the row is kept, only the flag is cleared
    assert_eq!(w.users.all_admins().len(), 2);
}

#[test]
fn plain_text_in_menu_is_ignored() {
    let mut w = world();
    let someone = caller("1");
    let t = text(&mut w, &State::Menu, &someone, "hello there");
    assert_eq!(t.next, State::Menu);
    assert!(matches!(t.effect, Effect::Silent));
    let t = text(&mut w, &State::Menu, &someone, "/frobnicate");
    assert!(matches!(t.effect, Effect::InvalidCommand));
}
