use hivin_bot::my_handler::group_event::{handle_my_chat_member, handle_new_members, MemberStatus, NewMember};
use hivin_bot::my_handler::Effect;
use hivin_bot::service::{group, msg};
use hivin_bot::text::{tokenize, trim_str};
use hivin_bot::timefmt::check_time;

#[test]
fn time_format_boundaries() {
    for good in ["00:00", "23:59", "08:20", "19:05"] {
        assert!(check_time(good), "rejected {:?}", good);
    }
    for bad in ["24:00", "23:60", "0:00", "000:0", "ab:cd", "08-20", "08:20 ", ""] {
        assert!(!check_time(bad), "accepted {:?}", bad);
    }
}

#[test]
fn tokenizer_splits_on_whitespace() {
    assert_eq!(tokenize(""), Vec::<String>::new());
    assert_eq!(tokenize("   "), Vec::<String>::new());
    assert_eq!(tokenize("one"), vec!["one"]);
    assert_eq!(tokenize("  a\t b  c "), vec!["a", "b", "c"]);
    assert_eq!(tokenize("123 name"), vec!["123", "name"]);
}

#[test]
fn trim_matches_expectations() {
    assert_eq!(trim_str("  hi there \t"), "hi there");
    assert_eq!(trim_str("plain"), "plain");
    assert_eq!(trim_str(" \n "), "");
    assert_eq!(trim_str(""), "");
}

#[test]
fn new_members_are_greeted_with_welcome_text() {
    let mut catalog = msg::new();
    catalog.add_welcome_msg("Welcome aboard!");
    let members = vec![
        NewMember { is_bot: false, first_name: "Ann".to_string() },
        NewMember { is_bot: true, first_name: "robot".to_string() },
        NewMember { is_bot: false, first_name: "Ben".to_string() },
    ];
    let greetings = handle_new_members(&catalog, &members);
    assert_eq!(greetings.len(), 2);
    match &greetings[0] {
        Effect::GreetMember { first_name, welcome_text } => {
            assert_eq!(first_name.as_str(), "Ann");
            assert_eq!(welcome_text.as_str(), "Welcome aboard!");
        },
        other => panic!("expected a greeting, got {:?}", other),
    }
    match &greetings[1] {
        Effect::GreetMember { first_name, .. } => assert_eq!(first_name.as_str(), "Ben"),
        other => panic!("expected a greeting, got {:?}", other),
    }
}

#[test]
fn bot_membership_updates_registry() {
    let mut registry = group::new();
    registry.add_group("555", "to be left").unwrap();

    // being added asks for a greeting; the host registers on delivery
    let t = handle_my_chat_member(&mut registry, true, MemberStatus::Member, "556");
    assert!(matches!(t.effect, Effect::GroupJoinGreeting));
    assert_eq!(registry.all().len(), 1);

    // leaving really deletes the row
    let t = handle_my_chat_member(&mut registry, true, MemberStatus::Left, "555");
    assert!(matches!(t.effect, Effect::Silent));
    assert_eq!(registry.all().len(), 0);

    // updates about other users are ignored
    registry.add_group("557", "stays").unwrap();
    handle_my_chat_member(&mut registry, false, MemberStatus::Banned, "557");
    assert_eq!(registry.all().len(), 1);
}
