use chatbot_lib::channel_state::{ChannelCache, ChannelContainer, ChannelStateError, StateError};
use chatbot_lib::request::{channel_state, state, RequestContext};
use chatbot_lib::chatters::{ChannelChatters, ClearChatAction, MessageId};
use chatbot_lib::identity::IdentityIndex;
use chatbot_lib::persisted::{report_write, temp_path, value_path, LoadOutcome, Persisted, PersistedType};
use chatbot_lib::response::{IntoResponse, Response};
use chatbot_lib::user::{Channel, OwnedUser, Sender, User, UserArgument};

fn chan(id: &str) -> Channel<'static> {
    Channel::from_user(User::new("chan", None, Some(id.to_string())))
}

fn sender<'a>(login: &'a str, display: &'a str, id: &str) -> Sender<'a> {
    Sender::from_user(User::new(login, Some(display), Some(id.to_string())))
}

#[test]
fn display_name_rename_moves_the_lookup() {
    let mut index = IdentityIndex::new();
    let first = index.update_or_insert(&User::new("furret", Some("Furret"), Some("7".to_string())));
    let again = index.update_or_insert(&User::new("furret", Some("FurretWalk"), Some("7".to_string())));
    assert_eq!(first, again);
    assert_eq!(index.index_from_userargument(&UserArgument::from_display_name("Furret")), None);
    assert_eq!(
        index.index_from_userargument(&UserArgument::from_display_name("FurretWalk")),
        Some(first)
    );
    let other = index.update_or_insert(&User::new("walker", None, Some("8".to_string())));
    assert_ne!(other, first);
    let found = index.get(&UserArgument::new("@FurretWalk")).unwrap();
    assert_eq!(found.username(), "furret");
    assert_eq!(found.user_id(), Some("7".to_string()));
}

#[test]
fn username_change_rekeys_login_lookup() {
    let mut index = IdentityIndex::new();
    let i = index.update_or_insert(&User::new("old_name", None, Some("1".to_string())));
    assert_eq!(index.needs_update_or_insert(&User::new("old_name", None, Some("1".to_string()))), Some(i));
    assert_eq!(index.needs_update_or_insert(&User::new("new_name", None, Some("1".to_string()))), None);
    index.update_or_insert(&User::new("new_name", None, Some("1".to_string())));
    assert_eq!(index.index_from_userargument(&UserArgument::from_username("old_name")), None);
    assert_eq!(index.index_from_userargument(&UserArgument::from_username("new_name")), Some(i));
}

#[test]
fn user_without_id_gets_one_later() {
    let mut index = IdentityIndex::new();
    let i = index.update_or_insert(&User::from_username("anon"));
    let j = index.update_or_insert(&User::new("anon", None, Some("5".to_string())));
    assert_eq!(index.index(&User::new("anon", None, Some("5".to_string()))), Some(j));
    assert_ne!(i, j);
}

#[test]
fn presence_lists_recent_chatters() {
    let mut c = ChannelChatters::new();
    c.notice_chatter(&chan("100"), &sender("furret", "Furret", "7"), "hi", "m1", 1_000);
    c.notice_chatter(&chan("100"), &sender("walker", "Walker", "8"), "yo", "m2", 5_000);
    assert_eq!(c.get_list("100", 10_000, false, 6_000), vec!["furret", "walker"]);
    assert_eq!(c.get_list("100", 2_000, true, 6_000), vec!["Walker"]);
    assert_eq!(c.get_list("999", 2_000, true, 6_000), Vec::<String>::new());
    assert_eq!(c.recent_messages("100", 10_000, 6_000), vec!["hi", "yo"]);
    c.notice_chatter(&chan("100"), &sender("furret", "Furret", "7"), "again", "m3", 7_000);
    assert_eq!(c.recent_messages("100", 10_000, 7_500), vec!["again", "yo"]);
    let pick = c.get_random_message("100", 10_000, 7_500).unwrap();
    assert!(pick == "again" || pick == "yo");
    assert_eq!(c.get_random_message("100", 1, 100_000), None);
    assert_eq!(c.get(&UserArgument::new("@Walker")).unwrap().username(), "walker");
}

#[test]
fn clears_follow_moderation() {
    let mut c = ChannelChatters::new();
    c.notice_chatter(&chan("100"), &sender("furret", "Furret", "7"), "hi", "m1", 1_000);
    c.notice_chatter(&chan("100"), &sender("walker", "Walker", "8"), "yo", "m2", 1_000);
    c.clear_chat(&chan("100"), Some("7".to_string()), Some("furret"));
    assert_eq!(c.get_list("100", 10_000, false, 1_000), vec!["walker"]);
    c.notice_chatter(&chan("100"), &sender("furret", "Furret", "7"), "hi", "m3", 1_000);
    c.clear_message(&chan("100"), Some("m3"), None);
    assert_eq!(c.get_list("100", 10_000, false, 1_000), vec!["walker"]);
    c.clear_chat(&Channel::from_user(User::from_username("chan")), None, Some("walker"));
    assert_eq!(c.get_list("100", 10_000, false, 1_000), Vec::<String>::new());
    c.notice_chatter(&chan("100"), &sender("walker", "Walker", "8"), "yo", "m2", 1_000);
    c.clear_chat(&Channel::from_user(User::from_username("unknown")), None, None);
    assert_eq!(c.get_list("100", 10_000, false, 1_000), Vec::<String>::new());
}

#[test]
fn message_ids_read_uuids() {
    let a = MessageId::from_text("885196de-cb67-427a-baa8-82f9b0fcd05f");
    let b = MessageId::from_text("885196DE-CB67-427A-BAA8-82F9B0FCD05F");
    assert!(a.same_as(&b));
    assert_eq!(a, MessageId::Uuid(0x885196de_cb67_427a_baa8_82f9b0fcd05f));
    let t = MessageId::from_text("m1");
    assert_eq!(t, MessageId::Text("m1".to_string()));
    assert!(!t.same_as(&a));
}

struct Counter(u32);

impl PersistedType for Counter {
    fn filename() -> &'static str {
        "counter"
    }
    fn init(_channel: &str) -> Self {
        Counter(1)
    }
    fn handle_read_error(_channel: &str, _error: &str) -> Self {
        Counter(99)
    }
    fn handle_write_error(_channel: &str, _error: &str) {}
}

#[test]
fn persisted_value_loads_once_and_publishes() {
    let mut p: Persisted<Counter> = Persisted::new();
    assert!(p.loaded().is_none());
    let v = p.complete_load("chan", LoadOutcome::Missing);
    assert_eq!(v.0, 1);
    let again = p.complete_load("chan", LoadOutcome::Found(Counter(5)));
    assert_eq!(again.0, 1);
    let (old, new) = p.publish(Some(Counter(2)));
    assert_eq!(old.0, 1);
    assert_eq!(new.unwrap().0, 2);
    let (cur, none) = p.publish(None);
    assert_eq!(cur.0, 2);
    assert!(none.is_none());
    let mut q: Persisted<Counter> = Persisted::new();
    assert_eq!(q.complete_load("chan", LoadOutcome::Failed("bad".to_string())).0, 99);
    assert_eq!(Persisted::<Counter>::from_value(Counter(4)).loaded().unwrap().0, 4);
    report_write::<Counter>("chan", Err("disk full".to_string()));
}

#[test]
fn persisted_paths() {
    assert_eq!(value_path("liquidblock", "songs"), "data/liquidblock/songs.ron");
    assert_eq!(temp_path("liquidblock", "songs"), "data/liquidblock/songs.ron.temp");
}

#[test]
fn channel_state_initializes_once() {
    let mut container: ChannelContainer<String> = ChannelContainer::new();
    let (a, ran) = container.get_or_init("chan", |c: &str| format!("state of {}", c));
    assert!(ran);
    assert_eq!(a.as_str(), "state of chan");
    let (b, ran_again) = container.get_or_init("chan", |_c: &str| "other".to_string());
    assert!(!ran_again);
    assert_eq!(b.as_str(), "state of chan");
    assert!(container.lookup("nope").is_none());
    let mut cache: ChannelCache<String> = ChannelCache::new();
    assert!(cache.lookup("chan").is_none());
    let c = cache.get(&mut container, "chan", |_c: &str| "never".to_string());
    assert_eq!(cache.lookup("chan").unwrap().as_str(), "state of chan");
    assert_eq!(c.as_str(), "state of chan");
    let d = cache.get(&mut container, "second", |c: &str| c.to_uppercase());
    assert_eq!(d.as_str(), "SECOND");
    assert_eq!(container.lookup("second").unwrap().as_str(), "SECOND");
}

#[test]
fn state_error_order() {
    let chatters = ChannelChatters::new();
    let global = 5u32;
    let per_channel = "chan state".to_string();
    let none: Option<&RequestContext<u32, String>> = None;
    assert_eq!(state(none).err(), Some(StateError::NoContext));
    assert_eq!(channel_state(none).err(), Some(ChannelStateError::NoContext));
    let bare: RequestContext<u32, String> = RequestContext::new(&global, None, &chatters);
    assert_eq!(*state(Some(&bare)).ok().unwrap().get(), 5);
    assert_eq!(channel_state(Some(&bare)).err(), Some(ChannelStateError::NoChannelContainer));
    let full = RequestContext::new(&global, Some(&per_channel), &chatters);
    assert_eq!(channel_state(Some(&full)).ok().unwrap().get(), "chan state");
    assert_eq!(StateError::NoValue("u8".to_string()).message(), "No value set for type u8");
}

#[test]
fn outgoing_filter() {
    assert_eq!(Response::new("hello".to_string()).outgoing_text(), Some("hello"));
    assert_eq!(Response::new("  /ban x".to_string()).outgoing_text(), None);
    assert_eq!(Response::new(".delete 1".to_string()).as_command().outgoing_text(), Some(".delete 1"));
    assert_eq!(Response::new("   ".to_string()).as_command().outgoing_text(), None);
    assert_eq!(Response::none().outgoing_text(), None);
    let r = Response::new("x".to_string()).as_reply();
    assert!(r.reply());
    assert!(!r.command());
    assert_eq!(r.response(), Some("x"));
}

#[test]
fn user_arguments() {
    assert_eq!(UserArgument::new("@furret").as_argument(), "furret");
    assert_eq!(UserArgument::new("furret").as_argument(), "furret");
    assert_eq!(UserArgument::new("@furret").to_text(false), "@furret");
    assert_eq!(UserArgument::new("@furret").to_text(true), "furret");
    let u = User::new("furret", Some("Furret"), None);
    assert!(UserArgument::new("Furret").matches_user(&u));
    assert!(!UserArgument::new("walker").matches_user(&u));
    assert_eq!(UserArgument::from_user(&u).as_argument(), "Furret");
    let mut owned = OwnedUser::from_user(&u);
    assert_eq!(owned.update_username("furret"), None);
    assert_eq!(owned.update_username("furret2"), Some("furret".to_string()));
    assert_eq!(owned.update_display_name(None), Some(Some("Furret".to_string())));
    assert_eq!(owned.set_user_id(Some("3".to_string())), Some("3".to_string()));
    assert_eq!(owned.set_user_id(Some("4".to_string())), None);
    assert!(User::new("a", None, Some("1".to_string())).is_same_user(&User::new("b", None, Some("1".to_string()))));
    assert!(!User::new("a", None, Some("1".to_string())).is_same_user(&User::new("a", None, Some("2".to_string()))));
}

#[test]
fn ban_and_timeout_clear_one_user() {
    let mut c = ChannelChatters::new();
    c.notice_chatter(&chan("100"), &sender("furret", "Furret", "7"), "hi", "m1", 1_000);
    c.notice_chatter(&chan("100"), &sender("walker", "Walker", "8"), "yo", "m2", 1_000);
    c.apply_clear_chat(
        &chan("100"),
        ClearChatAction::UserTimedOut { user_login: "walker".to_string(), user_id: "8".to_string() },
    );
    assert_eq!(c.get_list("100", 10_000, false, 1_000), vec!["furret"]);
    c.apply_clear_chat(&chan("100"), ClearChatAction::ChatCleared);
    assert_eq!(c.get_list("100", 10_000, false, 1_000), Vec::<String>::new());
}

#[test]
fn handler_values_become_responses() {
    assert_eq!(().into_response().response(), None);
    assert_eq!("hi".into_response().response(), Some("hi"));
    assert_eq!(Some("x".to_string()).into_response().response(), Some("x"));
    assert_eq!(None::<String>.into_response().response(), None);
    assert!(Response::new("r".to_string()).as_reply().into_response().reply());
}
