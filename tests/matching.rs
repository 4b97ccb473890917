use chatbot_lib::argument::{
    ArgumentKind, next_argument, next_argument_unit, next_optional_argument_unit, CalendarDate, CalendarDateTime,
    ClockTime, HumanDuration,
};
use chatbot_lib::dispatch::{dispatch, Dispatch, Handler};
use chatbot_lib::error::CommandError;
use chatbot_lib::matcher::match_tokens;
use chatbot_lib::pattern::{compile, CommandPattern, PatternError};
use chatbot_lib::request::{
    from_command_request_err, from_command_request_option, should_dispatch, Command,
    CommandRequest, PrivmsgCommandError,
};
use chatbot_lib::shared_syntax::FindSharedSyntax;
use chatbot_lib::user::{Bot, Channel, Sender, User, UserArgument};

#[test]
fn test_find_prefix_index() {
    let mut find = FindSharedSyntax::new("!song add <command> <url> <cooldown..>");
    find.append("!song rm <command>");
    println!("{}", find.to_string());
}

#[test]
fn call_song_add() {
    let bot = Bot::from_login("helperblock");
    let request = CommandRequest::from_parts(
        Command::new("!song add !furretwalk https://example.com/ 20m"),
        Sender::from_user(User::from_username("liquidblock")),
        Channel::from_user(User::from_username("liquidblock")),
        &bot,
    );
    let handler = Handler::new("!song add <command> <url> <cooldown>", false).unwrap();
    let words = handler.matches(request.command().as_str());
    let result = words.map(|words| {
        let command: String = next_argument_unit(words[2], "channel").unwrap();
        let url: String = next_argument_unit(words[3], "url").unwrap();
        let cooldown: String = next_argument_unit(words[4], "cooldown").unwrap();
        let _ = (command, url, cooldown, request.channel());
    });
    let result = result.map_err(|err| format!("{:?}", err));
    assert_eq!(result, Ok(()));
}

#[test]
fn works() {
    let handler = Handler::new("!song add <command> <url> <cooldown>", false);
    assert!(handler.is_ok());
}

#[test]
fn song_add_end_to_end() {
    let tokens = compile("!song add <command> <url> <cooldown..>").unwrap();
    let words = match_tokens(&tokens, "!song add !walk https://example.com/ 20m").unwrap();
    assert_eq!(
        words,
        vec![
            Some("!song"),
            Some("add"),
            Some("!walk"),
            Some("https://example.com/"),
            Some("20m")
        ]
    );
    let rm = compile("!song rm <command>").unwrap();
    assert_eq!(
        match_tokens(&rm, "!song rm !walk extra"),
        Err(CommandError::ArgumentsLeftOver)
    );
}

#[test]
fn take_all_absorbs_the_middle() {
    let tokens = compile("!say <text..>").unwrap();
    let words = match_tokens(&tokens, "!say  hello   there world ").unwrap();
    assert_eq!(words[1], Some("hello   there world"));
}

#[test]
fn tokens_after_take_all_anchor_to_the_end() {
    let tokens = vec![
        CommandPattern::Command("!quote"),
        CommandPattern::Argument { name: "text", take_all: true, optional: false },
        CommandPattern::Argument { name: "author", take_all: false, optional: false },
    ];
    let words = match_tokens(&tokens, "!quote to be or not to be shakespeare").unwrap();
    assert_eq!(words[1], Some("to be or not to be"));
    assert_eq!(words[2], Some("shakespeare"));
}

#[test]
fn compile_refuses_take_all_not_last() {
    assert_eq!(
        compile("!song <rest..> <more>").err(),
        Some(PatternError::TakeAllNotLast(2))
    );
    assert_eq!(compile("!a .. b").err(), Some(PatternError::TakeAllNotLast(2)));
    assert!(Handler::new("!song <a..> <b..>", true).is_err());
}

#[test]
fn compile_refuses_required_after_optional() {
    assert_eq!(
        compile("!cmd [opt] <req>").err(),
        Some(PatternError::RequiredAfterOptional(2))
    );
    assert!(compile("!cmd <req> [opt] [more..]").is_ok());
}

#[test]
fn classify_words() {
    assert_eq!(CommandPattern::from_word("!song"), CommandPattern::Command("!song"));
    assert_eq!(CommandPattern::from_word(".."), CommandPattern::TakeAll);
    assert_eq!(CommandPattern::from_word("add"), CommandPattern::Subcommand("add"));
    assert_eq!(
        CommandPattern::from_word("<url>"),
        CommandPattern::Argument { name: "url", take_all: false, optional: false }
    );
    assert_eq!(
        CommandPattern::from_word("[rest..]"),
        CommandPattern::Argument { name: "rest", take_all: true, optional: true }
    );
    assert_eq!(CommandPattern::from_word("<"), CommandPattern::Subcommand("<"));
    assert_eq!(CommandPattern::from_word("[x..]").key(), "x");
    assert_eq!(CommandPattern::TakeAll.key(), "");
    assert!(CommandPattern::TakeAll.is_optional());
    assert!(CommandPattern::TakeAll.is_taking_all());
    assert!(!CommandPattern::Command("!a").is_optional());
}

#[test]
fn match_errors() {
    let tokens = compile("!song add <command> [url]").unwrap();
    assert_eq!(match_tokens(&tokens, "!other add x"), Err(CommandError::CommandMismatch));
    assert_eq!(match_tokens(&tokens, ""), Err(CommandError::CommandMismatch));
    assert_eq!(match_tokens(&tokens, "!song rm x"), Err(CommandError::SubcommandMismatch));
    assert_eq!(match_tokens(&tokens, "!song"), Err(CommandError::SubcommandMismatch));
    assert_eq!(match_tokens(&tokens, "!song add"), Err(CommandError::ArgumentMissing));
    assert_eq!(
        match_tokens(&tokens, "!song add x"),
        Ok(vec![Some("!song"), Some("add"), Some("x"), None])
    );
    assert_eq!(
        match_tokens(&tokens, "!song add x y z"),
        Err(CommandError::ArgumentsLeftOver)
    );
}

#[test]
fn arguments_parse_by_type() {
    let n: Result<u64, _> = next_argument(Some("42"), "count");
    assert_eq!(n, Ok(42));
    let bad: Result<u64, _> = next_argument(Some("4x2"), "count");
    assert_eq!(bad, Err(CommandError::NamedArgumentParsing("count".to_string(), ())));
    let missing: Result<u64, _> = next_argument(None, "count");
    assert_eq!(missing, Err(CommandError::ArgumentMissing));
    let opt: Result<Option<u64>, _> = next_optional_argument_unit(None, "count");
    assert_eq!(opt, Ok(None));
    let user: Result<UserArgument, _> = next_argument_unit(Some("@furret"), "user");
    assert_eq!(user.unwrap().as_argument(), "furret");
}

#[test]
fn error_helpers() {
    let e: CommandError<u8> = CommandError::NamedArgumentParsing("n".to_string(), 3);
    assert!(e.is_argument_error());
    assert_eq!(
        e.clone().map_err(|x| x as u32 + 1),
        CommandError::NamedArgumentParsing("n".to_string(), 4)
    );
    assert_eq!(e.unit_err(), CommandError::NamedArgumentParsing("n".to_string(), ()));
    let s: CommandError<u8> = CommandError::SubcommandMismatch;
    assert!(s.is_subcommand_mismatch());
    assert!(!s.is_argument_error());
    assert!(CommandError::<u8>::ArgumentsLeftOver.is_argument_error());
    assert!(!CommandError::<u8>::RequestError(1).is_argument_error());
}

#[test]
fn shared_syntax_text() {
    let mut find = FindSharedSyntax::new("!song add <command> <url> <cooldown..>");
    find.append("!song rm <command>");
    assert_eq!(find.to_string(), "!song add|rm");
    find.append("!song");
    assert_eq!(find.to_string(), "!song add|rm");
    let mut longer = FindSharedSyntax::new("!song");
    longer.append("!song list");
    assert_eq!(longer.to_string(), "!song list");
}

#[test]
fn dispatch_first_match_wins_and_suggests() {
    let handlers = vec![
        Handler::new("!song add <command> <url>", true).unwrap(),
        Handler::new("!song rm <command>", true).unwrap(),
        Handler::new("!song <other..>", false).unwrap(),
    ];
    let sender = User::new("liquidblock", Some("LiquidBlock"), None);
    match dispatch(&handlers, "!song rm !walk", &sender) {
        Dispatch::Matched(i, words) => {
            assert_eq!(i, 1);
            assert_eq!(words[2], Some("!walk"));
        }
        _ => panic!("expected a match"),
    }
    let strict = vec![
        Handler::new("!song add <command> <url>", true).unwrap(),
        Handler::new("!song rm <command>", true).unwrap(),
    ];
    match dispatch(&strict, "!song list", &sender) {
        Dispatch::Suggestion(text) => assert_eq!(text, "@LiquidBlock !song add|rm"),
        _ => panic!("expected a suggestion"),
    }
    match dispatch(&strict, "!other", &sender) {
        Dispatch::Unrecognized => {}
        _ => panic!("expected no reply"),
    }
}

#[test]
fn command_from_message() {
    assert_eq!(Command::from_message("  !song add").unwrap().as_str(), "!song add");
    assert_eq!(
        Command::from_message("hello !song").err(),
        Some(PrivmsgCommandError::DoesNotStartWithBang)
    );
    assert!(Command::from_message("   ").is_err());
}

#[test]
fn self_messages_are_dropped() {
    let bot = Bot::from_login("helperblock");
    let own = CommandRequest::from_parts(
        Command::new("!song"),
        Sender::from_user(User::from_username("helperblock")),
        Channel::from_user(User::from_username("chan")),
        &bot,
    );
    assert!(!should_dispatch(true, &own));
    assert!(should_dispatch(false, &own));
    let other = CommandRequest::from_parts(
        Command::new("!song"),
        Sender::new(User::from_username("someone"), true, false),
        Channel::from_user(User::from_username("chan")),
        &bot,
    );
    assert!(should_dispatch(true, &other));
    assert!(other.sender().is_moderator());
    assert!(!other.sender().is_broadcaster());
}

#[test]
fn values_taken_from_the_request() {
    let bot = Bot::from_login("helperblock");
    let request = CommandRequest::from_parts(
        Command::new("!song"),
        Sender::new(User::from_username("furret"), false, true),
        Channel::from_user(User::from_username("liquidblock")),
        &bot,
    );
    let sender: Option<Sender> = from_command_request_option(&request);
    let sender = sender.unwrap();
    assert_eq!(sender.user().username(), "furret");
    assert!(sender.is_broadcaster());
    let channel: Result<Channel, _> = from_command_request_err(&request);
    assert_eq!(channel.unwrap().user().username(), "liquidblock");
    let command: Option<Command> = from_command_request_option(&request);
    assert_eq!(command.unwrap().as_str(), "!song");
    let b: Option<Bot> = from_command_request_option(&request);
    assert_eq!(b.unwrap().user().username(), "helperblock");
}

#[test]
fn typed_arguments_from_outside_parsers() {
    let cooldown: Result<HumanDuration, _> = next_argument(Some("20m"), "cooldown");
    assert_eq!(cooldown, Ok(HumanDuration { secs: 1200, nanos: 0 }));
    let long: Result<HumanDuration, _> = next_argument(Some("2h 37min"), "cooldown");
    assert_eq!(long.unwrap().secs, 9420);
    let bad: Result<HumanDuration, _> = next_argument(Some("soon"), "cooldown");
    assert!(bad.is_err());
    let url: Result<url::Url, _> = next_argument(Some("https://example.com/"), "url");
    assert_eq!(url.unwrap().as_str(), "https://example.com/");
    let not_url: Result<url::Url, _> = next_argument(Some("example"), "url");
    assert_eq!(not_url.err(), Some(CommandError::NamedArgumentParsing("url".to_string(), ())));
    let uri: Result<http::Uri, _> = next_argument(Some("/path?q=1"), "uri");
    assert_eq!(uri.unwrap().path(), "/path");
    let date: Result<CalendarDate, _> = next_argument(Some("2024-02-29"), "date");
    assert_eq!(date, Ok(CalendarDate { year: 2024, month: 2, day: 29 }));
    let no_date: Result<CalendarDate, _> = next_argument(Some("2023-02-29"), "date");
    assert!(no_date.is_err());
    let time: Result<ClockTime, _> = next_argument(Some("13:37:05"), "time");
    assert_eq!(time, Ok(ClockTime { hour: 13, minute: 37, second: 5, nanosecond: 0 }));
    let at: Result<CalendarDateTime, _> = next_argument(Some("2024-02-29T13:37:05"), "at");
    assert_eq!(at.unwrap().date.day, 29);
}

#[test]
fn plain_arguments() {
    let yes: Result<bool, _> = next_argument(Some("true"), "flag");
    assert_eq!(yes, Ok(true));
    let no: Result<bool, _> = next_argument(Some("false"), "flag");
    assert_eq!(no, Ok(false));
    let bad: Result<bool, _> = next_argument(Some("yes"), "flag");
    assert!(bad.is_err());
    let c: Result<char, _> = next_argument(Some("ß"), "letter");
    assert_eq!(c, Ok('ß'));
    let two: Result<char, _> = next_argument(Some("ab"), "letter");
    assert!(two.is_err());
    let n: Result<i64, _> = next_argument(Some("-12"), "n");
    assert_eq!(n, Ok(-12));
}

#[test]
fn tokens_written_back() {
    let tokens = compile("!song add <command> [url] <rest..> [more..] ..").map(|_| ()).err();
    assert!(tokens.is_some());
    for word in ["!song", "add", "<command>", "[url]", "<rest..>", "[more..]", ".."] {
        assert_eq!(CommandPattern::from_word(word).to_text(), word);
    }
}

#[test]
fn optional_values_degrade_to_none() {
    let bad: Result<Option<u64>, _> = next_argument(Some("many"), "count");
    assert_eq!(bad, Ok(None));
    let good: Result<Option<u64>, _> = next_argument(Some("3"), "count");
    assert_eq!(good, Ok(Some(3)));
    let bot = Bot::from_login("helperblock");
    let request = CommandRequest::from_parts(
        Command::new("!x"),
        Sender::from_user(User::from_username("a")),
        Channel::from_user(User::from_username("b")),
        &bot,
    );
    let sender: Result<Option<Sender>, _> = from_command_request_err(&request);
    assert_eq!(sender.unwrap().unwrap().user().username(), "a");
}

#[test]
fn alternatives_are_listed_once() {
    let mut find = FindSharedSyntax::new("!song add <c>");
    find.append("!song rm <c>");
    find.append("!song rm <d>");
    assert_eq!(find.to_string(), "!song add|rm");
    let mut grow = FindSharedSyntax::new("!song");
    grow.append("!song list");
    grow.append("!song list");
    grow.append("!song play <x>");
    assert_eq!(grow.to_string(), "!song list|play");
}

#[test]
fn suggestion_keeps_template_spacing() {
    let find = FindSharedSyntax::new("  !song   add  <command>  ");
    assert_eq!(find.to_string(), "!song   add  <command>");
    let mut cut = FindSharedSyntax::new("!song   add  <command>");
    cut.append("!song   add   <url>");
    assert_eq!(cut.to_string(), "!song   add <command>|<url>");
}

#[test]
fn argument_that_does_not_parse_falls_through() {
    let handlers = vec![
        Handler::new("!roll <sides>", true).unwrap().with_kind("sides", ArgumentKind::Unsigned),
        Handler::new("!roll <dice>", true).unwrap(),
    ];
    let sender = User::from_username("furret");
    match dispatch(&handlers, "!roll 20", &sender) {
        Dispatch::Matched(i, _) => assert_eq!(i, 0),
        _ => panic!("expected the first handler"),
    }
    match dispatch(&handlers, "!roll d20", &sender) {
        Dispatch::Matched(i, words) => {
            assert_eq!(i, 1);
            assert_eq!(words[1], Some("d20"));
        }
        _ => panic!("expected the second handler"),
    }
    assert_eq!(
        handlers[0].matches("!roll d20"),
        Err(CommandError::NamedArgumentParsing("sides".to_string(), ()))
    );
    let song = Handler::new("!song add <command> <url> <cooldown..>", false)
        .unwrap()
        .with_kind("url", ArgumentKind::Url)
        .with_kind("cooldown", ArgumentKind::Duration);
    assert!(song.matches("!song add !walk https://example.com/ 20m").is_ok());
    assert_eq!(
        song.matches("!song add !walk example 20m"),
        Err(CommandError::NamedArgumentParsing("url".to_string(), ()))
    );
    assert_eq!(
        song.matches("!song add !walk https://example.com/ soon"),
        Err(CommandError::NamedArgumentParsing("cooldown".to_string(), ()))
    );
}

#[test]
fn long_durations_are_refused_without_panicking() {
    let huge: Result<HumanDuration, _> =
        next_argument(Some("18446744073709551615s 1000000000ns"), "cooldown");
    assert!(huge.is_err());
    let eleven: Result<HumanDuration, _> = next_argument(Some("99999999999s"), "cooldown");
    assert_eq!(eleven, Ok(HumanDuration { secs: 99_999_999_999, nanos: 0 }));
}

#[test]
fn more_plain_arguments() {
    let unit: Result<(), _> = next_argument(Some("anything"), "x");
    assert_eq!(unit, Ok(()));
    let kept: Result<Result<u32, ()>, _> = next_argument(Some("nope"), "x");
    assert_eq!(kept, Ok(Err(())));
    let small: Result<u32, _> = next_argument(Some("4294967296"), "x");
    assert!(small.is_err());
    let negative: Result<i32, _> = next_argument(Some("-7"), "x");
    assert_eq!(negative, Ok(-7));
}
