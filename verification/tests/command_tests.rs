use neobot::command::{command_words, BotCommand};

fn words(v: &[&str]) -> Vec<String> {
    v.iter().map(|w| w.to_string()).collect()
}

#[test]
fn parse_named_commands() {
    assert_eq!(BotCommand::parse(&words(&["help"])), BotCommand::Help);
    assert_eq!(BotCommand::parse(&words(&["info"])), BotCommand::Info);
    assert_eq!(BotCommand::parse(&words(&["core"])), BotCommand::Core);
    assert_eq!(BotCommand::parse(&words(&["list"])), BotCommand::List);
    assert_eq!(BotCommand::parse(&words(&["loops", "x"])), BotCommand::Loops);
    assert_eq!(BotCommand::parse(&words(&["exe", "say", "hi"])), BotCommand::Execute("say hi".to_string()));
    assert_eq!(BotCommand::parse(&words(&["kick", "Bob"])), BotCommand::Kick("Bob".to_string()));
    assert_eq!(BotCommand::parse(&words(&["tellraw", "a", "b"])), BotCommand::Tellraw("a b".to_string()));
    assert_eq!(BotCommand::parse(&words(&["tellraw+", "<red>x"])), BotCommand::AdvancedTellraw("<red>x".to_string()));
    assert_eq!(BotCommand::parse(&words(&["login", "123456"])), BotCommand::Login("123456".to_string()));
    assert_eq!(BotCommand::parse(&words(&["light", "Al"])), BotCommand::Light("Al".to_string()));
    assert_eq!(BotCommand::parse(&words(&["disable", "Al"])), BotCommand::Disable("Al".to_string()));
    assert_eq!(BotCommand::parse(&words(&["exe"])), BotCommand::Execute(String::new()));
}

#[test]
fn parse_unknown_is_help() {
    assert_eq!(BotCommand::parse(&words(&["HELP"])), BotCommand::Help);
    assert_eq!(BotCommand::parse(&words(&["whatever", "x"])), BotCommand::Help);
}

#[test]
fn parse_loop_arguments() {
    assert_eq!(
        BotCommand::parse(&words(&["loop", "start", "100", "say", "hi"])),
        BotCommand::Loop("start".to_string(), "100".to_string(), "say hi".to_string())
    );
    assert_eq!(
        BotCommand::parse(&words(&["loop", "stop"])),
        BotCommand::Loop("stop".to_string(), "0".to_string(), String::new())
    );
    assert_eq!(
        BotCommand::parse(&words(&["loop", "stop", "3"])),
        BotCommand::Loop("stop".to_string(), "3".to_string(), String::new())
    );
}

#[test]
fn auth_needed_for_core_and_loop_only() {
    assert!(BotCommand::Core.requires_auth());
    assert!(BotCommand::Loop(String::new(), String::new(), String::new()).requires_auth());
    assert!(!BotCommand::Help.requires_auth());
    assert!(!BotCommand::Execute("x".to_string()).requires_auth());
    assert!(!BotCommand::Login("1".to_string()).requires_auth());
}

#[test]
fn command_words_need_prefix() {
    assert_eq!(command_words(&"n: exe  say hi".to_string()), Some(words(&["exe", "say", "hi"])));
    assert_eq!(command_words(&"n:".to_string()), Some(vec![]));
    assert_eq!(command_words(&"hello n: exe".to_string()), None);
    assert_eq!(command_words(&"N:help".to_string()), None);
}
