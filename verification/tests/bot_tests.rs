use neobot::bot::{loop_continues, Action, Event, State};
use neobot::chat::tellraw;
use neobot::cmdcore::BlockPos;

const SECRET: &str = "12345678901234567890";

fn chat(content: &str, sender: &str, creative: bool) -> Event {
    Event::Chat {
        content: content.to_string(),
        display: format!("<{}> {}", sender, content),
        sender: Some(sender.to_string()),
        creative,
    }
}

fn step(state: &mut State, e: &Event) -> Vec<Action> {
    let secrets = Some(SECRET.to_string());
    assert!(state.accepts(e, &secrets));
    state.handle(e, &secrets, 45)
}

fn tell(m: &str) -> Action {
    Action::Run(tellraw(m))
}

#[test]
fn loop_needs_login_first() {
    let mut s = State::new();
    let a = step(&mut s, &chat("n:loop start 100 say hi", "u1", false));
    assert_eq!(a, vec![tell("Woah, login first!")]);
    assert!(s.loops.is_empty());
}

#[test]
fn login_then_loops() {
    let mut s = State::new();
    let a = step(&mut s, &chat("n:login 287082", "u1", true));
    assert_eq!(a, vec![tell("Succesfully authenticated"), Action::Webhook("<u1> n:login 287082".to_string())]);
    assert_eq!(s.auth_users, vec!["u1".to_string()]);
    assert_eq!(s.used_codes, vec![287082]);

    let a = step(&mut s, &chat("n:loop start 100 say hi", "u1", true));
    assert_eq!(
        a,
        vec![
            Action::StartLoop { id: 1, command: "say hi".to_string(), delay: 100 },
            tell("Started loop 1"),
            Action::Webhook("<u1> n:loop start 100 say hi".to_string()),
        ]
    );
    assert_eq!(s.loops, vec![1]);
    assert_eq!(s.loops_text, vec!["ID: 1, Command: say hi, Delay: 100".to_string()]);

    // the second word names a running loop: refused
    let a = step(&mut s, &chat("n:loop start 1 x", "u1", true));
    assert_eq!(a[0], tell("A loop with that id already exists!"));
    assert_eq!(s.loops.len(), 1);

    let a = step(&mut s, &chat("n:loop start 007 x y", "u1", true));
    assert_eq!(a[0], Action::StartLoop { id: 2, command: "x y".to_string(), delay: 7 });
    assert_eq!(s.loops_text[1], "ID: 2, Command: x y, Delay: 7");

    let a = step(&mut s, &chat("n:loops", "u2", true));
    assert_eq!(
        a,
        vec![
            tell("ID: 1, Command: say hi, Delay: 100"),
            tell("ID: 2, Command: x y, Delay: 7"),
            Action::Webhook("<u2> n:loops".to_string()),
        ]
    );

    let a = step(&mut s, &chat("n:loop stop 1", "u1", true));
    assert_eq!(a[0], Action::StopLoop { index: 0 });
    assert_eq!(a[1], tell("Stopped loop 1"));
    assert_eq!(s.loops, vec![2]);
    assert_eq!(s.loops_text, vec!["ID: 2, Command: x y, Delay: 7".to_string()]);

    // unknown id: nothing but the usual relay
    let a = step(&mut s, &chat("n:loop stop 9", "u1", true));
    assert_eq!(a, vec![Action::Webhook("<u1> n:loop stop 9".to_string())]);

    // ids are the count of running loops plus one, so they can repeat
    let a = step(&mut s, &chat("n:loop start 50 z", "u1", true));
    assert_eq!(a[0], Action::StartLoop { id: 2, command: "z".to_string(), delay: 50 });
    assert_eq!(s.loops, vec![2, 2]);
}

#[test]
fn wrong_code_is_refused() {
    let mut s = State::new();
    let a = step(&mut s, &chat("n:login 123456", "u1", true));
    assert_eq!(a[0], tell("Couldn't authenticate"));
    assert!(s.auth_users.is_empty());
    assert!(s.used_codes.is_empty());
}

#[test]
fn leaving_player_is_logged_out() {
    let mut s = State::new();
    step(&mut s, &chat("n:login 287082", "u1", true));
    step(&mut s, &chat("n:login 359152", "u2", true));
    step(&mut s, &chat("n:login 287082", "u1", true));
    assert_eq!(s.auth_users.len(), 3);
    let a = step(&mut s, &Event::RemovePlayer { uuid: "u1".to_string() });
    assert!(a.is_empty());
    assert_eq!(s.auth_users, vec!["u2".to_string()]);
}

#[test]
fn chat_switches_to_creative_and_relays() {
    let mut s = State::new();
    let a = step(&mut s, &chat("hello", "u1", false));
    assert_eq!(a, vec![Action::Chat("/gmc".to_string()), Action::Webhook("<u1> hello".to_string())]);
    let a = step(&mut s, &chat("[@] Command set: say hi", "u1", true));
    assert!(a.is_empty());
}

#[test]
fn simple_commands() {
    let mut s = State::new();
    let a = step(&mut s, &chat("n:exe say hi", "u1", true));
    assert_eq!(a[0], tell("running say hi"));
    assert_eq!(a[1], Action::Run("say hi".to_string()));
    let a = step(&mut s, &chat("n:list", "u1", true));
    assert_eq!(a[0], Action::Markup("<gray>Players <gray>currently <gray>online:".to_string()));
    assert_eq!(a[1], Action::Run("sudo * c:*".to_string()));
    let a = step(&mut s, &chat("n:nonsense", "u1", true));
    assert!(matches!(&a[0], Action::Markup(m) if m.starts_with("<gray>Commands")));
    let a = step(&mut s, &chat("n:disable x", "u1", true));
    assert_eq!(a[0], tell("Coming soon"));
    let a = step(&mut s, &chat("n:light Al", "u1", true));
    assert_eq!(a[0], Action::Run("effect give Al night_vision infinite 0 true".to_string()));
    let a = step(&mut s, &chat("n:tellraw a  b", "u1", true));
    assert_eq!(a[0], tell("a b"));
}

#[test]
fn spawn_builds_core_and_block_update_rebuilds() {
    let mut s = State::new();
    let a = step(&mut s, &Event::Spawn { bot_pos: BlockPos::new(10, 64, -3) });
    assert_eq!(a, vec![Action::Chat("/fill 10 0 -3 15 2 -1 command_block".to_string())]);
    assert_eq!(s.core_generator.core_coordinates.len(), 54);
    let before = s.core_generator.core_coordinates.clone();
    let broken = Event::BlockUpdate { pos: BlockPos::new(11, 1, -2), is_command_block: false, bot_pos: BlockPos::new(20, 64, 0) };
    let a = step(&mut s, &broken);
    assert_eq!(a, vec![Action::Run("/fill 20 0 0 25 2 2 command_block".to_string())]);
    assert_eq!(s.core_generator.core_coordinates, before);
    let fine = Event::BlockUpdate { pos: BlockPos::new(11, 1, -2), is_command_block: true, bot_pos: BlockPos::new(20, 64, 0) };
    assert!(step(&mut s, &fine).is_empty());
    let outside = Event::BlockUpdate { pos: BlockPos::new(0, 1, 0), is_command_block: false, bot_pos: BlockPos::new(20, 64, 0) };
    assert!(step(&mut s, &outside).is_empty());
}

#[test]
fn entity_event_24_asks_for_op() {
    let mut s = State::new();
    assert_eq!(step(&mut s, &Event::EntityEvent { event_id: 24 }), vec![Action::Chat("/op @s[type=player]".to_string())]);
    assert!(step(&mut s, &Event::EntityEvent { event_id: 23 }).is_empty());
    assert!(step(&mut s, &Event::Other).is_empty());
}

#[test]
fn events_that_would_panic_are_not_accepted() {
    let s = State::new();
    let secrets = Some(SECRET.to_string());
    assert!(!s.accepts(&chat("n:", "u1", true), &secrets));
    assert!(!s.accepts(&chat("n:  ", "u1", true), &secrets));
    assert!(!s.accepts(&chat("n:login abc", "u1", true), &secrets));
    assert!(!s.accepts(&chat("n:login 1", "u1", true), &None));
    assert!(s.accepts(&chat("n:help", "u1", true), &None));
    let anonymous = Event::Chat { content: "n:help".to_string(), display: String::new(), sender: None, creative: true };
    assert!(!s.accepts(&anonymous, &secrets));
    // the login gate answers before the loop's words are read
    assert!(s.accepts(&chat("n:loop", "u1", true), &secrets) == false);
    assert!(s.accepts(&chat("n:loop start x", "u1", true), &secrets));
    assert!(!s.accepts(&Event::Spawn { bot_pos: BlockPos::new(i32::MAX - 4, 0, 0) }, &secrets));
}

#[test]
fn loop_numbers_must_read() {
    let mut s = State::new();
    step(&mut s, &chat("n:login 287082", "u1", true));
    let secrets = Some(SECRET.to_string());
    assert!(!s.accepts(&chat("n:loop start x", "u1", true), &secrets));
    assert!(!s.accepts(&chat("n:loop stop x", "u1", true), &secrets));
    assert!(s.accepts(&chat("n:loop pause x", "u1", true), &secrets));
    step(&mut s, &chat("n:loop start 5 a", "u1", true));
    // with a loop running, the number is read as an id first
    assert!(!s.accepts(&chat("n:loop pause x", "u1", true), &secrets));
    assert!(s.accepts(&chat("n:loop start 1 a", "u1", true), &secrets));
    assert!(!s.accepts(&chat("n:loop start -3 a", "u1", true), &secrets));
}

#[test]
fn loops_stop_on_negative_id() {
    assert!(loop_continues(3));
    assert!(loop_continues(0));
    assert!(!loop_continues(-1));
}

#[test]
fn loop_texts_start_with_their_ids() {
    let mut s = State::new();
    step(&mut s, &chat("n:login 287082", "u1", true));
    step(&mut s, &chat("n:loop start 10 a", "u1", true));
    step(&mut s, &chat("n:loop start 20 b c", "u1", true));
    step(&mut s, &chat("n:loop stop 1", "u1", true));
    step(&mut s, &chat("n:loop start 30 d", "u1", true));
    assert_eq!(s.loops.len(), s.loops_text.len());
    for (id, text) in s.loops.iter().zip(s.loops_text.iter()) {
        assert!(text.starts_with(&format!("ID: {}, ", id)), "{}", text);
    }
}
