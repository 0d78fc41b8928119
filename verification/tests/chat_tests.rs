use neobot::chat::{kick_command, light_command, tellraw, webhook_content};

fn q(s: &str) -> String {
    s.replace('\'', "\"")
}

#[test]
fn tellraw_wraps_message() {
    let want = q("minecraft:tellraw @a [{'text':'[','color':'#54daf4','italic':false},{'text':'n','color':'#5ed0e8','italic':false},{'text':'e','color':'#68c6dc','italic':false},{'text':'o','color':'#72bcd0','italic':false},{'text':']','color':'#8aa8c4','italic':false},{'text':' hi there','color':'white'}]");
    assert_eq!(tellraw("hi there"), want);
}

#[test]
fn webhook_body_is_ansi_block() {
    assert_eq!(webhook_content("<Bob> hi"), "```ansi\n<Bob> hi\n```");
}

#[test]
fn kick_gives_long_named_item() {
    let c = kick_command("Bob");
    let expected = format!("/give Bob diamond_hoe[minecraft:custom_name={}\u{0D9E}{}{}]", '\'', "L".repeat(20000), '\'');
    assert_eq!(c, expected);
    assert_eq!(c.chars().count(), 20000 + 48);
}

#[test]
fn light_gives_night_vision() {
    assert_eq!(light_command("Al"), "effect give Al night_vision infinite 0 true");
}
