use neobot::markup::{advanced_tellraw, markup_command};

fn q(s: &str) -> String {
    s.replace('\'', "\"")
}

#[test]
fn markup_colors_each_piece() {
    let r = advanced_tellraw(&"<gray>Players <gray>currently <gray>online:".to_string()).unwrap();
    let want = q("/tellraw @a [{'text':'Players ','color':'gray'},{'text':'currently ','color':'gray'},{'text':'online:','color':'gray'}]");
    assert_eq!(r, want);
}

#[test]
fn markup_links_are_clickable() {
    let r = advanced_tellraw(&"<blue>Join <blue>the <blue>discord: [https://discord.gg/9zSgbreY]".to_string()).unwrap();
    let want = q("/tellraw @a [{'text':'Join ','color':'blue'},{'text':'the ','color':'blue'},{'text':'discord: ','color':'blue'},{'text':'https://discord.gg/9zSgbreY','color':'aqua','click_event':{'action':'open_url','url':'https://discord.gg/9zSgbreY'}},{'text':'','color':'white'}]");
    assert_eq!(r, want);
}

#[test]
fn markup_plain_text_is_white_and_link_url_trimmed() {
    let r = advanced_tellraw(&"hello [ x ] <red>world".to_string()).unwrap();
    let want = q("/tellraw @a [{'text':'hello ','color':'white'},{'text':' x ','color':'aqua','click_event':{'action':'open_url','url':'x'}},{'text':' ','color':'white'},{'text':'world','color':'red'}]");
    assert_eq!(r, want);
}

#[test]
fn markup_command_from_pieces() {
    let caps = vec![
        (None, Some("red".to_string()), Some("a".to_string())),
        (Some("u".to_string()), None, None),
    ];
    let want = q("/tellraw @a [{'text':'a','color':'red'},{'text':'u','color':'aqua','click_event':{'action':'open_url','url':'u'}},{'text':'','color':'white'}]");
    assert_eq!(markup_command(&caps), want);
    assert_eq!(markup_command(&vec![]), "/tellraw @a []");
}
