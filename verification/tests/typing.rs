use lds::smooth_typist::{SmoothTypist, TickEffect, TypistCommand, TICK_DELAY_US};
use lds::wayland_typist::{
    build_xkb_keymap, char_to_keysym, key_events, text_keysyms, KeyEvent, WaylandTypist, INTER_KEY_US,
};

#[test]
fn keys_without_a_printable_form() {
    assert_eq!(char_to_keysym('\n', 1, 2), 0xff0d);
    assert_eq!(char_to_keysym('\t', 1, 2), 0xff09);
    assert_eq!(char_to_keysym('\u{1b}', 1, 2), 0xff1b);
}

#[test]
fn ascii_characters_are_their_own_keysyms() {
    assert_eq!(char_to_keysym('A', 0x61, 0x41), 0x41);
    assert_eq!(char_to_keysym('a', 0x61, 0x61), 0x61);
    for code in 0x20u8..0x7f {
        assert_eq!(char_to_keysym(code as char, 0, 0), code as u32);
    }
    assert_eq!(char_to_keysym('\u{7f}', 0, 9), 9);
    assert_eq!(char_to_keysym('\u{1f}', 8, 9), 8);
}

#[test]
fn names_come_before_code_points() {
    assert_eq!(char_to_keysym('É', 0xc9, 7), 0xc9);
    assert_eq!(char_to_keysym('é', 0, 0xe9), 0xe9);
    assert_eq!(char_to_keysym('é', 0, 0), 0);
}

#[test]
fn keysyms_of_a_text() {
    assert_eq!(
        text_keysyms("aÉé\n", &vec![7, 0xc9, 0, 7], &vec![8, 8, 0xe9, 8]),
        vec![0x61, 0xc9, 0xe9, 0xff0d]
    );
    assert!(text_keysyms("", &Vec::new(), &Vec::new()).is_empty());
}

#[test]
fn ascii_is_typed_as_is() {
    let mut typist = WaylandTypist::new();
    let other = vec!['b' as u32; 3];
    typist.keycodes("aé~", &other, &other);
    assert_eq!(typist.keysyms(), vec![0x61, 0x62, 0x7e]);
}

#[test]
fn each_character_has_one_key() {
    let mut typist = WaylandTypist::new();
    assert_eq!(typist.keycode_for_char('a', 97, 0), 1);
    assert_eq!(typist.keycode_for_char('b', 98, 0), 2);
    assert_eq!(typist.keycode_for_char('a', 5, 0), 1);
    assert_eq!(typist.keysyms(), vec![97, 98]);
}

#[test]
fn texts_are_spelled_and_keys_are_kept() {
    let mut typist = WaylandTypist::new();
    let sym = |text: &str| text.chars().map(|c| c as u32).collect::<Vec<u32>>();
    let none = |text: &str| vec![0u32; text.chars().count()];
    assert_eq!(typist.keycodes("hello", &none("hello"), &sym("hello")), vec![1, 2, 3, 3, 4]);
    assert_eq!(typist.keycodes("oh, é", &none("oh, é"), &sym("oh, é")), vec![4, 1, 5, 6, 7]);
    assert_eq!(typist.keycodes("hello", &none("hello"), &sym("hello")), vec![1, 2, 3, 3, 4]);
    assert_eq!(typist.keycodes("", &Vec::new(), &Vec::new()), Vec::<u32>::new());
    assert_eq!(typist.keysyms(), sym("helo, é"));
}

#[test]
fn keymap_is_uploaded_when_keys_were_added() {
    let mut typist = WaylandTypist::new();
    assert_eq!(typist.pending_upload(&Vec::new()), None);
    let names = vec!["a".to_string()];
    typist.keycode_for_char('a', 97, 0);
    let upload = typist.pending_upload(&names).unwrap();
    assert_eq!(upload.last(), Some(&0));
    assert_eq!(&upload[..upload.len() - 1], build_xkb_keymap(&names).as_bytes());
    typist.uploaded();
    assert_eq!(typist.pending_upload(&names), None);
    typist.keycode_for_char('a', 97, 0);
    assert_eq!(typist.pending_upload(&names), None);
    typist.keycode_for_char('b', 98, 0);
    assert!(typist.pending_upload(&vec!["a".to_string(), "b".to_string()]).is_some());
}

#[test]
fn keymap_text_is_xkb() {
    let names = vec!["H".to_string(), "eacute".to_string()];
    assert_eq!(
        build_xkb_keymap(&names),
        "xkb_keymap {\n\
         xkb_keycodes \"(unnamed)\" {\nminimum = 8;\nmaximum = 11;\n\
         <K1> = 9;\n<K2> = 10;\n};\n\
         xkb_types \"(unnamed)\" { include \"complete\" };\n\
         xkb_compatibility \"(unnamed)\" { include \"complete\" };\n\
         xkb_symbols \"(unnamed)\" {\n\
         key <K1> {[H]};\nkey <K2> {[eacute]};\n};\n};\n"
    );
    assert!(build_xkb_keymap(&Vec::new()).contains("maximum = 9;"));
}

#[test]
fn keys_go_down_and_up() {
    let event = |time_ms: u32, keycode: u32, pressed: bool| KeyEvent { time_ms, keycode, pressed };
    assert_eq!(
        key_events(&vec![3, 3, 7]),
        vec![
            event(0, 3, true),
            event(1, 3, false),
            event(2, 3, true),
            event(3, 3, false),
            event(4, 7, true),
            event(5, 7, false),
        ]
    );
    assert!(key_events(&Vec::new()).is_empty());
}

#[test]
fn two_hundred_characters_a_second() {
    assert_eq!(1_000_000 / INTER_KEY_US, 200);
}

#[test]
fn ticks_come_sixty_times_a_second() {
    assert_eq!(TICK_DELAY_US, std::cmp::max(1000, 1_000_000 / 60));
}

fn queue(text: &str, chars_per_tick: usize) -> TypistCommand {
    TypistCommand::Type { text: text.to_string(), chars_per_tick }
}

#[test]
fn text_is_typed_in_ticks() {
    let mut typist = SmoothTypist::new();
    assert!(matches!(typist.tick(), TickEffect::Block));
    let effect = typist.on_command(queue("héllo", 2));
    assert!(effect.burst.is_none() && !effect.exit);
    assert!(!typist.is_typing());
    let mut out = String::new();
    let mut pauses = 0;
    loop {
        match typist.tick() {
            TickEffect::Type { text, pause } => {
                out.push_str(&text);
                assert_eq!(typist.is_typing(), pause);
                if pause {
                    pauses += 1;
                }
            }
            TickEffect::Block => break,
        }
    }
    assert_eq!(out, "héllo");
    assert_eq!(pauses, 2);
    assert!(!typist.is_typing());
}

#[test]
fn queued_text_is_appended() {
    let mut typist = SmoothTypist::new();
    typist.on_command(queue("ab", 1));
    assert!(matches!(typist.tick(), TickEffect::Type { text, pause: true } if text == "a"));
    typist.on_command(queue("cd", 5));
    assert!(matches!(typist.tick(), TickEffect::Type { text, pause: false } if text == "bcd"));
}

#[test]
fn a_pace_of_zero_is_one() {
    let mut typist = SmoothTypist::new();
    typist.on_command(queue("ab", 0));
    assert!(matches!(typist.tick(), TickEffect::Type { text, pause: true } if text == "a"));
}

#[test]
fn flush_types_the_rest() {
    let mut typist = SmoothTypist::new();
    assert!(typist.on_command(TypistCommand::Flush).burst.is_none());
    typist.on_command(queue("abc", 1));
    typist.tick();
    let effect = typist.on_command(TypistCommand::Flush);
    assert_eq!(effect.burst, Some("bc".to_string()));
    assert!(!effect.exit);
    assert!(!typist.is_typing());
    assert!(matches!(typist.tick(), TickEffect::Block));
}

#[test]
fn stop_discards_the_rest() {
    let mut typist = SmoothTypist::new();
    typist.on_command(queue("abc", 1));
    let effect = typist.on_command(TypistCommand::Stop);
    assert!(effect.burst.is_none());
    assert!(effect.exit);
}

#[test]
fn disconnect_types_the_rest() {
    let mut typist = SmoothTypist::new();
    typist.on_command(queue("abc", 1));
    let effect = typist.on_command(TypistCommand::Disconnect);
    assert_eq!(effect.burst, Some("abc".to_string()));
    assert!(effect.exit);
    assert!(SmoothTypist::new().on_command(TypistCommand::Disconnect).burst.is_none());
}
