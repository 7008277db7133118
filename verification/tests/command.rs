use cherrydoor_command::Command;

const CONFLICT_MSG: &str = "Command contains elements that cannot coexist.";

#[test]
fn empty_frame() {
    let s = Command::new().into_string().unwrap();
    assert_eq!(s, "0;");
}

#[test]
fn open_frame() {
    let s = Command::new().open().into_string().unwrap();
    assert_eq!(s, "512;");
}

#[test]
fn close_frame() {
    let s = Command::new().close().into_string().unwrap();
    assert_eq!(s, "256;");
}

#[test]
fn open_for_frame() {
    let s = Command::new().open_for(10).into_string().unwrap();
    assert_eq!(s, "128;10;");
}

#[test]
fn open_for_negative_duration() {
    let s = Command::new().open_for(-5).into_string().unwrap();
    assert_eq!(s, "128;-5;");
}

#[test]
fn display_text_frame() {
    let s = Command::new().display_text("hello".to_string()).into_string().unwrap();
    assert_eq!(s, "64;hello;");
}

#[test]
fn display_text_for_frame() {
    let s = Command::new()
        .display_text_for("hi".to_string(), 3)
        .into_string()
        .unwrap();
    assert_eq!(s, "32;hi;3;");
}

#[test]
fn set_color_single_digit_channels() {
    let s = Command::new().set_color(1, 2, 3).into_string().unwrap();
    assert_eq!(s, "16;#123;");
}

#[test]
fn set_color_unpadded_mixed_channels() {
    // Channel values below 16 serialize as one hex digit, with no zero
    // padding: 5 -> "5", 255 -> "ff", 16 -> "10".
    let s = Command::new().set_color(5, 255, 16).into_string().unwrap();
    assert_eq!(s, "16;#5ff10;");
}

#[test]
fn set_color_for_frame() {
    let s = Command::new().set_color_for(255, 255, 255, 10).into_string().unwrap();
    assert_eq!(s, "8;#ffffff;10;");
}

#[test]
fn play_sound_frame() {
    let s = Command::new().play_sound(5).into_string().unwrap();
    assert_eq!(s, "4;5;");
}

#[test]
fn backlight_on_frame() {
    let s = Command::new().backlight_on().into_string().unwrap();
    assert_eq!(s, "2;");
}

#[test]
fn backlight_off_frame() {
    let s = Command::new().backlight_off().into_string().unwrap();
    assert_eq!(s, "1;");
}

#[test]
fn combined_frame() {
    // One slot from each of three different groups: the mask is the OR of
    // the bits of the set slots (512 | 64 | 2 = 578) and only the text slot
    // contributes a payload token.
    let s = Command::new()
        .open()
        .display_text("hi".to_string())
        .backlight_on()
        .into_string()
        .unwrap();
    assert_eq!(s, "578;hi;");
}

#[test]
fn full_frame_tokens_in_bit_descending_order() {
    // Mask 0x80 | 0x20 | 0x8 | 0x4 = 172; tokens follow in bit-descending
    // slot order, each closed by a semicolon.
    let s = Command::new()
        .open_for(10)
        .display_text_for("__text__".to_string(), 10)
        .set_color_for(255, 255, 255, 10)
        .play_sound(1)
        .into_string()
        .unwrap();
    assert_eq!(s, "172;10;__text__;10;#ffffff;10;1;");
}

#[test]
fn last_write_wins_on_repeated_setter() {
    let s = Command::new().open_for(10).open_for(20).into_string().unwrap();
    assert_eq!(s, "128;20;");
}

#[test]
fn conflict_open_close() {
    let e = Command::new().open().close().into_string().unwrap_err();
    assert_eq!(e.message, CONFLICT_MSG);
}

#[test]
fn conflict_open_open_for() {
    let e = Command::new().open().open_for(10).into_string().unwrap_err();
    assert_eq!(e.message, CONFLICT_MSG);
}

#[test]
fn conflict_display_pair() {
    let e = Command::new()
        .display_text("a".to_string())
        .display_text_for("b".to_string(), 1)
        .into_string()
        .unwrap_err();
    assert_eq!(e.message, CONFLICT_MSG);
}

#[test]
fn conflict_color_pair() {
    let e = Command::new()
        .set_color(1, 2, 3)
        .set_color_for(4, 5, 6, 7)
        .into_string()
        .unwrap_err();
    assert_eq!(e.message, CONFLICT_MSG);
}

#[test]
fn conflict_backlight_pair() {
    // The backlight on/off pair is treated as a full exclusivity group:
    // setting both flags in one frame is a conflict.
    let e = Command::new().backlight_on().backlight_off().into_string().unwrap_err();
    assert_eq!(e.message, CONFLICT_MSG);
}

#[test]
fn conflict_wins_over_other_groups() {
    // A conflict in one group fails the frame no matter which other groups
    // are populated.
    let e = Command::new()
        .open()
        .close()
        .play_sound(1)
        .backlight_on()
        .into_string()
        .unwrap_err();
    assert_eq!(e.message, CONFLICT_MSG);
}

#[test]
fn explicit_false_boolean_is_set_but_maskless() {
    // A boolean slot holding `false` counts as set for exclusivity but
    // contributes no mask bit.
    let mut conflicting = Command::new();
    conflicting.open = Some(false);
    conflicting = conflicting.close();
    let e = conflicting.into_string().unwrap_err();
    assert_eq!(e.message, CONFLICT_MSG);

    let mut maskless = Command::new();
    maskless.open = Some(false);
    let s = maskless.into_string().unwrap();
    assert_eq!(s, "0;");
}

#[test]
fn frame_shape() {
    // Every successful frame is digits, a semicolon, then tokens each
    // closed by a semicolon — so it always ends with one.
    let frames = vec![
        Command::new().into_string().unwrap(),
        Command::new().open().into_string().unwrap(),
        Command::new().set_color_for(9, 9, 9, -1).play_sound(7).into_string().unwrap(),
    ];
    for s in frames {
        assert!(s.ends_with(';'));
        let first = s.split(';').next().unwrap();
        assert!(!first.is_empty());
        assert!(first.chars().all(|ch| ch.is_ascii_digit()));
    }
}
