//! Outbound command frames: a by-value builder over ten optional action
//! slots, validated for mutual exclusion and serialized to the textual wire
//! format `"<mask>;<token_1>;...;<token_n>;"`.

use vstd::prelude::*;

verus! {

/// One outbound instruction frame. Each field is an optional action slot;
/// the builder methods fill one slot each and `into_string` validates the
/// whole frame and serializes it.
#[derive(Debug)]
pub struct Command {
    pub open: Option<bool>,
    pub close: Option<bool>,
    pub open_for: Option<i32>,
    pub display_text: Option<String>,
    pub display_text_for: Option<(String, i32)>,
    pub set_color: Option<(u8, u8, u8)>,
    pub set_color_for: Option<(u8, u8, u8, i32)>,
    pub play_sound: Option<i32>,
    pub backlight_on: Option<bool>,
    pub backlight_off: Option<bool>,
}

/// The error produced when one frame holds two actions of the same
/// exclusivity group.
#[derive(Debug)]
pub struct CommandBuildError {
    pub message: String,
}

/// How many of two slots are filled.
pub open spec fn set_count2(a: bool, b: bool) -> int {
    (if a { 1int } else { 0int }) + (if b { 1int } else { 0int })
}

/// How many of three slots are filled.
pub open spec fn set_count3(a: bool, b: bool, c: bool) -> int {
    set_count2(a, b) + (if c { 1int } else { 0int })
}

/// A frame conflicts when any exclusivity group — open/close/open_for,
/// display_text/display_text_for, set_color/set_color_for,
/// backlight_on/backlight_off — has more than one slot filled. A slot counts
/// as filled whenever it is set, whatever value it holds.
pub open spec fn has_conflict(c: Command) -> bool {
    ||| set_count3(c.open is Some, c.close is Some, c.open_for is Some) > 1
    ||| set_count2(c.display_text is Some, c.display_text_for is Some) > 1
    ||| set_count2(c.set_color is Some, c.set_color_for is Some) > 1
    ||| set_count2(c.backlight_on is Some, c.backlight_off is Some) > 1
}

/// The frame's bitmask: one fixed bit per action slot, OR-ed for every slot
/// that is set. Boolean slots contribute their bit only when they hold
/// `true`; an explicitly-set `false` contributes nothing.
pub open spec fn mask_of(c: Command) -> u16 {
    (if c.open == Some(true) { 0x200u16 } else { 0u16 })
        | (if c.close == Some(true) { 0x100u16 } else { 0u16 })
        | (if c.open_for is Some { 0x80u16 } else { 0u16 })
        | (if c.display_text is Some { 0x40u16 } else { 0u16 })
        | (if c.display_text_for is Some { 0x20u16 } else { 0u16 })
        | (if c.set_color is Some { 0x10u16 } else { 0u16 })
        | (if c.set_color_for is Some { 0x8u16 } else { 0u16 })
        | (if c.play_sound is Some { 0x4u16 } else { 0u16 })
        | (if c.backlight_on == Some(true) { 0x2u16 } else { 0u16 })
        | (if c.backlight_off == Some(true) { 0x1u16 } else { 0u16 })
}

/// The character for one digit value below 16, lower case.
pub open spec fn hex_digit(n: int) -> char
    recommends
        0 <= n < 16,
{
    if n == 0 {
        '0'
    } else if n == 1 {
        '1'
    } else if n == 2 {
        '2'
    } else if n == 3 {
        '3'
    } else if n == 4 {
        '4'
    } else if n == 5 {
        '5'
    } else if n == 6 {
        '6'
    } else if n == 7 {
        '7'
    } else if n == 8 {
        '8'
    } else if n == 9 {
        '9'
    } else if n == 10 {
        'a'
    } else if n == 11 {
        'b'
    } else if n == 12 {
        'c'
    } else if n == 13 {
        'd'
    } else {
        if n == 14 {
            'e'
        } else {
            'f'
        }
    }
}

/// The decimal digits of a nonnegative integer, most significant first,
/// with no leading zeros (`0` itself is the single digit `'0'`).
pub open spec fn dec_digits(n: int) -> Seq<char>
    recommends
        n >= 0,
    decreases n,
{
    if n < 10 {
        seq![hex_digit(n)]
    } else {
        dec_digits(n / 10) + seq![hex_digit(n % 10)]
    }
}

/// The decimal representation of a signed integer: a leading `'-'` before
/// the digits of its magnitude when it is negative.
pub open spec fn dec_int(n: int) -> Seq<char> {
    if n < 0 {
        seq!['-'] + dec_digits(-n)
    } else {
        dec_digits(n)
    }
}

/// One color channel in lowercase hex with no zero padding: a single digit
/// below 16, two digits otherwise.
pub open spec fn hex_byte(n: int) -> Seq<char>
    recommends
        0 <= n < 256,
{
    if n < 16 {
        seq![hex_digit(n)]
    } else {
        seq![hex_digit(n / 16), hex_digit(n % 16)]
    }
}

/// An RGB payload token: `'#'` followed by the three unpadded hex channels.
pub open spec fn color_token(r: u8, g: u8, b: u8) -> Seq<char> {
    seq!['#'] + hex_byte(r as int) + hex_byte(g as int) + hex_byte(b as int)
}

/// The token of an optional plain integer slot: its decimal form closed by
/// a semicolon, or nothing when the slot is empty.
pub open spec fn opt_dec_token(v: Option<i32>) -> Seq<char> {
    match v {
        Some(t) => dec_int(t as int) + seq![';'],
        None => Seq::<char>::empty(),
    }
}

/// The token of an optional text slot: the text closed by a semicolon, or
/// nothing when the slot is empty.
pub open spec fn opt_text_token(v: Option<String>) -> Seq<char> {
    match v {
        Some(s) => s@ + seq![';'],
        None => Seq::<char>::empty(),
    }
}

/// The tokens of an optional text-with-duration slot: the text and the
/// decimal duration, each closed by a semicolon.
pub open spec fn opt_text_dec_token(v: Option<(String, i32)>) -> Seq<char> {
    match v {
        Some(p) => p.0@ + seq![';'] + dec_int(p.1 as int) + seq![';'],
        None => Seq::<char>::empty(),
    }
}

/// The token of an optional color slot: the `#rgb` form closed by a
/// semicolon.
pub open spec fn opt_color_token(v: Option<(u8, u8, u8)>) -> Seq<char> {
    match v {
        Some(p) => color_token(p.0, p.1, p.2) + seq![';'],
        None => Seq::<char>::empty(),
    }
}

/// The tokens of an optional color-with-duration slot: the `#rgb` form and
/// the decimal duration, each closed by a semicolon.
pub open spec fn opt_color_dec_token(v: Option<(u8, u8, u8, i32)>) -> Seq<char> {
    match v {
        Some(p) => color_token(p.0, p.1, p.2) + seq![';'] + dec_int(p.3 as int) + seq![';'],
        None => Seq::<char>::empty(),
    }
}

/// The payload tokens of a frame, in fixed bit-descending slot order, each
/// token closed by a semicolon. Slots without a payload (open, close,
/// backlight) contribute nothing.
pub open spec fn payload_of(c: Command) -> Seq<char> {
    opt_dec_token(c.open_for) + opt_text_token(c.display_text) + opt_text_dec_token(
        c.display_text_for,
    ) + opt_color_token(c.set_color) + opt_color_dec_token(c.set_color_for) + opt_dec_token(
        c.play_sound,
    )
}

/// The whole serialized frame: the decimal mask, a semicolon, then the
/// payload tokens.
pub open spec fn wire_of(c: Command) -> Seq<char> {
    dec_digits(mask_of(c) as int) + seq![';'] + payload_of(c)
}

fn hex_digit_str(d: u8) -> (r: &'static str)
    requires
        d < 16,
    ensures
        r@ == seq![hex_digit(d as int)],
{
    proof {
        reveal_strlit("0");
        reveal_strlit("1");
        reveal_strlit("2");
        reveal_strlit("3");
        reveal_strlit("4");
        reveal_strlit("5");
        reveal_strlit("6");
        reveal_strlit("7");
        reveal_strlit("8");
        reveal_strlit("9");
        reveal_strlit("a");
        reveal_strlit("b");
        reveal_strlit("c");
        reveal_strlit("d");
        reveal_strlit("e");
        reveal_strlit("f");
    }
    let r = match d {
        0 => "0",
        1 => "1",
        2 => "2",
        3 => "3",
        4 => "4",
        5 => "5",
        6 => "6",
        7 => "7",
        8 => "8",
        9 => "9",
        10 => "a",
        11 => "b",
        12 => "c",
        13 => "d",
        14 => "e",
        _ => "f",
    };
    proof {
        assert(r@ =~= seq![hex_digit(d as int)]);
    }
    r
}

fn u32_to_dec(n: u32) -> (r: String)
    ensures
        r@ == dec_digits(n as int),
    decreases n,
{
    if n < 10 {
        hex_digit_str(n as u8).to_owned()
    } else {
        let mut r = u32_to_dec(n / 10);
        r.append(hex_digit_str((n % 10) as u8));
        r
    }
}

fn i32_to_dec(t: i32) -> (r: String)
    ensures
        r@ == dec_int(t as int),
{
    if t < 0 {
        let mag: u32 = (-(t as i64)) as u32;
        assert(mag as int == -(t as int));
        let mut r = String::from_str("-");
        proof {
            reveal_strlit("-");
            assert(r@ =~= seq!['-']);
        }
        let digits = u32_to_dec(mag);
        r.append(digits.as_str());
        r
    } else {
        u32_to_dec(t as u32)
    }
}

fn u8_to_hex(v: u8) -> (r: String)
    ensures
        r@ == hex_byte(v as int),
{
    if v < 16 {
        hex_digit_str(v).to_owned()
    } else {
        let mut r = hex_digit_str(v / 16).to_owned();
        r.append(hex_digit_str(v % 16));
        proof {
            assert(r@ =~= hex_byte(v as int));
        }
        r
    }
}

/// Append the `#rgb` color token for one RGB triple.
fn append_color(out: &mut String, r: u8, g: u8, b: u8)
    ensures
        final(out)@ == old(out)@ + color_token(r, g, b),
{
    out.append("#");
    proof {
        reveal_strlit("#");
    }
    let rh = u8_to_hex(r);
    out.append(rh.as_str());
    let gh = u8_to_hex(g);
    out.append(gh.as_str());
    let bh = u8_to_hex(b);
    out.append(bh.as_str());
    proof {
        assert(out@ =~= old(out)@ + color_token(r, g, b));
    }
}

fn conflict_exec(c: &Command) -> (b: bool)
    ensures
        b == has_conflict(*c),
{
    let open_count: u32 = (if c.open.is_some() {
        1
    } else {
        0
    }) + (if c.close.is_some() {
        1
    } else {
        0
    }) + (if c.open_for.is_some() {
        1
    } else {
        0
    });
    let display_count: u32 = (if c.display_text.is_some() {
        1
    } else {
        0
    }) + (if c.display_text_for.is_some() {
        1
    } else {
        0
    });
    let color_count: u32 = (if c.set_color.is_some() {
        1
    } else {
        0
    }) + (if c.set_color_for.is_some() {
        1
    } else {
        0
    });
    let backlight_count: u32 = (if c.backlight_on.is_some() {
        1
    } else {
        0
    }) + (if c.backlight_off.is_some() {
        1
    } else {
        0
    });
    open_count > 1 || display_count > 1 || color_count > 1 || backlight_count > 1
}

fn mask_exec(c: &Command) -> (m: u16)
    ensures
        m == mask_of(*c),
{
    (if matches!(c.open, Some(true)) {
        0x200u16
    } else {
        0u16
    }) | (if matches!(c.close, Some(true)) {
        0x100u16
    } else {
        0u16
    }) | (if c.open_for.is_some() {
        0x80u16
    } else {
        0u16
    }) | (if c.display_text.is_some() {
        0x40u16
    } else {
        0u16
    }) | (if c.display_text_for.is_some() {
        0x20u16
    } else {
        0u16
    }) | (if c.set_color.is_some() {
        0x10u16
    } else {
        0u16
    }) | (if c.set_color_for.is_some() {
        0x8u16
    } else {
        0u16
    }) | (if c.play_sound.is_some() {
        0x4u16
    } else {
        0u16
    }) | (if matches!(c.backlight_on, Some(true)) {
        0x2u16
    } else {
        0u16
    }) | (if matches!(c.backlight_off, Some(true)) {
        0x1u16
    } else {
        0u16
    })
}

fn append_opt_dec(out: &mut String, v: Option<i32>)
    ensures
        final(out)@ == old(out)@ + opt_dec_token(v),
{
    proof {
        reveal_strlit(";");
    }
    if let Some(t) = v {
        let ds = i32_to_dec(t);
        out.append(ds.as_str());
        out.append(";");
    }
    proof {
        assert(out@ =~= old(out)@ + opt_dec_token(v));
    }
}

fn append_opt_text(out: &mut String, v: &Option<String>)
    ensures
        final(out)@ == old(out)@ + opt_text_token(*v),
{
    proof {
        reveal_strlit(";");
    }
    if let Some(t) = v {
        out.append(t.as_str());
        out.append(";");
    }
    proof {
        assert(out@ =~= old(out)@ + opt_text_token(*v));
    }
}

fn append_opt_text_dec(out: &mut String, v: &Option<(String, i32)>)
    ensures
        final(out)@ == old(out)@ + opt_text_dec_token(*v),
{
    proof {
        reveal_strlit(";");
    }
    if let Some(p) = v {
        out.append(p.0.as_str());
        out.append(";");
        let ds = i32_to_dec(p.1);
        out.append(ds.as_str());
        out.append(";");
    }
    proof {
        assert(out@ =~= old(out)@ + opt_text_dec_token(*v));
    }
}

fn append_opt_color(out: &mut String, v: Option<(u8, u8, u8)>)
    ensures
        final(out)@ == old(out)@ + opt_color_token(v),
{
    proof {
        reveal_strlit(";");
    }
    if let Some((cr, cg, cb)) = v {
        append_color(&mut *out, cr, cg, cb);
        out.append(";");
    }
    proof {
        assert(out@ =~= old(out)@ + opt_color_token(v));
    }
}

fn append_opt_color_dec(out: &mut String, v: Option<(u8, u8, u8, i32)>)
    ensures
        final(out)@ == old(out)@ + opt_color_dec_token(v),
{
    proof {
        reveal_strlit(";");
    }
    if let Some((cr, cg, cb, t)) = v {
        append_color(&mut *out, cr, cg, cb);
        out.append(";");
        let ds = i32_to_dec(t);
        out.append(ds.as_str());
        out.append(";");
    }
    proof {
        assert(out@ =~= old(out)@ + opt_color_dec_token(v));
    }
}

/// Append every payload token of the frame, in the fixed slot order, each
/// closed by a semicolon.
fn append_payload(out: &mut String, c: &Command)
    ensures
        final(out)@ == old(out)@ + payload_of(*c),
{
    append_opt_dec(&mut *out, c.open_for);
    append_opt_text(&mut *out, &c.display_text);
    append_opt_text_dec(&mut *out, &c.display_text_for);
    append_opt_color(&mut *out, c.set_color);
    append_opt_color_dec(&mut *out, c.set_color_for);
    append_opt_dec(&mut *out, c.play_sound);
    proof {
        assert(out@ =~= old(out)@ + payload_of(*c));
    }
}

impl Command {
    /// A fresh frame with every action slot empty.
    pub fn new() -> (r: Self)
        ensures
            r == (Command {
                open: None,
                close: None,
                open_for: None,
                display_text: None,
                display_text_for: None,
                set_color: None,
                set_color_for: None,
                play_sound: None,
                backlight_on: None,
                backlight_off: None,
            }),
    {
        Command {
            open: None,
            close: None,
            open_for: None,
            display_text: None,
            display_text_for: None,
            set_color: None,
            set_color_for: None,
            play_sound: None,
            backlight_on: None,
            backlight_off: None,
        }
    }

    /// Request that the lock open.
    pub fn open(self) -> (r: Self)
        ensures
            r == (Command { open: Some(true), ..self }),
    {
        Command { open: Some(true), ..self }
    }

    /// Request that the lock close.
    pub fn close(self) -> (r: Self)
        ensures
            r == (Command { close: Some(true), ..self }),
    {
        Command { close: Some(true), ..self }
    }

    /// Request that the lock open for `time` time units.
    pub fn open_for(self, time: i32) -> (r: Self)
        ensures
            r == (Command { open_for: Some(time), ..self }),
    {
        Command { open_for: Some(time), ..self }
    }

    /// Request that `text` be shown on the display.
    pub fn display_text(self, text: String) -> (r: Self)
        ensures
            r == (Command { display_text: Some(text), ..self }),
    {
        Command { display_text: Some(text), ..self }
    }

    /// Request that `text` be shown for `time` time units.
    pub fn display_text_for(self, text: String, time: i32) -> (r: Self)
        ensures
            r == (Command { display_text_for: Some((text, time)), ..self }),
    {
        Command { display_text_for: Some((text, time)), ..self }
    }

    /// Request the RGB lighting color.
    pub fn set_color(self, r: u8, g: u8, b: u8) -> (res: Self)
        ensures
            res == (Command { set_color: Some((r, g, b)), ..self }),
    {
        Command { set_color: Some((r, g, b)), ..self }
    }

    /// Request the RGB lighting color for `time` time units.
    pub fn set_color_for(self, r: u8, g: u8, b: u8, time: i32) -> (res: Self)
        ensures
            res == (Command { set_color_for: Some((r, g, b, time)), ..self }),
    {
        Command { set_color_for: Some((r, g, b, time)), ..self }
    }

    /// Request that the sound with `sound_id` play.
    pub fn play_sound(self, sound_id: i32) -> (r: Self)
        ensures
            r == (Command { play_sound: Some(sound_id), ..self }),
    {
        Command { play_sound: Some(sound_id), ..self }
    }

    /// Request that the display backlight turn on.
    pub fn backlight_on(self) -> (r: Self)
        ensures
            r == (Command { backlight_on: Some(true), ..self }),
    {
        Command { backlight_on: Some(true), ..self }
    }

    /// Request that the display backlight turn off.
    pub fn backlight_off(self) -> (r: Self)
        ensures
            r == (Command { backlight_off: Some(true), ..self }),
    {
        Command { backlight_off: Some(true), ..self }
    }

    /// Validate the frame and serialize it. When some exclusivity group has
    /// more than one slot filled the result is the conflict error and no
    /// partial string; otherwise it is exactly the wire form: the decimal
    /// mask, a semicolon, and each payload token closed by a semicolon.
    pub fn into_string(self) -> (r: Result<String, CommandBuildError>)
        ensures
            has_conflict(self) ==> (r matches Err(e) && e.message@
                == "Command contains elements that cannot coexist."@),
            !has_conflict(self) ==> (r matches Ok(s) && s@ == wire_of(self)),
    {
        if conflict_exec(&self) {
            return Err(CommandBuildError {
                message: "Command contains elements that cannot coexist.".to_owned(),
            });
        }
        let mask = mask_exec(&self);
        let mut out = u32_to_dec(mask as u32);
        out.append(";");
        proof {
            reveal_strlit(";");
            assert(out@ =~= dec_digits(mask_of(self) as int) + seq![';']);
        }
        append_payload(&mut out, &self);
        proof {
            assert(out@ =~= wire_of(self));
        }
        Ok(out)
    }
}

/// A decimal digit character.
pub open spec fn is_dec_digit(c: char) -> bool {
    '0' <= c && c <= '9'
}

/// Every character of `s` is a decimal digit.
pub open spec fn all_dec_digits(s: Seq<char>) -> bool {
    forall|i: int| 0 <= i < s.len() ==> is_dec_digit(s[i])
}

/// `s` is empty or ends with a semicolon.
pub open spec fn semi_terminated(s: Seq<char>) -> bool {
    s.len() == 0 || s[s.len() - 1] == ';'
}

proof fn lemma_dec_digits_shape(n: int)
    requires
        n >= 0,
    ensures
        dec_digits(n).len() >= 1,
        all_dec_digits(dec_digits(n)),
    decreases n,
{
    if n < 10 {
        assert(is_dec_digit(hex_digit(n)));
    } else {
        lemma_dec_digits_shape(n / 10);
        assert(is_dec_digit(hex_digit(n % 10)));
        assert forall|i: int| 0 <= i < dec_digits(n).len() implies is_dec_digit(
            dec_digits(n)[i],
        ) by {
            if i < dec_digits(n / 10).len() {
                assert(dec_digits(n)[i] == dec_digits(n / 10)[i]);
            } else {
                assert(dec_digits(n)[i] == hex_digit(n % 10));
            }
        }
    }
}

proof fn lemma_semi_terminated_concat(a: Seq<char>, b: Seq<char>)
    requires
        semi_terminated(a),
        semi_terminated(b),
    ensures
        semi_terminated(a + b),
{
    if b.len() == 0 {
        assert(a + b =~= a);
    } else {
        assert((a + b)[a.len() + b.len() - 1] == b[b.len() - 1]);
    }
}

proof fn lemma_opt_dec_token_semi(v: Option<i32>)
    ensures
        semi_terminated(opt_dec_token(v)),
{
    if let Some(t) = v {
        let s = dec_int(t as int) + seq![';'];
        assert(s[s.len() - 1] == ';');
    }
}

proof fn lemma_opt_text_token_semi(v: Option<String>)
    ensures
        semi_terminated(opt_text_token(v)),
{
    if let Some(t) = v {
        let s = t@ + seq![';'];
        assert(s[s.len() - 1] == ';');
    }
}

proof fn lemma_opt_text_dec_token_semi(v: Option<(String, i32)>)
    ensures
        semi_terminated(opt_text_dec_token(v)),
{
    if let Some(p) = v {
        let s = p.0@ + seq![';'] + dec_int(p.1 as int) + seq![';'];
        assert(s[s.len() - 1] == ';');
    }
}

proof fn lemma_opt_color_token_semi(v: Option<(u8, u8, u8)>)
    ensures
        semi_terminated(opt_color_token(v)),
{
    if let Some(p) = v {
        let s = color_token(p.0, p.1, p.2) + seq![';'];
        assert(s[s.len() - 1] == ';');
    }
}

proof fn lemma_opt_color_dec_token_semi(v: Option<(u8, u8, u8, i32)>)
    ensures
        semi_terminated(opt_color_dec_token(v)),
{
    if let Some(p) = v {
        let s = color_token(p.0, p.1, p.2) + seq![';'] + dec_int(p.3 as int) + seq![';'];
        assert(s[s.len() - 1] == ';');
    }
}

proof fn lemma_payload_semi_terminated(c: Command)
    ensures
        semi_terminated(payload_of(c)),
{
    lemma_opt_dec_token_semi(c.open_for);
    lemma_opt_text_token_semi(c.display_text);
    lemma_opt_text_dec_token_semi(c.display_text_for);
    lemma_opt_color_token_semi(c.set_color);
    lemma_opt_color_dec_token_semi(c.set_color_for);
    lemma_opt_dec_token_semi(c.play_sound);
    let t1 = opt_dec_token(c.open_for);
    let t2 = opt_text_token(c.display_text);
    let t3 = opt_text_dec_token(c.display_text_for);
    let t4 = opt_color_token(c.set_color);
    let t5 = opt_color_dec_token(c.set_color_for);
    let t6 = opt_dec_token(c.play_sound);
    lemma_semi_terminated_concat(t1, t2);
    lemma_semi_terminated_concat(t1 + t2, t3);
    lemma_semi_terminated_concat(t1 + t2 + t3, t4);
    lemma_semi_terminated_concat(t1 + t2 + t3 + t4, t5);
    lemma_semi_terminated_concat(t1 + t2 + t3 + t4 + t5, t6);
}

/// The shape every serialized frame has: a nonempty run of decimal digits —
/// the mask — then a semicolon, and after it only tokens each closed by a
/// semicolon, so the whole frame also ends with one.
#[verifier::rlimit(60)]
pub proof fn lemma_wire_shape(c: Command)
    ensures
        wire_of(c).len() >= 2,
        wire_of(c)[wire_of(c).len() - 1] == ';',
        1 <= dec_digits(mask_of(c) as int).len() < wire_of(c).len(),
        all_dec_digits(wire_of(c).subrange(0, dec_digits(mask_of(c) as int).len() as int)),
        wire_of(c)[dec_digits(mask_of(c) as int).len() as int] == ';',
{
    let d = dec_digits(mask_of(c) as int);
    let p = payload_of(c);
    let w = wire_of(c);
    lemma_dec_digits_shape(mask_of(c) as int);
    lemma_payload_semi_terminated(c);
    assert(w =~= (d + seq![';']) + p);
    assert(w[d.len() as int] == ';');
    if p.len() == 0 {
        assert(w[w.len() - 1] == ';');
    } else {
        assert(w[w.len() - 1] == p[p.len() - 1]);
    }
    assert(w.subrange(0, d.len() as int) =~= d);
}

} // verus!
