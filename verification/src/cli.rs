//! The command-line grammar: what each subcommand and argument asks for.

use vstd::prelude::*;
use crate::protocol::{GAIN_MAX, LIGHT_MODE_MAX};
use crate::text::{
    digit_value, lemma_parse_i32_round_trip, lemma_parsed_ends_in_digit, parse_i32, parse_id, parse_u16, spec_parse_i32,
    spec_digits, spec_parse_id, spec_parse_u16, zeros,
};
use crate::words::{
    folds_to, folds_to_char, is_long_flag, lemma_folds_unique, no_capitals, same_text,
    starts_with_char, word_is,
};

verus! {

/// Colour name of a light mode, in the order the light button cycles them.
pub open spec fn spec_light_mode_name(mode: u16) -> Seq<char> {
    if mode == 0 {
        "white"@
    } else if mode == 1 {
        "red"@
    } else if mode == 2 {
        "orange"@
    } else if mode == 3 {
        "lime"@
    } else if mode == 4 {
        "green"@
    } else if mode == 5 {
        "cyan"@
    } else if mode == 6 {
        "blue"@
    } else if mode == 7 {
        "purple"@
    } else if mode == 8 {
        "light blue"@
    } else {
        "?"@
    }
}

/// Name of a light mode, `?` for a mode the light does not have.
pub fn light_mode_name(mode: u16) -> (name: &'static str)
    ensures
        name@ == spec_light_mode_name(mode),
{
    match mode {
        0 => "white",
        1 => "red",
        2 => "orange",
        3 => "lime",
        4 => "green",
        5 => "cyan",
        6 => "blue",
        7 => "purple",
        8 => "light blue",
        _ => "?",
    }
}

/// The light mode whose colour name `name` is (ASCII capitals allowed).
pub open spec fn spec_light_mode_from_name(name: Seq<char>) -> Option<u16> {
    if folds_to(name, "white"@) {
        Some(0)
    } else if folds_to(name, "red"@) {
        Some(1)
    } else if folds_to(name, "orange"@) {
        Some(2)
    } else if folds_to(name, "lime"@) {
        Some(3)
    } else if folds_to(name, "green"@) {
        Some(4)
    } else if folds_to(name, "cyan"@) {
        Some(5)
    } else if folds_to(name, "blue"@) {
        Some(6)
    } else if folds_to(name, "purple"@) {
        Some(7)
    } else if folds_to(name, "light blue"@) {
        Some(8)
    } else {
        None
    }
}

/// Look a light mode up by its colour name.
pub fn light_mode_from_name(name: &str) -> (mode: Option<u16>)
    ensures
        mode == spec_light_mode_from_name(name@),
{
    if word_is(name, "white") {
        Some(0)
    } else if word_is(name, "red") {
        Some(1)
    } else if word_is(name, "orange") {
        Some(2)
    } else if word_is(name, "lime") {
        Some(3)
    } else if word_is(name, "green") {
        Some(4)
    } else if word_is(name, "cyan") {
        Some(5)
    } else if word_is(name, "blue") {
        Some(6)
    } else if word_is(name, "purple") {
        Some(7)
    } else if word_is(name, "light blue") {
        Some(8)
    } else {
        None
    }
}

/// Law: looking a mode's own colour name up gives that mode back, so the
/// names and the lookup agree for all nine modes.
pub proof fn lemma_light_mode_name_lookup(mode: u16)
    requires
        mode <= LIGHT_MODE_MAX,
    ensures
        spec_light_mode_from_name(spec_light_mode_name(mode)) == Some(mode),
{
    reveal_strlit("white");
    reveal_strlit("red");
    reveal_strlit("orange");
    reveal_strlit("lime");
    reveal_strlit("green");
    reveal_strlit("cyan");
    reveal_strlit("blue");
    reveal_strlit("purple");
    reveal_strlit("light blue");
    let n = spec_light_mode_name(mode);
    assert(folds_to(n, n));
    let names = seq!["white"@, "red"@, "orange"@, "lime"@, "green"@, "cyan"@, "blue"@, "purple"@, "light blue"@];
    assert(n == names[mode as int]);
    assert forall|j: int| 0 <= j < mode implies !folds_to(n, #[trigger] names[j]) by {
        let w = names[j];
        if n.len() == w.len() {
            assert(!folds_to_char(n[0], w[0]));
        }
    }
}

/// What `maono nr <arg>` asks for.
#[derive(PartialEq, Eq, Structural, Clone, Copy, Debug)]
pub enum NrRequest {
    /// Switch noise reduction off and reset its level.
    Off,
    /// Switch it on at this level (0 low, 1 mid, 2 high).
    Level(u16),
    /// Switch it on at the level the receiver already holds.
    KeepLevel,
    /// Not an argument `nr` takes.
    Invalid,
}

pub open spec fn spec_nr_request(arg: Seq<char>) -> NrRequest {
    if folds_to(arg, "off"@) || folds_to(arg, "0"@) || folds_to(arg, "false"@) || folds_to(
        arg,
        "no"@,
    ) {
        NrRequest::Off
    } else if folds_to(arg, "low"@) || folds_to(arg, "1"@) {
        NrRequest::Level(0)
    } else if folds_to(arg, "mid"@) || folds_to(arg, "2"@) {
        NrRequest::Level(1)
    } else if folds_to(arg, "high"@) || folds_to(arg, "3"@) {
        NrRequest::Level(2)
    } else if folds_to(arg, "on"@) {
        NrRequest::KeepLevel
    } else {
        NrRequest::Invalid
    }
}

/// Read the argument of `maono nr`: off/0/false/no, low/mid/high or 1-3, on.
pub fn nr_request(arg: &str) -> (r: NrRequest)
    ensures
        r == spec_nr_request(arg@),
        r matches NrRequest::Level(l) ==> l <= 2,
{
    if word_is(arg, "off") || word_is(arg, "0") || word_is(arg, "false") || word_is(arg, "no") {
        NrRequest::Off
    } else if word_is(arg, "low") || word_is(arg, "1") {
        NrRequest::Level(0)
    } else if word_is(arg, "mid") || word_is(arg, "2") {
        NrRequest::Level(1)
    } else if word_is(arg, "high") || word_is(arg, "3") {
        NrRequest::Level(2)
    } else if word_is(arg, "on") {
        NrRequest::KeepLevel
    } else {
        NrRequest::Invalid
    }
}

/// A text that folds to one word does not fold to another.
proof fn lemma_not_other_word(arg: Seq<char>, w1: Seq<char>, w2: Seq<char>)
    requires
        folds_to(arg, w1),
        no_capitals(w1),
        no_capitals(w2),
        w1 != w2,
    ensures
        !folds_to(arg, w2),
{
    if folds_to(arg, w2) {
        lemma_folds_unique(arg, w1, w2);
    }
}

proof fn lemma_nr_words_plain()
    ensures
        no_capitals("off"@),
        no_capitals("0"@),
        no_capitals("false"@),
        no_capitals("no"@),
        no_capitals("low"@),
        no_capitals("1"@),
        no_capitals("mid"@),
        no_capitals("2"@),
        no_capitals("high"@),
        no_capitals("3"@),
        no_capitals("on"@),
        "off"@.len() == 3 && "0"@.len() == 1 && "false"@.len() == 5 && "no"@.len() == 2,
        "low"@.len() == 3 && "1"@.len() == 1 && "mid"@.len() == 3 && "2"@.len() == 1,
        "high"@.len() == 4 && "3"@.len() == 1 && "on"@.len() == 2,
        "off"@[0] == 'o' && "0"@[0] == '0' && "no"@[0] == 'n' && "low"@[0] == 'l',
        "1"@[0] == '1' && "mid"@[0] == 'm' && "2"@[0] == '2' && "3"@[0] == '3',
        "on"@[1] == 'n',
        "no"@[1] == 'o',
{
    reveal_strlit("off");
    reveal_strlit("0");
    reveal_strlit("false");
    reveal_strlit("no");
    reveal_strlit("low");
    reveal_strlit("1");
    reveal_strlit("mid");
    reveal_strlit("2");
    reveal_strlit("high");
    reveal_strlit("3");
    reveal_strlit("on");
}

/// Law: what `maono nr <arg>` asks for, by the word given in any mix of
/// cases: `off`, `0`, `false` and `no` switch noise reduction off; `low` or
/// `1`, `mid` or `2`, `high` or `3` switch it on at level 0, 1 or 2; `on`
/// switches it on at the level the receiver holds; anything else is refused.
pub proof fn lemma_nr_words(arg: Seq<char>)
    ensures
        folds_to(arg, "off"@) || folds_to(arg, "0"@) || folds_to(arg, "false"@) || folds_to(
            arg,
            "no"@,
        ) ==> spec_nr_request(arg) == NrRequest::Off,
        folds_to(arg, "low"@) || folds_to(arg, "1"@) ==> spec_nr_request(arg) == NrRequest::Level(
            0,
        ),
        folds_to(arg, "mid"@) || folds_to(arg, "2"@) ==> spec_nr_request(arg) == NrRequest::Level(
            1,
        ),
        folds_to(arg, "high"@) || folds_to(arg, "3"@) ==> spec_nr_request(arg)
            == NrRequest::Level(2),
        folds_to(arg, "on"@) ==> spec_nr_request(arg) == NrRequest::KeepLevel,
{
    lemma_nr_words_plain();
    let off = seq!["off"@, "0"@, "false"@, "no"@];
    let later = seq!["low"@, "1"@, "mid"@, "2"@, "high"@, "3"@, "on"@];
    assert forall|i: int, j: int|
        0 <= i < 4 && 0 <= j < 7 && folds_to(arg, #[trigger] later[j]) implies !folds_to(
        arg,
        #[trigger] off[i],
    ) by {
        assert(later[j] != off[i]) by {
            if later[j].len() == off[i].len() {
                assert(later[j][0] != off[i][0] || later[j][1] != off[i][1]);
            }
        }
        lemma_not_other_word(arg, later[j], off[i]);
    }
    assert(off[0] == "off"@ && off[1] == "0"@ && off[2] == "false"@ && off[3] == "no"@);
    assert(later[0] == "low"@ && later[1] == "1"@ && later[2] == "mid"@ && later[3] == "2"@);
    assert(later[4] == "high"@ && later[5] == "3"@ && later[6] == "on"@);
    if folds_to(arg, "mid"@) {
        lemma_not_other_word(arg, "mid"@, "low"@);
        lemma_not_other_word(arg, "mid"@, "1"@);
    }
    if folds_to(arg, "2"@) {
        lemma_not_other_word(arg, "2"@, "low"@);
        lemma_not_other_word(arg, "2"@, "1"@);
    }
    if folds_to(arg, "high"@) || folds_to(arg, "3"@) || folds_to(arg, "on"@) {
        let w = if folds_to(arg, "high"@) {
            "high"@
        } else if folds_to(arg, "3"@) {
            "3"@
        } else {
            "on"@
        };
        lemma_not_other_word(arg, w, "low"@);
        lemma_not_other_word(arg, w, "1"@);
        lemma_not_other_word(arg, w, "mid"@);
        lemma_not_other_word(arg, w, "2"@);
        if w == "on"@ {
            lemma_not_other_word(arg, w, "high"@);
            lemma_not_other_word(arg, w, "3"@);
        }
    }
}

/// What `maono light <arg>` asks for.
#[derive(PartialEq, Eq, Structural, Clone, Copy, Debug)]
pub enum LightRequest {
    On,
    Off,
    /// Switch on and step to the next mode.
    Next,
    /// Switch on in this mode.
    Mode(u16),
    /// Not an argument `light` takes.
    Invalid,
}

pub open spec fn spec_light_request(arg: Seq<char>) -> LightRequest {
    if folds_to(arg, "on"@) {
        LightRequest::On
    } else if folds_to(arg, "off"@) {
        LightRequest::Off
    } else if folds_to(arg, "next"@) {
        LightRequest::Next
    } else {
        match spec_parse_u16(arg, 10) {
            Some(n) if n <= LIGHT_MODE_MAX => LightRequest::Mode(n),
            _ => match spec_light_mode_from_name(arg) {
                Some(n) => LightRequest::Mode(n),
                None => LightRequest::Invalid,
            },
        }
    }
}

/// Read the argument of `maono light`: on, off, next, a mode number 0-8, or
/// a colour name.
pub fn light_request(arg: &str) -> (r: LightRequest)
    ensures
        r == spec_light_request(arg@),
        r matches LightRequest::Mode(n) ==> n <= LIGHT_MODE_MAX,
{
    if word_is(arg, "on") {
        LightRequest::On
    } else if word_is(arg, "off") {
        LightRequest::Off
    } else if word_is(arg, "next") {
        LightRequest::Next
    } else {
        match parse_u16(arg) {
            Some(n) if n <= LIGHT_MODE_MAX => LightRequest::Mode(n),
            _ => match light_mode_from_name(arg) {
                Some(n) => LightRequest::Mode(n),
                None => LightRequest::Invalid,
            },
        }
    }
}

/// The nine colour names, in the order the light button cycles them.
pub open spec fn colour_names() -> Seq<Seq<char>> {
    seq![
        "white"@,
        "red"@,
        "orange"@,
        "lime"@,
        "green"@,
        "cyan"@,
        "blue"@,
        "purple"@,
        "light blue"@,
    ]
}

/// Law: the light modes 0 to 8 are named white, red, orange, lime, green,
/// cyan, blue, purple and light blue; any other mode shows as `?`.
pub proof fn lemma_light_mode_names(mode: u16)
    ensures
        mode <= 8 ==> spec_light_mode_name(mode) == colour_names()[mode as int],
        mode > 8 ==> spec_light_mode_name(mode) == "?"@,
{
}

proof fn lemma_light_words_plain()
    ensures
        forall|i: int| 0 <= i < 9 ==> no_capitals(#[trigger] colour_names()[i]),
        forall|i: int| 0 <= i < 9 ==> #[trigger] colour_names()[i].len() >= 3,
        forall|i: int|
            0 <= i < 9 ==> !(digit_value(#[trigger] colour_names()[i].last(), 10) is Some),
        forall|i: int, j: int|
            0 <= i < j < 9 ==> #[trigger] colour_names()[i] != #[trigger] colour_names()[j],
        forall|i: int|
            0 <= i < 9 ==> #[trigger] colour_names()[i] != "on"@ && colour_names()[i] != "off"@
                && colour_names()[i] != "next"@,
        no_capitals("on"@) && no_capitals("off"@) && no_capitals("next"@),
        "on"@ != "off"@ && "on"@ != "next"@ && "off"@ != "next"@,
        "on"@.last() == 'n' && "off"@.last() == 'f' && "next"@.last() == 't',
{
    reveal_strlit("white");
    reveal_strlit("red");
    reveal_strlit("orange");
    reveal_strlit("lime");
    reveal_strlit("green");
    reveal_strlit("cyan");
    reveal_strlit("blue");
    reveal_strlit("purple");
    reveal_strlit("light blue");
    reveal_strlit("on");
    reveal_strlit("off");
    reveal_strlit("next");
    let n = colour_names();
    assert forall|i: int, j: int| 0 <= i < j < 9 implies #[trigger] n[i] != #[trigger] n[j] by {
        if n[i].len() == n[j].len() {
            assert(n[i][0] != n[j][0] || n[i][1] != n[j][1]);
        }
    }
    assert forall|i: int| 0 <= i < 9 implies #[trigger] n[i] != "on"@ && n[i] != "off"@ && n[i]
        != "next"@ by {
        if n[i].len() == 3 {
            assert(n[i][0] != 'o');
        }
        if n[i].len() == 4 {
            assert(n[i][0] != 'n');
        }
    }
}

/// Law: what `maono light <arg>` asks for, by the word given in any mix of
/// cases: `on`, `off`, `next`; a mode number 0 to 8 selects that mode; a
/// colour name selects its mode.
pub proof fn lemma_light_words(arg: Seq<char>)
    ensures
        folds_to(arg, "on"@) ==> spec_light_request(arg) == LightRequest::On,
        folds_to(arg, "off"@) ==> spec_light_request(arg) == LightRequest::Off,
        folds_to(arg, "next"@) ==> spec_light_request(arg) == LightRequest::Next,
        forall|n: u16|
            spec_parse_u16(arg, 10) == Some(n) && n <= 8 ==> spec_light_request(arg)
                == LightRequest::Mode(n),
        forall|m: int|
            0 <= m < 9 && folds_to(arg, #[trigger] colour_names()[m]) ==> spec_light_request(arg)
                == LightRequest::Mode(m as u16),
{
    lemma_light_words_plain();
    let n = colour_names();
    if folds_to(arg, "off"@) {
        lemma_not_other_word(arg, "off"@, "on"@);
    }
    if folds_to(arg, "next"@) {
        lemma_not_other_word(arg, "next"@, "on"@);
        lemma_not_other_word(arg, "next"@, "off"@);
    }
    if spec_parse_u16(arg, 10) is Some {
        lemma_parsed_ends_in_digit(arg, 10, 0xFFFF);
        let c = arg.last();
        assert(0x30 <= c as u32 <= 0x39);
        if folds_to(arg, "on"@) {
            assert(folds_to_char(arg[arg.len() - 1], "on"@[1]));
        }
        if folds_to(arg, "off"@) {
            assert(folds_to_char(arg[arg.len() - 1], "off"@[2]));
        }
        if folds_to(arg, "next"@) {
            assert(folds_to_char(arg[arg.len() - 1], "next"@[3]));
        }
    }
    assert forall|m: int| 0 <= m < 9 && folds_to(arg, #[trigger] n[m]) implies spec_light_request(
        arg,
    ) == LightRequest::Mode(m as u16) by {
        let w = n[m];
        lemma_not_other_word(arg, w, "on"@);
        lemma_not_other_word(arg, w, "off"@);
        lemma_not_other_word(arg, w, "next"@);
        assert(w.len() >= 3);
        assert(folds_to_char(arg[arg.len() - 1], w[w.len() - 1]));
        assert(!(digit_value(w.last(), 10) is Some));
        if spec_parse_u16(arg, 10) is Some {
            lemma_parsed_ends_in_digit(arg, 10, 0xFFFF);
            assert(false);
        }
        assert forall|k: int| 0 <= k < m implies !folds_to(arg, #[trigger] n[k]) by {
            lemma_not_other_word(arg, w, n[k]);
        }
        assert(n[0] == "white"@ && n[1] == "red"@ && n[2] == "orange"@ && n[3] == "lime"@);
        assert(n[4] == "green"@ && n[5] == "cyan"@ && n[6] == "blue"@ && n[7] == "purple"@);
        assert(n[8] == "light blue"@);
    }
}

/// The mode `light next` selects after `current` (a missing reading counts
/// as mode 0). The increment wraps at the top of the 16-bit range.
pub open spec fn spec_next_light_mode(current: Option<u16>) -> u16 {
    let c: u16 = match current {
        Some(v) => v,
        None => 0,
    };
    (((c + 1) % 0x10000) % (LIGHT_MODE_MAX + 1)) as u16
}

pub fn next_light_mode(current: Option<u16>) -> (m: u16)
    ensures
        m == spec_next_light_mode(current),
        m <= LIGHT_MODE_MAX,
{
    let c = match current {
        Some(v) => v,
        None => 0,
    };
    c.wrapping_add(1) % (LIGHT_MODE_MAX + 1)
}

/// The mute state `toggle` asks for.
pub open spec fn spec_toggled_mute(current: Option<u16>) -> bool {
    !(current matches Some(v) && v != 0)
}

/// Law: `toggle` unmutes a muted microphone (any non-zero reading) and mutes
/// a live one, a missing reading counting as live.
pub proof fn lemma_toggled_mute(current: Option<u16>)
    ensures
        current == Some(0u16) ==> spec_toggled_mute(current),
        (current matches Some(v) && v != 0) ==> !spec_toggled_mute(current),
        current is None ==> spec_toggled_mute(current),
{
}

/// The mute state `toggle` asks for: the opposite of the current reading,
/// where a missing reading counts as live.
pub fn toggled_mute(current: Option<u16>) -> (want: bool)
    ensures
        want == !(current matches Some(v) && v != 0),
        want == spec_toggled_mute(current),
{
    match current {
        Some(v) => v == 0,
        None => true,
    }
}

/// What `maono gain <arg>` asks for.
#[derive(PartialEq, Eq, Structural, Clone, Copy, Debug)]
pub enum GainArg {
    /// `+n` or `-n`: move by this much (0 when the number does not parse).
    By(i32),
    /// `n`: go to this value; `None` when the number does not parse, which
    /// leaves the gain where it is.
    To(Option<i32>),
}

pub open spec fn spec_gain_arg(arg: Seq<char>) -> GainArg {
    if arg.len() > 0 && (arg[0] == '+' || arg[0] == '-') {
        GainArg::By(
            match spec_parse_i32(arg) {
                Some(n) => n,
                None => 0,
            },
        )
    } else {
        GainArg::To(spec_parse_i32(arg))
    }
}

pub fn gain_arg(arg: &str) -> (g: GainArg)
    ensures
        g == spec_gain_arg(arg@),
{
    if starts_with_char(arg, '+') || starts_with_char(arg, '-') {
        GainArg::By(
            match parse_i32(arg) {
                Some(n) => n,
                None => 0,
            },
        )
    } else {
        GainArg::To(parse_i32(arg))
    }
}

/// `x` wrapped into the `i32` range, for a sum of two `i32`s.
pub open spec fn wrap_i32(x: int) -> int {
    if x > 0x7FFF_FFFF {
        x - 0x1_0000_0000
    } else if x < -0x8000_0000 {
        x + 0x1_0000_0000
    } else {
        x
    }
}

/// Clamp to the gain range.
pub open spec fn clamp_gain(x: int) -> u16 {
    if x < 0 {
        0
    } else if x > GAIN_MAX {
        GAIN_MAX
    } else {
        x as u16
    }
}

/// The gain `maono gain <arg>` sets, from the current gain. A relative step
/// is added with 32-bit wrap-around, and the result is clamped to 0-20.
pub open spec fn spec_gain_target(current: u16, arg: GainArg) -> u16 {
    match arg {
        GainArg::By(d) => clamp_gain(wrap_i32(current + d)),
        GainArg::To(Some(n)) => clamp_gain(n as int),
        GainArg::To(None) => clamp_gain(current as int),
    }
}

pub fn gain_target(current: u16, arg: GainArg) -> (g: u16)
    ensures
        g == spec_gain_target(current, arg),
        g <= GAIN_MAX,
{
    let want: i32 = match arg {
        GainArg::By(d) => (current as i32).wrapping_add(d),
        GainArg::To(Some(n)) => n,
        GainArg::To(None) => current as i32,
    };
    if want < 0 {
        0
    } else if want > GAIN_MAX as i32 {
        GAIN_MAX
    } else {
        want as u16
    }
}

/// Law: `maono gain n` sets the gain to `n` when `n` is in range, and to the
/// nearer end of the range otherwise, whatever the current gain.
pub proof fn lemma_gain_to(current: u16, n: i32)
    ensures
        0 <= n <= 20 ==> spec_gain_target(current, GainArg::To(Some(n))) == n,
        n < 0 ==> spec_gain_target(current, GainArg::To(Some(n))) == 0,
        n > 20 ==> spec_gain_target(current, GainArg::To(Some(n))) == 20,
{
}

/// Law: `maono gain` with an argument that does not parse leaves an
/// in-range gain where it is.
pub proof fn lemma_gain_unparsed(current: u16)
    ensures
        current <= 20 ==> spec_gain_target(current, GainArg::To(None)) == current,
        current > 20 ==> spec_gain_target(current, GainArg::To(None)) == 20,
{
}

/// Law: `maono gain +d` / `-d` moves the gain by `d`, stopping at the ends of
/// the range (when the sum fits in 32 bits, as it does for every gain the
/// receiver reports and every step short of two billion).
pub proof fn lemma_gain_by(current: u16, d: i32)
    requires
        current + d <= 0x7FFF_FFFF,
    ensures
        0 <= current + d <= 20 ==> spec_gain_target(current, GainArg::By(d)) == current + d,
        current + d < 0 ==> spec_gain_target(current, GainArg::By(d)) == 0,
        current + d > 20 ==> spec_gain_target(current, GainArg::By(d)) == 20,
{
}

/// Is the argument a `--` flag.
pub open spec fn is_flag(w: Seq<char>) -> bool {
    w.len() >= 2 && w[0] == '-' && w[1] == '-'
}

/// Indices of the positional (non-flag) arguments, in order.
pub open spec fn positions(a: Seq<Seq<char>>) -> Seq<int>
    decreases a.len(),
{
    if a.len() == 0 {
        Seq::empty()
    } else if is_flag(a.last()) {
        positions(a.drop_last())
    } else {
        positions(a.drop_last()).push(a.len() - 1)
    }
}

/// Is `f` among the arguments.
pub open spec fn has_arg(a: Seq<Seq<char>>, f: Seq<char>) -> bool {
    exists|i: int| 0 <= i < a.len() && a[i] == f
}

/// The text of each argument.
pub open spec fn arg_texts(args: Seq<String>) -> Seq<Seq<char>> {
    args.map_values(|s: String| s@)
}

/// What one invocation of the program asks for.
#[derive(PartialEq, Eq, Structural, Clone, Copy, Debug)]
pub enum Command {
    /// Print the usage text.
    Help,
    /// Open the terminal UI.
    Tui,
    /// Install the bar widget, replacing an existing one when `force`.
    ShellInstall { force: bool },
    /// Remove the bar widget.
    ShellUninstall,
    /// `shell` without install or uninstall.
    ShellUsage,
    /// Report battery, mute, gain and noise reduction.
    Status { json: bool },
    Mute,
    Unmute,
    Toggle,
    /// Report the gain.
    GainShow,
    /// Change the gain.
    GainSet(GainArg),
    /// Report noise reduction.
    NrShow,
    /// Change noise reduction.
    Nr(NrRequest),
    /// Report the light.
    LightShow,
    /// Change the light.
    Light(LightRequest),
    /// Read one raw field.
    ReadField { id: u16 },
    /// `get` without a readable id.
    ReadUsage,
    /// Write one raw field.
    WriteField { id: u16, value: u16 },
    /// `set` without a readable id and value.
    WriteUsage,
    /// Read every field from `lo` to `hi`, both included.
    Scan { lo: u16, hi: u16 },
    /// A command word the program does not know; the index of that argument.
    Unknown(usize),
}

/// The command a list of arguments (without the program name) asks for.
/// Arguments starting with `--` are flags; the first other argument is the
/// command word, and none means the terminal UI.
pub open spec fn spec_command(a: Seq<Seq<char>>) -> Command {
    let p = positions(a);
    let has_word = p.len() > 0;
    let word = a[p[0]];
    if (has_word && (word == "-h"@ || word == "help"@)) || has_arg(a, "--help"@) {
        Command::Help
    } else if !has_word || word == "tui"@ {
        Command::Tui
    } else if word == "shell"@ {
        if p.len() > 1 && a[p[1]] == "install"@ {
            Command::ShellInstall { force: has_arg(a, "--force"@) }
        } else if p.len() > 1 && a[p[1]] == "uninstall"@ {
            Command::ShellUninstall
        } else {
            Command::ShellUsage
        }
    } else if word == "status"@ {
        Command::Status { json: has_arg(a, "--json"@) }
    } else if word == "mute"@ {
        Command::Mute
    } else if word == "unmute"@ {
        Command::Unmute
    } else if word == "toggle"@ {
        Command::Toggle
    } else if word == "gain"@ {
        if p.len() > 1 {
            Command::GainSet(spec_gain_arg(a[p[1]]))
        } else {
            Command::GainShow
        }
    } else if word == "nr"@ {
        if p.len() > 1 {
            Command::Nr(spec_nr_request(a[p[1]]))
        } else {
            Command::NrShow
        }
    } else if word == "light"@ {
        if p.len() > 1 {
            Command::Light(spec_light_request(a[p[1]]))
        } else {
            Command::LightShow
        }
    } else if word == "get"@ {
        match (if p.len() > 1 {
            spec_parse_id(a[p[1]])
        } else {
            None
        }) {
            Some(id) => Command::ReadField { id },
            None => Command::ReadUsage,
        }
    } else if word == "set"@ {
        if p.len() > 2 {
            match (spec_parse_id(a[p[1]]), spec_parse_id(a[p[2]])) {
                (Some(i), Some(v)) => Command::WriteField { id: i, value: v },
                _ => Command::WriteUsage,
            }
        } else {
            Command::WriteUsage
        }
    } else if word == "scan"@ {
        Command::Scan {
            lo: match (if p.len() > 1 {
                spec_parse_id(a[p[1]])
            } else {
                None
            }) {
                Some(v) => v,
                None => 0x2000,
            },
            hi: match (if p.len() > 2 {
                spec_parse_id(a[p[2]])
            } else {
                None
            }) {
                Some(v) => v,
                None => 0x20FF,
            },
        }
    } else {
        Command::Unknown(p[0] as usize)
    }
}

/// Indices of the arguments that are not `--` flags.
pub fn positional(args: &Vec<String>) -> (p: Vec<usize>)
    ensures
        p@.len() == positions(arg_texts(args@)).len(),
        forall|k: int| 0 <= k < p@.len() ==> p@[k] as int == positions(arg_texts(args@))[k],
        forall|k: int| 0 <= k < p@.len() ==> p@[k] < args@.len(),
{
    let ghost a = arg_texts(args@);
    let mut p: Vec<usize> = Vec::new();
    let mut i: usize = 0;
    while i < args.len()
        invariant
            i <= args@.len(),
            a == arg_texts(args@),
            p@.len() == positions(a.take(i as int)).len(),
            forall|k: int| 0 <= k < p@.len() ==> p@[k] as int == positions(a.take(i as int))[k],
            forall|k: int| 0 <= k < p@.len() ==> p@[k] < i,
        decreases args@.len() - i,
    {
        assert(a.take(i as int + 1).drop_last() =~= a.take(i as int));
        assert(a.take(i as int + 1).last() == args@[i as int]@);
        if !is_long_flag(args[i].as_str()) {
            p.push(i);
        }
        i = i + 1;
    }
    assert(a.take(i as int) =~= a);
    p
}

/// Is the argument `f` present.
fn has_flag(args: &Vec<String>, f: &str) -> (b: bool)
    ensures
        b == has_arg(arg_texts(args@), f@),
{
    let ghost a = arg_texts(args@);
    let mut i: usize = 0;
    while i < args.len()
        invariant
            i <= args@.len(),
            a == arg_texts(args@),
            forall|j: int| 0 <= j < i ==> a[j] != f@,
        decreases args@.len() - i,
    {
        if same_text(args[i].as_str(), f) {
            assert(a[i as int] == f@);
            return true;
        }
        i = i + 1;
    }
    false
}

/// Work out what the arguments (without the program name) ask for.
pub fn command(args: &Vec<String>) -> (c: Command)
    ensures
        c == spec_command(arg_texts(args@)),
        c matches Command::Unknown(i) ==> i < args@.len(),
{
    let ghost a = arg_texts(args@);
    let p = positional(args);
    let ghost ps = positions(a);
    let has_word = p.len() > 0;
    let help = has_flag(args, "--help");
    if has_word {
        let w = args[p[0]].as_str();
        assert(w@ == a[ps[0]]);
        if same_text(w, "-h") || same_text(w, "help") || help {
            return Command::Help;
        }
        if same_text(w, "tui") {
            return Command::Tui;
        }
        let arg1: Option<&str> = if p.len() > 1 {
            Some(args[p[1]].as_str())
        } else {
            None
        };
        let arg2: Option<&str> = if p.len() > 2 {
            Some(args[p[2]].as_str())
        } else {
            None
        };
        assert(arg1 matches Some(x) ==> x@ == a[ps[1]]);
        assert(arg2 matches Some(x) ==> x@ == a[ps[2]]);
        if same_text(w, "shell") {
            match arg1 {
                Some(x) => {
                    if same_text(x, "install") {
                        return Command::ShellInstall { force: has_flag(args, "--force") };
                    } else if same_text(x, "uninstall") {
                        return Command::ShellUninstall;
                    }
                },
                None => {},
            }
            return Command::ShellUsage;
        }
        if same_text(w, "status") {
            return Command::Status { json: has_flag(args, "--json") };
        }
        if same_text(w, "mute") {
            return Command::Mute;
        }
        if same_text(w, "unmute") {
            return Command::Unmute;
        }
        if same_text(w, "toggle") {
            return Command::Toggle;
        }
        if same_text(w, "gain") {
            return match arg1 {
                Some(x) => Command::GainSet(gain_arg(x)),
                None => Command::GainShow,
            };
        }
        if same_text(w, "nr") {
            return match arg1 {
                Some(x) => Command::Nr(nr_request(x)),
                None => Command::NrShow,
            };
        }
        if same_text(w, "light") {
            return match arg1 {
                Some(x) => Command::Light(light_request(x)),
                None => Command::LightShow,
            };
        }
        if same_text(w, "get") {
            let id = match arg1 {
                Some(x) => parse_id(x),
                None => None,
            };
            return match id {
                Some(id) => Command::ReadField { id },
                None => Command::ReadUsage,
            };
        }
        if same_text(w, "set") {
            return match (arg1, arg2) {
                (Some(x), Some(y)) => match (parse_id(x), parse_id(y)) {
                    (Some(i), Some(v)) => Command::WriteField { id: i, value: v },
                    _ => Command::WriteUsage,
                },
                _ => Command::WriteUsage,
            };
        }
        if same_text(w, "scan") {
            let lo = match arg1 {
                Some(x) => match parse_id(x) {
                    Some(v) => v,
                    None => 0x2000,
                },
                None => 0x2000,
            };
            let hi = match arg2 {
                Some(x) => match parse_id(x) {
                    Some(v) => v,
                    None => 0x20FF,
                },
                None => 0x20FF,
            };
            return Command::Scan { lo, hi };
        }
        Command::Unknown(p[0])
    } else if help {
        Command::Help
    } else {
        Command::Tui
    }
}

/// Law: the positional arguments are exactly the ones that are not `--`
/// flags, by index, in the order given.
pub proof fn lemma_positions(a: Seq<Seq<char>>)
    ensures
        forall|k: int|
            0 <= k < positions(a).len() ==> 0 <= #[trigger] positions(a)[k] < a.len() && !is_flag(
                a[positions(a)[k]],
            ),
        forall|k: int, l: int|
            0 <= k < l < positions(a).len() ==> #[trigger] positions(a)[k] < #[trigger] positions(
                a,
            )[l],
        forall|i: int|
            0 <= i < a.len() && !is_flag(#[trigger] a[i]) ==> exists|k: int|
                0 <= k < positions(a).len() && #[trigger] positions(a)[k] == i,
    decreases a.len(),
{
    if a.len() > 0 {
        let b = a.drop_last();
        lemma_positions(b);
        let pb = positions(b);
        assert forall|k: int| 0 <= k < pb.len() implies #[trigger] a[pb[k]] == b[pb[k]] by {}
        assert forall|i: int| 0 <= i < a.len() && !is_flag(#[trigger] a[i]) implies exists|k: int|
            0 <= k < positions(a).len() && #[trigger] positions(a)[k] == i by {
            if i < a.len() - 1 {
                assert(a[i] == b[i]);
                let k = choose|k: int| 0 <= k < pb.len() && #[trigger] pb[k] == i;
                assert(positions(a)[k] == i);
            } else {
                assert(positions(a)[pb.len() as int] == i);
            }
        }
    }
}

/// The words of the command line, as written.
proof fn lemma_command_words_plain()
    ensures
        "tui"@.len() == 3 && "help"@.len() == 4 && "-h"@.len() == 2 && "shell"@.len() == 5,
        "status"@.len() == 6 && "mute"@.len() == 4 && "unmute"@.len() == 6,
        "toggle"@.len() == 6 && "gain"@.len() == 4 && "nr"@.len() == 2 && "light"@.len() == 5,
        "get"@.len() == 3 && "set"@.len() == 3 && "scan"@.len() == 4,
        "install"@.len() == 7 && "uninstall"@.len() == 9,
        "--help"@.len() == 6 && "--json"@.len() == 6 && "--force"@.len() == 7,
        "--help"@[0] == '-' && "--help"@[1] == '-' && "--json"@[0] == '-' && "--json"@[1] == '-',
        "--force"@[0] == '-' && "--force"@[1] == '-' && "--json"@[2] == 'j',
        "--help"@[2] == 'h' && "--force"@[2] == 'f',
        "-h"@[0] == '-' && "-h"@[1] == 'h',
        "tui"@[0] == 't' && "help"@[0] == 'h' && "shell"@[0] == 's' && "status"@[0] == 's',
        "status"@[1] == 't' && "shell"@[1] == 'h' && "mute"@[0] == 'm' && "unmute"@[0] == 'u',
        "toggle"@[0] == 't' && "gain"@[0] == 'g' && "nr"@[0] == 'n' && "light"@[0] == 'l',
        "get"@[0] == 'g' && "set"@[0] == 's' && "scan"@[0] == 's' && "install"@[0] == 'i',
        "uninstall"@[0] == 'u' && "status"@[0] == 's',
{
    reveal_strlit("tui");
    reveal_strlit("help");
    reveal_strlit("-h");
    reveal_strlit("shell");
    reveal_strlit("status");
    reveal_strlit("mute");
    reveal_strlit("unmute");
    reveal_strlit("toggle");
    reveal_strlit("gain");
    reveal_strlit("nr");
    reveal_strlit("light");
    reveal_strlit("get");
    reveal_strlit("set");
    reveal_strlit("scan");
    reveal_strlit("install");
    reveal_strlit("uninstall");
    reveal_strlit("--help");
    reveal_strlit("--json");
    reveal_strlit("--force");
}

proof fn lemma_one_arg(w: Seq<char>, f: Seq<char>)
    requires
        !is_flag(w),
    ensures
        positions(seq![w]) == seq![0int],
        has_arg(seq![w], f) == (w == f),
{
    let a = seq![w];
    assert(a.drop_last() =~= Seq::<Seq<char>>::empty());
    assert(positions(Seq::<Seq<char>>::empty()) =~= Seq::<int>::empty());
    assert(a.last() == w);
    assert(positions(a) == positions(a.drop_last()).push(0));
    assert(positions(a) =~= seq![0int]);
    if w == f {
        assert(seq![w][0] == f);
    }
}

proof fn lemma_two_args(w: Seq<char>, x: Seq<char>, f: Seq<char>)
    requires
        !is_flag(w),
    ensures
        !is_flag(x) ==> positions(seq![w, x]) == seq![0int, 1],
        is_flag(x) ==> positions(seq![w, x]) == seq![0int],
        has_arg(seq![w, x], f) == (w == f || x == f),
{
    let a = seq![w, x];
    assert(a.drop_last() =~= seq![w]);
    lemma_one_arg(w, f);
    assert(positions(a) =~= if is_flag(x) {
        seq![0int]
    } else {
        seq![0int, 1]
    });
    if w == f {
        assert(a[0] == f);
    }
    if x == f {
        assert(a[1] == f);
    }
}

proof fn lemma_three_args(w: Seq<char>, x: Seq<char>, y: Seq<char>, f: Seq<char>)
    requires
        !is_flag(w),
        !is_flag(x),
    ensures
        !is_flag(y) ==> positions(seq![w, x, y]) == seq![0int, 1, 2],
        is_flag(y) ==> positions(seq![w, x, y]) == seq![0int, 1],
        has_arg(seq![w, x, y], f) == (w == f || x == f || y == f),
{
    let a = seq![w, x, y];
    assert(a.drop_last() =~= seq![w, x]);
    lemma_two_args(w, x, f);
    assert(positions(a) =~= if is_flag(y) {
        seq![0int, 1]
    } else {
        seq![0int, 1, 2]
    });
    if w == f {
        assert(a[0] == f);
    }
    if x == f {
        assert(a[1] == f);
    }
    if y == f {
        assert(a[2] == f);
    }
}

/// Law: the subcommands that act at once: no word (or `tui`) opens the
/// terminal panel, `help` or `-h` prints the usage, `status` reports, and
/// `mute`, `unmute` and `toggle` act on mute.
pub proof fn lemma_command_actions()
    ensures
        spec_command(seq![]) == Command::Tui,
        spec_command(seq!["tui"@]) == Command::Tui,
        spec_command(seq!["help"@]) == Command::Help,
        spec_command(seq!["-h"@]) == Command::Help,
        spec_command(seq!["status"@]) == (Command::Status { json: false }),
        spec_command(seq!["mute"@]) == Command::Mute,
        spec_command(seq!["unmute"@]) == Command::Unmute,
        spec_command(seq!["toggle"@]) == Command::Toggle,
{
    lemma_command_words_plain();
    assert(positions(Seq::<Seq<char>>::empty()).len() == 0);
    assert(!has_arg(Seq::<Seq<char>>::empty(), "--help"@));
    lemma_one_arg("tui"@, "--help"@);
    lemma_one_arg("help"@, "--help"@);
    lemma_one_arg("-h"@, "--help"@);
    lemma_one_arg("status"@, "--help"@);
    lemma_one_arg("status"@, "--json"@);
    lemma_one_arg("mute"@, "--help"@);
    lemma_one_arg("unmute"@, "--help"@);
    lemma_one_arg("toggle"@, "--help"@);
}

/// Law: the subcommands given without their argument: `gain`, `nr` and
/// `light` report, `get` and `set` print their usage, `scan` sweeps 0x2000
/// to 0x20ff, and `shell` asks for `install` or `uninstall`.
pub proof fn lemma_command_bare()
    ensures
        spec_command(seq!["gain"@]) == Command::GainShow,
        spec_command(seq!["nr"@]) == Command::NrShow,
        spec_command(seq!["light"@]) == Command::LightShow,
        spec_command(seq!["get"@]) == Command::ReadUsage,
        spec_command(seq!["set"@]) == Command::WriteUsage,
        spec_command(seq!["scan"@]) == (Command::Scan { lo: 0x2000, hi: 0x20FF }),
        spec_command(seq!["shell"@]) == Command::ShellUsage,
{
    lemma_command_words_plain();
    lemma_one_arg("gain"@, "--help"@);
    lemma_one_arg("nr"@, "--help"@);
    lemma_one_arg("light"@, "--help"@);
    lemma_one_arg("get"@, "--help"@);
    lemma_one_arg("set"@, "--help"@);
    lemma_one_arg("scan"@, "--help"@);
    lemma_one_arg("shell"@, "--help"@);
}

/// Law: the flags: `--help` alone prints the usage, `--json` makes `status`
/// report as JSON wherever it stands, and `shell install` replaces an
/// installed widget only with `--force`; `shell uninstall` removes it.
pub proof fn lemma_command_flags()
    ensures
        spec_command(seq!["--help"@]) == Command::Help,
        spec_command(seq!["status"@, "--json"@]) == (Command::Status { json: true }),
        spec_command(seq!["--json"@, "status"@]) == (Command::Status { json: true }),
        spec_command(seq!["shell"@, "install"@]) == (Command::ShellInstall { force: false }),
        spec_command(seq!["shell"@, "install"@, "--force"@]) == (Command::ShellInstall {
            force: true,
        }),
        spec_command(seq!["shell"@, "uninstall"@]) == Command::ShellUninstall,
{
    lemma_command_words_plain();
    let h = seq!["--help"@];
    assert(h.drop_last() =~= Seq::<Seq<char>>::empty());
    assert(positions(Seq::<Seq<char>>::empty()) =~= Seq::<int>::empty());
    assert(h.last() == "--help"@);
    assert(is_flag("--help"@));
    assert(positions(h) == positions(h.drop_last()));
    assert(positions(h).len() == 0);
    assert(has_arg(h, "--help"@)) by {
        assert(h[0] == "--help"@);
    }
    lemma_two_args("status"@, "--json"@, "--help"@);
    lemma_two_args("status"@, "--json"@, "--json"@);
    let j = seq!["--json"@, "status"@];
    assert(j.drop_last() =~= seq!["--json"@]);
    assert(seq!["--json"@].drop_last() =~= Seq::<Seq<char>>::empty());
    assert(j.last() == "status"@);
    assert(seq!["--json"@].last() == "--json"@);
    assert(is_flag("--json"@));
    assert(positions(seq!["--json"@]) == positions(seq!["--json"@].drop_last()));
    assert(positions(j) == positions(j.drop_last()).push(1));
    assert(positions(j) =~= seq![1int]);
    assert(has_arg(j, "--json"@)) by {
        assert(j[0] == "--json"@);
    }
    assert(!has_arg(j, "--help"@));
    lemma_two_args("shell"@, "install"@, "--help"@);
    lemma_two_args("shell"@, "install"@, "--force"@);
    lemma_two_args("shell"@, "uninstall"@, "--help"@);
    lemma_three_args("shell"@, "install"@, "--force"@, "--help"@);
    lemma_three_args("shell"@, "install"@, "--force"@, "--force"@);
}

/// Law: the subcommands with their arguments: `gain <arg>` sets the gain by
/// its argument, `nr <arg>` and `light <arg>` ask for what their word says,
/// `get <id>` reads the field the id names (its usage when the id does not
/// parse), `set <id> <value>` writes it (its usage unless both parse), and
/// `scan <lo> <hi>` sweeps the range, either end defaulting to 0x2000 and
/// 0x20ff when it does not parse.
pub proof fn lemma_command_arguments(x: Seq<char>, y: Seq<char>)
    requires
        !is_flag(x),
        !is_flag(y),
    ensures
        spec_command(seq!["gain"@, x]) == Command::GainSet(spec_gain_arg(x)),
        spec_command(seq!["nr"@, x]) == Command::Nr(spec_nr_request(x)),
        spec_command(seq!["light"@, x]) == Command::Light(spec_light_request(x)),
        spec_command(seq!["get"@, x]) == match spec_parse_id(x) {
            Some(id) => Command::ReadField { id },
            None => Command::ReadUsage,
        },
        spec_command(seq!["set"@, x, y]) == match (spec_parse_id(x), spec_parse_id(y)) {
            (Some(id), Some(value)) => Command::WriteField { id, value },
            _ => Command::WriteUsage,
        },
        spec_command(seq!["set"@, x]) == Command::WriteUsage,
        spec_command(seq!["scan"@, x, y]) == (Command::Scan {
            lo: match spec_parse_id(x) {
                Some(v) => v,
                None => 0x2000,
            },
            hi: match spec_parse_id(y) {
                Some(v) => v,
                None => 0x20FF,
            },
        }),
{
    lemma_command_words_plain();
    lemma_two_args("gain"@, x, "--help"@);
    lemma_two_args("nr"@, x, "--help"@);
    lemma_two_args("light"@, x, "--help"@);
    lemma_two_args("get"@, x, "--help"@);
    lemma_two_args("set"@, x, "--help"@);
    lemma_three_args("set"@, x, y, "--help"@);
    lemma_three_args("scan"@, x, y, "--help"@);
    assert(x != "--help"@ && y != "--help"@);
}

/// Law: a first word that names no subcommand is reported as unknown, by its
/// position.
pub proof fn lemma_command_unknown(w: Seq<char>)
    requires
        !is_flag(w),
        w != "-h"@ && w != "help"@ && w != "tui"@ && w != "shell"@ && w != "status"@,
        w != "mute"@ && w != "unmute"@ && w != "toggle"@ && w != "gain"@ && w != "nr"@,
        w != "light"@ && w != "get"@ && w != "set"@ && w != "scan"@,
    ensures
        spec_command(seq![w]) == Command::Unknown(0),
{
    lemma_command_words_plain();
    lemma_one_arg(w, "--help"@);
}

/// Law: `maono gain n` goes to `n`, `maono gain +n` steps up by `n` and
/// `maono gain -n` steps down by `n`, for any decimal `n` that fits 32 bits.
pub proof fn lemma_gain_words(n: nat, pad: nat)
    requires
        n <= 0x7FFF_FFFF,
    ensures
        spec_gain_arg(zeros(pad) + spec_digits(n, 10, false)) == GainArg::To(Some(n as i32)),
        spec_gain_arg(seq!['+'] + zeros(pad) + spec_digits(n, 10, false)) == GainArg::By(
            n as i32,
        ),
        spec_gain_arg(seq!['-'] + zeros(pad) + spec_digits(n, 10, false)) == GainArg::By(
            (0 - n) as i32,
        ),
{
    lemma_parse_i32_round_trip(n, pad);
    crate::text::lemma_padded(n, pad, 10, false);
}

/// Law: `light next` moves to the following mode, from the last back to the
/// first, a missing reading counting as mode 0.
pub proof fn lemma_next_light_mode(current: Option<u16>)
    ensures
        current == Option::<u16>::None ==> spec_next_light_mode(current) == 1,
        forall|c: u16| current == Some(c) && c < 8 ==> spec_next_light_mode(current) == c + 1,
        current == Some(8u16) ==> spec_next_light_mode(current) == 0,
{
}

} // verus!
