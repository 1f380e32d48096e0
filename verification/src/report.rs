//! The text the command-line front end prints: the status report, the
//! status-bar JSON line, and the one-line answers of the other subcommands.

use vstd::prelude::*;
use crate::cli::{light_mode_name, spec_light_mode_name};
use crate::protocol::GAIN_MAX;
use crate::device::contains_text;
use crate::text::{digit_char, lemma_parse_id_round_trip, spec_digits, spec_parse_id, zeros};

verus! {

/// One decimal digit as text.
pub open spec fn digit_text(d: nat) -> Seq<char> {
    if d == 0 {
        "0"@
    } else if d == 1 {
        "1"@
    } else if d == 2 {
        "2"@
    } else if d == 3 {
        "3"@
    } else if d == 4 {
        "4"@
    } else if d == 5 {
        "5"@
    } else if d == 6 {
        "6"@
    } else if d == 7 {
        "7"@
    } else if d == 8 {
        "8"@
    } else {
        "9"@
    }
}

/// One lower-case hexadecimal digit as text.
pub open spec fn hex_digit_text(d: nat) -> Seq<char> {
    if d < 10 {
        digit_text(d)
    } else if d == 10 {
        "a"@
    } else if d == 11 {
        "b"@
    } else if d == 12 {
        "c"@
    } else if d == 13 {
        "d"@
    } else if d == 14 {
        "e"@
    } else {
        "f"@
    }
}

/// Decimal text of `n`, without leading zeros.
pub open spec fn spec_decimal(n: nat) -> Seq<char>
    decreases n,
{
    if n < 10 {
        digit_text(n)
    } else {
        spec_decimal(n / 10) + digit_text(n % 10)
    }
}

/// Four lower-case hexadecimal digits of `v`, zero-padded.
pub open spec fn spec_hex4(v: u16) -> Seq<char> {
    hex_digit_text((v / 4096) as nat) + hex_digit_text(((v / 256) % 16) as nat)
        + hex_digit_text(((v / 16) % 16) as nat) + hex_digit_text((v % 16) as nat)
}

fn digit_str(d: u16) -> (s: &'static str)
    requires
        d < 10,
    ensures
        s@ == digit_text(d as nat),
{
    match d {
        0 => "0",
        1 => "1",
        2 => "2",
        3 => "3",
        4 => "4",
        5 => "5",
        6 => "6",
        7 => "7",
        8 => "8",
        _ => "9",
    }
}

fn hex_digit_str(d: u16) -> (s: &'static str)
    requires
        d < 16,
    ensures
        s@ == hex_digit_text(d as nat),
{
    if d < 10 {
        digit_str(d)
    } else {
        match d {
            10 => "a",
            11 => "b",
            12 => "c",
            13 => "d",
            14 => "e",
            _ => "f",
        }
    }
}

/// Append the decimal text of `n`.
fn push_decimal(out: &mut String, n: u16)
    ensures
        final(out)@ == old(out)@ + spec_decimal(n as nat),
    decreases n,
{
    if n >= 10 {
        push_decimal(out, n / 10);
    }
    out.append(digit_str(n % 10));
    proof {
        if n >= 10 {
            assert(spec_decimal(n as nat) == spec_decimal((n / 10) as nat) + digit_text(
                (n % 10) as nat,
            ));
        }
    }
}

/// Decimal text of `n`.
pub fn decimal(n: u16) -> (s: String)
    ensures
        s@ == spec_decimal(n as nat),
{
    let mut s = String::new();
    push_decimal(&mut s, n);
    assert(s@ =~= spec_decimal(n as nat));
    s
}

/// Four lower-case hexadecimal digits of `v`.
pub fn hex4(v: u16) -> (s: String)
    ensures
        s@ == spec_hex4(v),
{
    let mut s = String::new();
    s.append(hex_digit_str(v / 4096));
    s.append(hex_digit_str((v / 256) % 16));
    s.append(hex_digit_str((v / 16) % 16));
    s.append(hex_digit_str(v % 16));
    assert(s@ =~= spec_hex4(v));
    s
}

/// A reading as text: its decimal value, `?` when there is none.
pub open spec fn spec_shown(v: Option<u16>) -> Seq<char> {
    match v {
        Some(x) => spec_decimal(x as nat),
        None => "?"@,
    }
}

/// A reading as a JSON value: its decimal value, `null` when there is none.
pub open spec fn spec_json_num(v: Option<u16>) -> Seq<char> {
    match v {
        Some(x) => spec_decimal(x as nat),
        None => "null"@,
    }
}

pub open spec fn spec_json_bool(b: bool) -> Seq<char> {
    if b {
        "true"@
    } else {
        "false"@
    }
}

fn push_shown(out: &mut String, v: Option<u16>)
    ensures
        final(out)@ == old(out)@ + spec_shown(v),
{
    match v {
        Some(x) => push_decimal(out, x),
        None => out.append("?"),
    }
}

fn push_json_num(out: &mut String, v: Option<u16>)
    ensures
        final(out)@ == old(out)@ + spec_json_num(v),
{
    match v {
        Some(x) => push_decimal(out, x),
        None => out.append("null"),
    }
}

fn push_json_bool(out: &mut String, b: bool)
    ensures
        final(out)@ == old(out)@ + spec_json_bool(b),
{
    if b {
        out.append("true")
    } else {
        out.append("false")
    }
}

/// Name of a noise reduction level.
pub open spec fn spec_nr_name(level: u16) -> Seq<char> {
    if level == 0 {
        "low"@
    } else if level == 1 {
        "mid"@
    } else {
        "high"@
    }
}

pub fn nr_name(level: u16) -> (s: &'static str)
    requires
        level < 3,
    ensures
        s@ == spec_nr_name(level),
{
    match level {
        0 => "low",
        1 => "mid",
        _ => "high",
    }
}

/// Everything the status report shows, as read from the receiver; `None`
/// for a field that did not answer.
#[derive(PartialEq, Eq, Structural, Clone, Copy, Debug)]
pub struct State {
    pub battery: Option<u16>,
    pub muted: Option<bool>,
    pub gain: Option<u16>,
    pub nr_on: Option<bool>,
    pub nr_level: Option<u16>,
    pub light_on: Option<bool>,
    pub light_mode: Option<u16>,
}

/// A switch reading: any non-zero value is on.
pub open spec fn spec_switch(v: Option<u16>) -> Option<bool> {
    match v {
        Some(x) => Some(x != 0),
        None => None,
    }
}

fn switch(v: Option<u16>) -> (b: Option<bool>)
    ensures
        b == spec_switch(v),
{
    match v {
        Some(x) => Some(x != 0),
        None => None,
    }
}

/// The `nr_text` of a state.
pub open spec fn spec_nr_text(nr_on: Option<bool>, nr_level: Option<u16>) -> Seq<char> {
    match (nr_on, nr_level) {
        (Some(true), Some(l)) if l < 3 => "on, "@ + spec_nr_name(l),
        (Some(true), _) => "on"@,
        (Some(false), _) => "off"@,
        _ => "?"@,
    }
}

/// The `Mic ...` tooltip of the JSON line.
pub open spec fn spec_tooltip(st: State) -> Seq<char> {
    let muted = st.muted == Some(true);
    "Mic "@ + (if muted {
        "muted"@
    } else {
        "live"@
    }) + " · battery "@ + spec_shown(st.battery) + "% · gain "@ + spec_shown(st.gain) + "/"@
        + spec_decimal(GAIN_MAX as nat) + " · NR "@ + spec_nr_text(st.nr_on, st.nr_level)
}

/// The status-bar JSON line (Waybar style, plus the fields the bar panel
/// reads), without a line break.
pub open spec fn spec_status_json(st: State) -> Seq<char> {
    let muted = st.muted == Some(true);
    "{\"text\":\""@ + (if muted {
        "\u{f036d}"@
    } else {
        "\u{f036c}"@
    }) + "\",\"class\":\""@ + (if muted {
        "muted"@
    } else {
        "live"@
    }) + "\",\"tooltip\":\""@ + spec_tooltip(st) + "\",\"muted\":"@ + spec_json_bool(muted)
        + ",\"battery\":"@ + spec_json_num(st.battery) + ",\"gain\":"@ + spec_json_num(st.gain)
        + ",\"gain_max\":"@ + spec_decimal(GAIN_MAX as nat) + ",\"nr\":\""@ + spec_nr_text(
        st.nr_on,
        st.nr_level,
    ) + "\",\"nr_on\":"@ + spec_json_bool(st.nr_on == Some(true)) + ",\"nr_level\":"@
        + spec_json_num(st.nr_level) + ",\"light_on\":"@ + spec_json_bool(st.light_on == Some(true))
        + ",\"light_mode\":"@ + spec_json_num(st.light_mode) + ",\"light_mode_name\":\""@ + (
    match st.light_mode {
        Some(m) => spec_light_mode_name(m),
        None => "?"@,
    }) + "\"}"@
}

/// The four-line status report, each line ending in a line break.
pub open spec fn spec_status_report(st: State) -> Seq<char> {
    "  battery         : "@ + spec_shown(st.battery) + "%\n"@ + "  mute            : "@ + (
    match st.muted {
        Some(true) => "MUTED"@,
        Some(false) => "live"@,
        None => "?"@,
    }) + "\n"@ + "  gain            : "@ + spec_shown(st.gain) + " / "@ + spec_decimal(
        GAIN_MAX as nat,
    ) + "\n"@ + "  noise reduction : "@ + spec_nr_text(st.nr_on, st.nr_level) + "\n"@
}

/// The state described by raw field readings.
pub open spec fn spec_from_fields(
    battery: Option<u16>,
    mute: Option<u16>,
    gain: Option<u16>,
    nr: Option<u16>,
    nr_level: Option<u16>,
    light: Option<u16>,
    light_mode: Option<u16>,
) -> State {
    State {
        battery,
        muted: spec_switch(mute),
        gain,
        nr_on: spec_switch(nr),
        nr_level,
        light_on: spec_switch(light),
        light_mode,
    }
}

/// Law: the status takes the readings as they came: the numbers unchanged,
/// each switch on exactly for a non-zero reading, and a field that did not
/// answer stays unknown.
pub proof fn lemma_from_fields(
    battery: Option<u16>,
    mute: Option<u16>,
    gain: Option<u16>,
    nr: Option<u16>,
    nr_level: Option<u16>,
    light: Option<u16>,
    light_mode: Option<u16>,
)
    ensures
        ({
            let st = spec_from_fields(battery, mute, gain, nr, nr_level, light, light_mode);
            &&& st.battery == battery && st.gain == gain && st.nr_level == nr_level
                && st.light_mode == light_mode
            &&& (st.muted == Some(true)) <==> (mute matches Some(v) && v != 0)
            &&& (st.muted == Some(false)) <==> mute == Some(0u16)
            &&& (st.muted is None) <==> (mute is None)
            &&& (st.nr_on == Some(true)) <==> (nr matches Some(v) && v != 0)
            &&& (st.nr_on == Some(false)) <==> nr == Some(0u16)
            &&& (st.nr_on is None) <==> (nr is None)
            &&& (st.light_on == Some(true)) <==> (light matches Some(v) && v != 0)
            &&& (st.light_on == Some(false)) <==> light == Some(0u16)
            &&& (st.light_on is None) <==> (light is None)
        }),
{
}

impl State {
    /// The state described by raw field readings; the switches (mute, noise
    /// reduction, light) are on for any non-zero value.
    pub fn from_fields(
        battery: Option<u16>,
        mute: Option<u16>,
        gain: Option<u16>,
        nr: Option<u16>,
        nr_level: Option<u16>,
        light: Option<u16>,
        light_mode: Option<u16>,
    ) -> (st: State)
        ensures
            st == (State {
                battery,
                muted: spec_switch(mute),
                gain,
                nr_on: spec_switch(nr),
                nr_level,
                light_on: spec_switch(light),
                light_mode,
            }),
            st == spec_from_fields(battery, mute, gain, nr, nr_level, light, light_mode),
    {
        State {
            battery,
            muted: switch(mute),
            gain,
            nr_on: switch(nr),
            nr_level,
            light_on: switch(light),
            light_mode,
        }
    }

    fn push_nr_text(&self, out: &mut String)
        ensures
            final(out)@ == old(out)@ + spec_nr_text(self.nr_on, self.nr_level),
    {
        match (self.nr_on, self.nr_level) {
            (Some(true), Some(l)) => {
                if l < 3 {
                    out.append("on, ");
                    out.append(nr_name(l));
                } else {
                    out.append("on");
                }
            },
            (Some(true), None) => out.append("on"),
            (Some(false), _) => out.append("off"),
            _ => out.append("?"),
        }
    }

    /// Noise reduction as text: `on, <level>`, `on` when the level is
    /// unknown, `off`, or `?` when the switch did not answer.
    pub fn nr_text(&self) -> (s: String)
        ensures
            s@ == spec_nr_text(self.nr_on, self.nr_level),
    {
        let mut s = String::new();
        self.push_nr_text(&mut s);
        assert(s@ =~= spec_nr_text(self.nr_on, self.nr_level));
        s
    }

    /// The four-line status report.
    pub fn report(&self) -> (s: String)
        ensures
            s@ == spec_status_report(*self),
    {
        let mut s = String::new();
        s.append("  battery         : ");
        push_shown(&mut s, self.battery);
        s.append("%\n");
        s.append("  mute            : ");
        match self.muted {
            Some(true) => s.append("MUTED"),
            Some(false) => s.append("live"),
            None => s.append("?"),
        }
        s.append("\n");
        s.append("  gain            : ");
        push_shown(&mut s, self.gain);
        s.append(" / ");
        push_decimal(&mut s, GAIN_MAX);
        s.append("\n");
        s.append("  noise reduction : ");
        self.push_nr_text(&mut s);
        s.append("\n");
        assert(s@ =~= spec_status_report(*self));
        s
    }

    /// The status-bar JSON line.
    pub fn json(&self) -> (s: String)
        ensures
            s@ == spec_status_json(*self),
    {
        let muted = match self.muted {
            Some(m) => m,
            None => false,
        };
        let mut s = String::new();
        s.append("{\"text\":\"");
        s.append(
            if muted {
                "\u{f036d}"
            } else {
                "\u{f036c}"
            },
        );
        s.append("\",\"class\":\"");
        s.append(
            if muted {
                "muted"
            } else {
                "live"
            },
        );
        s.append("\",\"tooltip\":\"");
        let ghost before_tip = s@;
        s.append("Mic ");
        s.append(
            if muted {
                "muted"
            } else {
                "live"
            },
        );
        s.append(" · battery ");
        push_shown(&mut s, self.battery);
        s.append("% · gain ");
        push_shown(&mut s, self.gain);
        s.append("/");
        push_decimal(&mut s, GAIN_MAX);
        s.append(" · NR ");
        self.push_nr_text(&mut s);
        assert(s@ =~= before_tip + spec_tooltip(*self));
        s.append("\",\"muted\":");
        push_json_bool(&mut s, muted);
        s.append(",\"battery\":");
        push_json_num(&mut s, self.battery);
        s.append(",\"gain\":");
        push_json_num(&mut s, self.gain);
        s.append(",\"gain_max\":");
        push_decimal(&mut s, GAIN_MAX);
        s.append(",\"nr\":\"");
        self.push_nr_text(&mut s);
        s.append("\",\"nr_on\":");
        push_json_bool(
            &mut s,
            match self.nr_on {
                Some(b) => b,
                None => false,
            },
        );
        s.append(",\"nr_level\":");
        push_json_num(&mut s, self.nr_level);
        s.append(",\"light_on\":");
        push_json_bool(
            &mut s,
            match self.light_on {
                Some(b) => b,
                None => false,
            },
        );
        s.append(",\"light_mode\":");
        push_json_num(&mut s, self.light_mode);
        s.append(",\"light_mode_name\":\"");
        match self.light_mode {
            Some(m) => s.append(light_mode_name(m)),
            None => s.append("?"),
        }
        s.append("\"}");
        assert(s@ =~= spec_status_json(*self));
        s
    }
}

/// `  mute : <state>` after a mute change, from the value read back.
pub open spec fn spec_mute_line(now: Option<u16>) -> Seq<char> {
    "  mute : "@ + match now {
        Some(v) => if v != 0 {
            "MUTED"@
        } else {
            "live"@
        },
        None => "?"@,
    }
}

pub fn mute_line(now: Option<u16>) -> (s: String)
    ensures
        s@ == spec_mute_line(now),
{
    let mut s = String::new();
    s.append("  mute : ");
    match now {
        Some(v) => if v != 0 {
            s.append("MUTED")
        } else {
            s.append("live")
        },
        None => s.append("?"),
    }
    assert(s@ =~= spec_mute_line(now));
    s
}

/// `  gain : <g> / 20`.
pub open spec fn spec_gain_line(g: u16) -> Seq<char> {
    "  gain : "@ + spec_decimal(g as nat) + " / "@ + spec_decimal(GAIN_MAX as nat)
}

pub fn gain_line(g: u16) -> (s: String)
    ensures
        s@ == spec_gain_line(g),
{
    let mut s = String::new();
    s.append("  gain : ");
    push_decimal(&mut s, g);
    s.append(" / ");
    push_decimal(&mut s, GAIN_MAX);
    assert(s@ =~= spec_gain_line(g));
    s
}

/// `  gain : <before> -> <after> / 20`.
pub open spec fn spec_gain_change_line(before: u16, after: u16) -> Seq<char> {
    "  gain : "@ + spec_decimal(before as nat) + " -> "@ + spec_decimal(after as nat) + " / "@
        + spec_decimal(GAIN_MAX as nat)
}

pub fn gain_change_line(before: u16, after: u16) -> (s: String)
    ensures
        s@ == spec_gain_change_line(before, after),
{
    let mut s = String::new();
    s.append("  gain : ");
    push_decimal(&mut s, before);
    s.append(" -> ");
    push_decimal(&mut s, after);
    s.append(" / ");
    push_decimal(&mut s, GAIN_MAX);
    assert(s@ =~= spec_gain_change_line(before, after));
    s
}

/// `  noise reduction : <text>`.
pub open spec fn spec_nr_line(st: State) -> Seq<char> {
    "  noise reduction : "@ + spec_nr_text(st.nr_on, st.nr_level)
}

/// `  light : <on|off>  mode <m> (<name>)`.
pub open spec fn spec_light_line(on: bool, mode: u16) -> Seq<char> {
    "  light : "@ + (if on {
        "on"@
    } else {
        "off"@
    }) + "  mode "@ + spec_decimal(mode as nat) + " ("@ + spec_light_mode_name(mode) + ")"@
}

pub fn light_line(on: bool, mode: u16) -> (s: String)
    ensures
        s@ == spec_light_line(on, mode),
{
    let mut s = String::new();
    s.append("  light : ");
    s.append(
        if on {
            "on"
        } else {
            "off"
        },
    );
    s.append("  mode ");
    push_decimal(&mut s, mode);
    s.append(" (");
    s.append(light_mode_name(mode));
    s.append(")");
    assert(s@ =~= spec_light_line(on, mode));
    s
}

/// `  0x<id> = <v>  (0x<v>)`, or `  0x<id> = no answer`.
pub open spec fn spec_field_line(id: u16, v: Option<u16>) -> Seq<char> {
    "  0x"@ + spec_hex4(id) + " = "@ + match v {
        Some(x) => spec_decimal(x as nat) + "  (0x"@ + spec_hex4(x) + ")"@,
        None => "no answer"@,
    }
}

pub fn field_line(id: u16, v: Option<u16>) -> (s: String)
    ensures
        s@ == spec_field_line(id, v),
{
    let mut s = String::new();
    s.append("  0x");
    s.append(hex4(id).as_str());
    s.append(" = ");
    match v {
        Some(x) => {
            push_decimal(&mut s, x);
            s.append("  (0x");
            s.append(hex4(x).as_str());
            s.append(")");
        },
        None => s.append("no answer"),
    }
    assert(s@ =~= spec_field_line(id, v));
    s
}

/// `  0x<id> = Some(<v>)` or `  0x<id> = None`: the value read back after a
/// raw write.
pub open spec fn spec_written_line(id: u16, v: Option<u16>) -> Seq<char> {
    "  0x"@ + spec_hex4(id) + " = "@ + match v {
        Some(x) => "Some("@ + spec_decimal(x as nat) + ")"@,
        None => "None"@,
    }
}

pub fn written_line(id: u16, v: Option<u16>) -> (s: String)
    ensures
        s@ == spec_written_line(id, v),
{
    let mut s = String::new();
    s.append("  0x");
    s.append(hex4(id).as_str());
    s.append(" = ");
    match v {
        Some(x) => {
            s.append("Some(");
            push_decimal(&mut s, x);
            s.append(")");
        },
        None => s.append("None"),
    }
    assert(s@ =~= spec_written_line(id, v));
    s
}

/// `scanning 0x<lo>..0x<hi> (read-only)`.
pub open spec fn spec_scan_header(lo: u16, hi: u16) -> Seq<char> {
    "scanning 0x"@ + spec_hex4(lo) + "..0x"@ + spec_hex4(hi) + " (read-only)"@
}

pub fn scan_header(lo: u16, hi: u16) -> (s: String)
    ensures
        s@ == spec_scan_header(lo, hi),
{
    let mut s = String::new();
    s.append("scanning 0x");
    s.append(hex4(lo).as_str());
    s.append("..0x");
    s.append(hex4(hi).as_str());
    s.append(" (read-only)");
    assert(s@ =~= spec_scan_header(lo, hi));
    s
}

/// `  0x<id> = <v>`: one answering field of a scan.
pub open spec fn spec_scan_line(id: u16, v: u16) -> Seq<char> {
    "  0x"@ + spec_hex4(id) + " = "@ + spec_decimal(v as nat)
}

pub fn scan_line(id: u16, v: u16) -> (s: String)
    ensures
        s@ == spec_scan_line(id, v),
{
    let mut s = String::new();
    s.append("  0x");
    s.append(hex4(id).as_str());
    s.append(" = ");
    push_decimal(&mut s, v);
    assert(s@ =~= spec_scan_line(id, v));
    s
}

impl State {
    /// `  noise reduction : <text>`.
    pub fn nr_line(&self) -> (s: String)
        ensures
            s@ == spec_nr_line(*self),
    {
        let mut s = String::new();
        s.append("  noise reduction : ");
        self.push_nr_text(&mut s);
        assert(s@ =~= spec_nr_line(*self));
        s
    }
}

/// Text without a line break.
pub open spec fn one_line(s: Seq<char>) -> bool {
    forall|i: int| 0 <= i < s.len() ==> s[i] != '\n'
}

broadcast proof fn lemma_one_line_add(a: Seq<char>, b: Seq<char>)
    ensures
        #[trigger] one_line(a + b) == (one_line(a) && one_line(b)),
{
    if one_line(a) && one_line(b) {
        assert forall|i: int| 0 <= i < (a + b).len() implies (a + b)[i] != '\n' by {
            if i >= a.len() {
                assert((a + b)[i] == b[i - a.len()]);
            }
        }
    }
    if one_line(a + b) {
        assert forall|i: int| 0 <= i < a.len() implies a[i] != '\n' by {
            assert((a + b)[i] == a[i]);
        }
        assert forall|i: int| 0 <= i < b.len() implies b[i] != '\n' by {
            assert((a + b)[a.len() + i] == b[i]);
        }
    }
}

proof fn lemma_decimal_one_line(n: nat)
    ensures
        one_line(spec_decimal(n)),
    decreases n,
{
    reveal_strlit("0");
    reveal_strlit("1");
    reveal_strlit("2");
    reveal_strlit("3");
    reveal_strlit("4");
    reveal_strlit("5");
    reveal_strlit("6");
    reveal_strlit("7");
    reveal_strlit("8");
    reveal_strlit("9");
    if n >= 10 {
        lemma_decimal_one_line(n / 10);
        lemma_one_line_add(spec_decimal(n / 10), digit_text(n % 10));
    }
}

proof fn lemma_nr_text_one_line(on: Option<bool>, level: Option<u16>)
    ensures
        one_line(spec_nr_text(on, level)),
{
    broadcast use lemma_one_line_add;

    reveal_strlit("on, ");
    reveal_strlit("low");
    reveal_strlit("mid");
    reveal_strlit("high");
    reveal_strlit("on");
    reveal_strlit("off");
    reveal_strlit("?");
}

proof fn lemma_shown_one_line(v: Option<u16>)
    ensures
        one_line(spec_shown(v)),
        one_line(spec_json_num(v)),
{
    reveal_strlit("?");
    reveal_strlit("null");
    if let Some(x) = v {
        lemma_decimal_one_line(x as nat);
    }
}

proof fn lemma_light_name_one_line(v: Option<u16>)
    ensures
        one_line(
            match v {
                Some(m) => spec_light_mode_name(m),
                None => "?"@,
            },
        ),
{
    reveal_strlit("?");
    reveal_strlit("white");
    reveal_strlit("red");
    reveal_strlit("orange");
    reveal_strlit("lime");
    reveal_strlit("green");
    reveal_strlit("cyan");
    reveal_strlit("blue");
    reveal_strlit("purple");
    reveal_strlit("light blue");
}

proof fn lemma_words_one_line()
    ensures
        one_line("muted"@),
        one_line("live"@),
        one_line("true"@),
        one_line("false"@),
        one_line("\u{f036d}"@),
        one_line("\u{f036c}"@),
{
    reveal_strlit("muted");
    reveal_strlit("live");
    reveal_strlit("true");
    reveal_strlit("false");
    reveal_strlit("\u{f036d}");
    reveal_strlit("\u{f036c}");
}

proof fn lemma_tooltip_one_line(st: State)
    ensures
        one_line(spec_tooltip(st)),
{
    broadcast use lemma_one_line_add;

    lemma_words_one_line();
    lemma_nr_text_one_line(st.nr_on, st.nr_level);
    lemma_shown_one_line(st.battery);
    lemma_shown_one_line(st.gain);
    lemma_decimal_one_line(GAIN_MAX as nat);
    reveal_strlit("Mic ");
    reveal_strlit(" · battery ");
    reveal_strlit("% · gain ");
    reveal_strlit("/");
    reveal_strlit(" · NR ");
}

proof fn lemma_json_keys_one_line()
    ensures
        one_line("{\"text\":\""@),
        one_line("\",\"class\":\""@),
        one_line("\",\"tooltip\":\""@),
        one_line("\",\"muted\":"@),
        one_line(",\"battery\":"@),
        one_line(",\"gain\":"@),
        one_line(",\"gain_max\":"@),
        one_line(",\"nr\":\""@),
        one_line("\",\"nr_on\":"@),
        one_line(",\"nr_level\":"@),
        one_line(",\"light_on\":"@),
        one_line(",\"light_mode\":"@),
        one_line(",\"light_mode_name\":\""@),
        one_line("\"}"@),
{
    reveal_strlit("{\"text\":\"");
    reveal_strlit("\",\"class\":\"");
    reveal_strlit("\",\"tooltip\":\"");
    reveal_strlit("\",\"muted\":");
    reveal_strlit(",\"battery\":");
    reveal_strlit(",\"gain\":");
    reveal_strlit(",\"gain_max\":");
    reveal_strlit(",\"nr\":\"");
    reveal_strlit("\",\"nr_on\":");
    reveal_strlit(",\"nr_level\":");
    reveal_strlit(",\"light_on\":");
    reveal_strlit(",\"light_mode\":");
    reveal_strlit(",\"light_mode_name\":\"");
    reveal_strlit("\"}");
}

/// Law: the status-bar JSON is a single line, whatever the readings.
pub proof fn lemma_status_json_one_line(st: State)
    ensures
        one_line(spec_status_json(st)),
{
    broadcast use lemma_one_line_add;

    lemma_json_keys_one_line();
    lemma_words_one_line();
    lemma_tooltip_one_line(st);
    lemma_nr_text_one_line(st.nr_on, st.nr_level);
    lemma_shown_one_line(st.battery);
    lemma_shown_one_line(st.gain);
    lemma_shown_one_line(st.nr_level);
    lemma_shown_one_line(st.light_mode);
    lemma_decimal_one_line(GAIN_MAX as nat);
    lemma_light_name_one_line(st.light_mode);
}

/// A text that contains a part still contains it with more appended.
broadcast proof fn lemma_contains_extend(a: Seq<char>, b: Seq<char>, part: Seq<char>)
    requires
        contains_text(a, part),
    ensures
        #[trigger] contains_text(a + b, part),
{
    let i = choose|i: int|
        0 <= i <= a.len() - part.len() && #[trigger] a.subrange(i, i + part.len()) == part;
    assert((a + b).subrange(i, i + part.len()) =~= a.subrange(i, i + part.len()));
}

/// Two pieces appended one after the other are found together.
broadcast proof fn lemma_contains_pair(p: Seq<char>, x: Seq<char>, y: Seq<char>)
    ensures
        #[trigger] contains_text((p + x) + y, x + y),
{
    let s = (p + x) + y;
    assert(s.subrange(p.len() as int, (p.len() + (x + y).len()) as int) =~= x + y);
}

/// Law: the status-bar JSON reports each switch as it was read: `"muted"`,
/// `"nr_on"` and `"light_on"` are `true` exactly for a reading of on, and
/// `false` for off or no answer.
pub proof fn lemma_status_json_switches(st: State)
    ensures
        st.muted == Some(true) ==> contains_text(spec_status_json(st), "\",\"muted\":"@ + "true"@),
        st.muted != Some(true) ==> contains_text(spec_status_json(st), "\",\"muted\":"@ + "false"@),
        st.nr_on == Some(true) ==> contains_text(spec_status_json(st), "\",\"nr_on\":"@ + "true"@),
        st.nr_on != Some(true) ==> contains_text(spec_status_json(st), "\",\"nr_on\":"@ + "false"@),
        st.light_on == Some(true) ==> contains_text(
            spec_status_json(st),
            ",\"light_on\":"@ + "true"@,
        ),
        st.light_on != Some(true) ==> contains_text(
            spec_status_json(st),
            ",\"light_on\":"@ + "false"@,
        ),
{
    broadcast use lemma_contains_extend, lemma_contains_pair;

}

/// Law: the status-bar JSON reports each reading as read: `"battery"`,
/// `"gain"`, `"nr_level"` and `"light_mode"` are the decimal value, or `null`
/// when the field did not answer.
pub proof fn lemma_status_json_readings(st: State)
    ensures
        contains_text(
            spec_status_json(st),
            ",\"battery\":"@ + match st.battery {
                Some(b) => spec_decimal(b as nat),
                None => "null"@,
            },
        ),
        contains_text(
            spec_status_json(st),
            ",\"gain\":"@ + match st.gain {
                Some(g) => spec_decimal(g as nat),
                None => "null"@,
            },
        ),
        contains_text(
            spec_status_json(st),
            ",\"nr_level\":"@ + match st.nr_level {
                Some(l) => spec_decimal(l as nat),
                None => "null"@,
            },
        ),
        contains_text(
            spec_status_json(st),
            ",\"light_mode\":"@ + match st.light_mode {
                Some(m) => spec_decimal(m as nat),
                None => "null"@,
            },
        ),
{
    broadcast use lemma_contains_extend, lemma_contains_pair;

}

proof fn lemma_digit_text(d: nat)
    requires
        d < 16,
    ensures
        hex_digit_text(d) == seq![digit_char(d, false)],
        d < 10 ==> digit_text(d) == seq![digit_char(d, false)],
{
    reveal_strlit("0");
    reveal_strlit("1");
    reveal_strlit("2");
    reveal_strlit("3");
    reveal_strlit("4");
    reveal_strlit("5");
    reveal_strlit("6");
    reveal_strlit("7");
    reveal_strlit("8");
    reveal_strlit("9");
    reveal_strlit("a");
    reveal_strlit("b");
    reveal_strlit("c");
    reveal_strlit("d");
    reveal_strlit("e");
    reveal_strlit("f");
    assert(hex_digit_text(d) =~= seq![digit_char(d, false)]);
    if d < 10 {
        assert(digit_text(d) =~= seq![digit_char(d, false)]);
    }
}

/// The decimal text is the digits of the number, most significant first,
/// without leading zeros.
proof fn lemma_decimal_digits(n: nat)
    ensures
        spec_decimal(n) == spec_digits(n, 10, false),
    decreases n,
{
    if n < 10 {
        lemma_digit_text(n);
    } else {
        lemma_decimal_digits(n / 10);
        lemma_digit_text(n % 10);
        assert(spec_decimal(n) =~= spec_digits(n, 10, false));
    }
}

/// The four hexadecimal digits are the digits of the value, zero-padded.
proof fn lemma_hex4_digits(v: u16)
    ensures
        exists|k: nat| spec_hex4(v) == zeros(k) + spec_digits(v as nat, 16, false),
{
    let a = (v / 4096) as nat;
    let b = ((v / 256) % 16) as nat;
    let c = ((v / 16) % 16) as nat;
    let d = (v % 16) as nat;
    lemma_digit_text(a);
    lemma_digit_text(b);
    lemma_digit_text(c);
    lemma_digit_text(d);
    reveal_strlit("0");
    let n = v as nat;
    reveal_with_fuel(spec_digits, 5);
    assert(digit_char(0, false) == '0');
    if v < 16 {
        assert(spec_digits(n, 16, false) =~= seq![digit_char(d, false)]);
        assert(spec_hex4(v) =~= zeros(3) + spec_digits(n, 16, false));
    } else if v < 256 {
        assert(n / 16 == c);
        assert(spec_digits(n, 16, false) =~= seq![digit_char(c, false), digit_char(d, false)]);
        assert(spec_hex4(v) =~= zeros(2) + spec_digits(n, 16, false));
    } else if v < 4096 {
        assert(n / 16 / 16 == b);
        assert((n / 16) % 16 == c);
        assert(spec_digits(n, 16, false) =~= seq![
            digit_char(b, false),
            digit_char(c, false),
            digit_char(d, false),
        ]);
        assert(spec_hex4(v) =~= zeros(1) + spec_digits(n, 16, false));
    } else {
        assert(n / 16 / 16 / 16 == a);
        assert((n / 16 / 16) % 16 == b);
        assert((n / 16) % 16 == c);
        assert(spec_digits(n, 16, false) =~= seq![
            digit_char(a, false),
            digit_char(b, false),
            digit_char(c, false),
            digit_char(d, false),
        ]);
        assert(spec_hex4(v) =~= zeros(0) + spec_digits(n, 16, false));
    }
}

/// Law: the numbers the command line prints read back as themselves: a
/// value's decimal text, and an id's `0x` and four hex digits (as field,
/// write and scan lines show them), parse as that value and that id.
pub proof fn lemma_printed_numbers_read_back(n: u16)
    ensures
        spec_parse_id(spec_decimal(n as nat)) == Some(n),
        spec_parse_id(seq!['0', 'x'] + spec_hex4(n)) == Some(n),
        spec_hex4(n).len() == 4,
{
    lemma_decimal_digits(n as nat);
    lemma_parse_id_round_trip(n, 0, false);
    assert(zeros(0) + spec_digits(n as nat, 10, false) =~= spec_digits(n as nat, 10, false));
    lemma_hex4_digits(n);
    let k = choose|k: nat| spec_hex4(n) == zeros(k) + spec_digits(n as nat, 16, false);
    lemma_parse_id_round_trip(n, k, false);
    assert(seq!['0', 'x'] + spec_hex4(n) =~= seq!['0', 'x'] + zeros(k) + spec_digits(
        n as nat,
        16,
        false,
    ));
    let a = (n / 4096) as nat;
    lemma_digit_text(a);
    lemma_digit_text(((n / 256) % 16) as nat);
    lemma_digit_text(((n / 16) % 16) as nat);
    lemma_digit_text((n % 16) as nat);
}

/// Three pieces appended one after another are found together.
broadcast proof fn lemma_contains_triple(p: Seq<char>, x: Seq<char>, y: Seq<char>, z: Seq<char>)
    ensures
        #[trigger] contains_text(((p + x) + y) + z, (x + y) + z),
{
    let s = ((p + x) + y) + z;
    assert(s.subrange(p.len() as int, (p.len() + ((x + y) + z).len()) as int) =~= (x + y) + z);
}

/// Law: the noise reduction text names what was read: `on, low`, `on, mid`
/// or `on, high` for a level the receiver has, just `on` for any other
/// level, `off`, and `?` when the switch did not answer.
pub proof fn lemma_nr_text(nr_on: Option<bool>, level: Option<u16>)
    ensures
        nr_on == Some(true) && level == Some(0u16) ==> spec_nr_text(nr_on, level) == "on, "@ + "low"@,
        nr_on == Some(true) && level == Some(1u16) ==> spec_nr_text(nr_on, level) == "on, "@ + "mid"@,
        nr_on == Some(true) && level == Some(2u16) ==> spec_nr_text(nr_on, level) == "on, "@ + "high"@,
        nr_on == Some(true) && !(level matches Some(l) && l < 3) ==> spec_nr_text(nr_on, level)
            == "on"@,
        nr_on == Some(false) ==> spec_nr_text(nr_on, level) == "off"@,
        nr_on is None ==> spec_nr_text(nr_on, level) == "?"@,
{
}

/// Law: the one-line answers say what was read back: `MUTED` for a non-zero
/// mute reading, `live` for zero and `?` for no answer; the light's state
/// `on`/`off`, its mode number and the mode's colour name.
pub proof fn lemma_answer_words(now: Option<u16>, on: bool, mode: u16)
    ensures
        spec_mute_line(now) == "  mute : "@ + match now {
            Some(v) => if v != 0 {
                "MUTED"@
            } else {
                "live"@
            },
            None => "?"@,
        },
        contains_text(spec_light_line(on, mode), "  light : "@ + (if on { "on"@ } else { "off"@ })),
        contains_text(spec_light_line(on, mode), "  mode "@ + spec_decimal(mode as nat)),
        contains_text(
            spec_light_line(on, mode),
            (" ("@ + spec_light_mode_name(mode)) + ")"@,
        ),
{
    broadcast use lemma_contains_extend, lemma_contains_pair, lemma_contains_triple;

    assert(contains_text(seq![] + "  light : "@ + (if on { "on"@ } else { "off"@ }), "  light : "@ + (if on { "on"@ } else { "off"@ })));
    assert(seq![] + "  light : "@ + (if on { "on"@ } else { "off"@ }) =~= "  light : "@ + (if on { "on"@ } else { "off"@ }));
}

/// Law: the status report shows one line for each reading, as read: the
/// battery percent, `MUTED`/`live`/`?` for mute, the gain out of 20 and the
/// noise reduction text.
pub proof fn lemma_status_report_lines(st: State)
    ensures
        contains_text(
            spec_status_report(st),
            ("  battery         : "@ + spec_shown(st.battery)) + "%\n"@,
        ),
        contains_text(
            spec_status_report(st),
            ("  mute            : "@ + match st.muted {
                Some(true) => "MUTED"@,
                Some(false) => "live"@,
                None => "?"@,
            }) + "\n"@,
        ),
        contains_text(
            spec_status_report(st),
            ("  gain            : "@ + spec_shown(st.gain)) + " / "@,
        ),
        contains_text(
            spec_status_report(st),
            ("  noise reduction : "@ + spec_nr_text(st.nr_on, st.nr_level)) + "\n"@,
        ),
{
    broadcast use lemma_contains_extend, lemma_contains_pair, lemma_contains_triple;

    let b = "  battery         : "@ + spec_shown(st.battery) + "%\n"@;
    assert(contains_text(seq![] + "  battery         : "@ + spec_shown(st.battery) + "%\n"@, b));
    assert(seq![] + "  battery         : "@ + spec_shown(st.battery) + "%\n"@ =~= b);
}

/// Law: the status-bar JSON's icon and class show mute: the muted icon and
/// class `muted` exactly for a mute reading of on, the live ones otherwise;
/// and it carries the noise reduction text and the light mode's colour name.
pub proof fn lemma_status_json_labels(st: State)
    ensures
        st.muted == Some(true) ==> contains_text(
            spec_status_json(st),
            ("{\"text\":\""@ + "\u{f036d}"@) + "\",\"class\":\""@,
        ),
        st.muted != Some(true) ==> contains_text(
            spec_status_json(st),
            ("{\"text\":\""@ + "\u{f036c}"@) + "\",\"class\":\""@,
        ),
        st.muted == Some(true) ==> contains_text(
            spec_status_json(st),
            ("\",\"class\":\""@ + "muted"@) + "\",\"tooltip\":\""@,
        ),
        st.muted != Some(true) ==> contains_text(
            spec_status_json(st),
            ("\",\"class\":\""@ + "live"@) + "\",\"tooltip\":\""@,
        ),
        contains_text(
            spec_status_json(st),
            (",\"nr\":\""@ + spec_nr_text(st.nr_on, st.nr_level)) + "\",\"nr_on\":"@,
        ),
        contains_text(
            spec_status_json(st),
            (",\"light_mode_name\":\""@ + match st.light_mode {
                Some(m) => spec_light_mode_name(m),
                None => "?"@,
            }) + "\"}"@,
        ),
{
    broadcast use lemma_contains_extend, lemma_contains_pair, lemma_contains_triple;

    let muted = st.muted == Some(true);
    let head = "{\"text\":\""@ + (if muted {
        "\u{f036d}"@
    } else {
        "\u{f036c}"@
    }) + "\",\"class\":\""@;
    assert(contains_text(seq![] + "{\"text\":\""@ + (if muted {
        "\u{f036d}"@
    } else {
        "\u{f036c}"@
    }) + "\",\"class\":\""@, head));
    assert(seq![] + "{\"text\":\""@ + (if muted {
        "\u{f036d}"@
    } else {
        "\u{f036c}"@
    }) + "\",\"class\":\""@ =~= head);
}

} // verus!
