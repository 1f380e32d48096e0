use maono::cli::{
    command, gain_arg, gain_target, light_mode_from_name, light_mode_name, light_request,
    next_light_mode, nr_request, positional, toggled_mute, Command, GainArg, LightRequest,
    NrRequest,
};

fn args(words: &[&str]) -> Vec<String> {
    words.iter().map(|w| w.to_string()).collect()
}

#[test]
fn no_arguments_open_the_tui() {
    assert_eq!(command(&args(&[])), Command::Tui);
    assert_eq!(command(&args(&["tui"])), Command::Tui);
    assert_eq!(command(&args(&["--json"])), Command::Tui);
}

#[test]
fn help_is_recognised_anywhere() {
    assert_eq!(command(&args(&["help"])), Command::Help);
    assert_eq!(command(&args(&["-h"])), Command::Help);
    assert_eq!(command(&args(&["gain", "--help"])), Command::Help);
    assert_eq!(command(&args(&["--help"])), Command::Help);
}

#[test]
fn status_takes_the_json_flag() {
    assert_eq!(command(&args(&["status"])), Command::Status { json: false });
    assert_eq!(command(&args(&["status", "--json"])), Command::Status { json: true });
    assert_eq!(command(&args(&["--json", "status"])), Command::Status { json: true });
}

#[test]
fn mute_commands() {
    assert_eq!(command(&args(&["mute"])), Command::Mute);
    assert_eq!(command(&args(&["unmute"])), Command::Unmute);
    assert_eq!(command(&args(&["toggle"])), Command::Toggle);
    assert!(toggled_mute(Some(0)));
    assert!(!toggled_mute(Some(1)));
    assert!(!toggled_mute(Some(7)));
    assert!(toggled_mute(None));
}

#[test]
fn shell_commands() {
    assert_eq!(command(&args(&["shell", "install"])), Command::ShellInstall { force: false });
    assert_eq!(
        command(&args(&["shell", "install", "--force"])),
        Command::ShellInstall { force: true }
    );
    assert_eq!(command(&args(&["shell", "uninstall"])), Command::ShellUninstall);
    assert_eq!(command(&args(&["shell"])), Command::ShellUsage);
    assert_eq!(command(&args(&["shell", "wat"])), Command::ShellUsage);
}

#[test]
fn gain_arguments() {
    assert_eq!(command(&args(&["gain"])), Command::GainShow);
    assert_eq!(command(&args(&["gain", "+2"])), Command::GainSet(GainArg::By(2)));
    assert_eq!(command(&args(&["gain", "-3"])), Command::GainSet(GainArg::By(-3)));
    assert_eq!(command(&args(&["gain", "12"])), Command::GainSet(GainArg::To(Some(12))));
    assert_eq!(gain_arg("+x"), GainArg::By(0));
    assert_eq!(gain_arg("loud"), GainArg::To(None));
    assert_eq!(gain_target(12, GainArg::By(2)), 14);
    assert_eq!(gain_target(19, GainArg::By(5)), 20);
    assert_eq!(gain_target(2, GainArg::By(-5)), 0);
    assert_eq!(gain_target(7, GainArg::To(Some(99))), 20);
    assert_eq!(gain_target(7, GainArg::To(Some(-4))), 0);
    assert_eq!(gain_target(7, GainArg::To(None)), 7);
    assert_eq!(gain_target(30, GainArg::To(None)), 20);
    // the sum wraps round the 32-bit range before clamping
    assert_eq!(gain_target(20, GainArg::By(i32::MAX)), 0);
}

#[test]
fn nr_arguments() {
    assert_eq!(command(&args(&["nr"])), Command::NrShow);
    for w in ["off", "OFF", "0", "false", "No"] {
        assert_eq!(nr_request(w), NrRequest::Off, "{w}");
    }
    assert_eq!(nr_request("low"), NrRequest::Level(0));
    assert_eq!(nr_request("1"), NrRequest::Level(0));
    assert_eq!(nr_request("Mid"), NrRequest::Level(1));
    assert_eq!(nr_request("2"), NrRequest::Level(1));
    assert_eq!(nr_request("HIGH"), NrRequest::Level(2));
    assert_eq!(nr_request("3"), NrRequest::Level(2));
    assert_eq!(nr_request("on"), NrRequest::KeepLevel);
    assert_eq!(nr_request("4"), NrRequest::Invalid);
    assert_eq!(nr_request("lowest"), NrRequest::Invalid);
    assert_eq!(command(&args(&["nr", "high"])), Command::Nr(NrRequest::Level(2)));
}

#[test]
fn light_arguments() {
    assert_eq!(command(&args(&["light"])), Command::LightShow);
    assert_eq!(light_request("on"), LightRequest::On);
    assert_eq!(light_request("OFF"), LightRequest::Off);
    assert_eq!(light_request("next"), LightRequest::Next);
    assert_eq!(light_request("0"), LightRequest::Mode(0));
    assert_eq!(light_request("8"), LightRequest::Mode(8));
    assert_eq!(light_request("+3"), LightRequest::Mode(3));
    assert_eq!(light_request("9"), LightRequest::Invalid);
    assert_eq!(light_request("Cyan"), LightRequest::Mode(5));
    assert_eq!(light_request("light blue"), LightRequest::Mode(8));
    assert_eq!(light_request("magenta"), LightRequest::Invalid);
    assert_eq!(command(&args(&["light", "red"])), Command::Light(LightRequest::Mode(1)));
}

#[test]
fn light_mode_names_round_trip() {
    let names = [
        "white", "red", "orange", "lime", "green", "cyan", "blue", "purple", "light blue",
    ];
    for (m, n) in names.iter().enumerate() {
        assert_eq!(light_mode_name(m as u16), *n);
        assert_eq!(light_mode_from_name(n), Some(m as u16));
    }
    assert_eq!(light_mode_name(9), "?");
    assert_eq!(light_mode_from_name("black"), None);
}

#[test]
fn next_light_mode_cycles() {
    assert_eq!(next_light_mode(Some(0)), 1);
    assert_eq!(next_light_mode(Some(7)), 8);
    assert_eq!(next_light_mode(Some(8)), 0);
    assert_eq!(next_light_mode(None), 1);
    assert_eq!(next_light_mode(Some(20)), 3);
    assert_eq!(next_light_mode(Some(u16::MAX)), 0);
}

#[test]
fn raw_field_commands() {
    assert_eq!(command(&args(&["get", "0x208e"])), Command::ReadField { id: 0x208E });
    assert_eq!(command(&args(&["get"])), Command::ReadUsage);
    assert_eq!(command(&args(&["get", "zz"])), Command::ReadUsage);
    assert_eq!(
        command(&args(&["set", "0x207e", "12"])),
        Command::WriteField { id: 0x207E, value: 12 }
    );
    assert_eq!(command(&args(&["set", "0x207e"])), Command::WriteUsage);
    assert_eq!(command(&args(&["set", "0x207e", "x"])), Command::WriteUsage);
    assert_eq!(command(&args(&["scan"])), Command::Scan { lo: 0x2000, hi: 0x20FF });
    assert_eq!(command(&args(&["scan", "0x2080"])), Command::Scan { lo: 0x2080, hi: 0x20FF });
    assert_eq!(
        command(&args(&["scan", "0x2080", "0x2090"])),
        Command::Scan { lo: 0x2080, hi: 0x2090 }
    );
    assert_eq!(command(&args(&["scan", "bad", "0x2090"])), Command::Scan { lo: 0x2000, hi: 0x2090 });
}

#[test]
fn unknown_commands_point_at_their_word() {
    assert_eq!(command(&args(&["--json", "frobnicate"])), Command::Unknown(1));
    assert_eq!(command(&args(&["Status"])), Command::Unknown(0));
}

#[test]
fn flags_are_not_positional() {
    assert_eq!(positional(&args(&["--json", "gain", "--x", "-3"])), vec![1, 3]);
    assert_eq!(positional(&args(&["-", "--"])), vec![0]);
}
