use statusbar::text::{apply_format, contains_str, dec_string, eq_str, parse_u32, trim_str};
use statusbar::volume::{
    parse_pactl_default_sink, parse_pactl_muted, parse_pactl_volume, parse_wpctl_sink_id,
    parse_wpctl_volume, VolReading,
};
use statusbar::wifi::{parse_nmcli_active_ssid, parse_wifi_state};

#[test]
fn parse_u32_basics() {
    assert_eq!(parse_u32("0"), Some(0));
    assert_eq!(parse_u32("42"), Some(42));
    assert_eq!(parse_u32("4294967295"), Some(u32::MAX));
    assert_eq!(parse_u32("4294967296"), None);
    assert_eq!(parse_u32("99999999999999"), None);
    assert_eq!(parse_u32(""), None);
    assert_eq!(parse_u32("4a2"), None);
    assert_eq!(parse_u32("-3"), None);
}

#[test]
fn dec_string_basics() {
    assert_eq!(dec_string(0), "0");
    assert_eq!(dec_string(7), "7");
    assert_eq!(dec_string(42), "42");
    assert_eq!(dec_string(100), "100");
    assert_eq!(dec_string(u32::MAX), "4294967295");
}

#[test]
fn apply_format_basics() {
    assert_eq!(apply_format("VOL {}%", "50"), "VOL 50%");
    assert_eq!(apply_format("{}", "x"), "x");
    assert_eq!(apply_format("no placeholder", "x"), "no placeholder");
    assert_eq!(apply_format("{} and {}", "a"), "a and a");
    assert_eq!(apply_format("", "a"), "");
    assert_eq!(apply_format("{{}}", "a"), "{a}");
}

#[test]
fn trim_and_eq_and_contains() {
    assert_eq!(trim_str("  hi \t\n"), "hi");
    assert_eq!(trim_str("   "), "");
    assert_eq!(trim_str("x"), "x");
    assert!(eq_str("abc", "abc"));
    assert!(!eq_str("abc", "abd"));
    assert!(contains_str("hello world", "lo w"));
    assert!(!contains_str("hello", "world"));
    assert!(contains_str("abc", ""));
}

#[test]
fn wpctl_sink_id_from_status_listing() {
    let out = "Audio\n Devices:\n  41. Card\n Sinks:\n  *   42. Family 17h [vol: 0.50]\n      43. Other Sink\n Sources:\n";
    assert_eq!(parse_wpctl_sink_id(out), Some(42));
}

#[test]
fn wpctl_sink_id_needs_sinks_section_and_star() {
    // a starred line before the Sinks: heading does not count
    let out = " *  7. Card\n Sinks:\n    8. Unstarred\n";
    assert_eq!(parse_wpctl_sink_id(out), None);
    assert_eq!(parse_wpctl_sink_id(""), None);
    assert_eq!(parse_wpctl_sink_id("Sinks:\n"), None);
}

#[test]
fn wpctl_volume_readings() {
    assert_eq!(parse_wpctl_volume("Volume: 0.50"), VolReading::Pct(50));
    assert_eq!(parse_wpctl_volume("Volume: 1.05"), VolReading::Pct(105));
    assert_eq!(parse_wpctl_volume("Volume: 2"), VolReading::Pct(200));
    assert_eq!(parse_wpctl_volume("Volume: 0.5"), VolReading::Pct(50));
    assert_eq!(parse_wpctl_volume("Volume: 0.505"), VolReading::Pct(50));
    assert_eq!(parse_wpctl_volume("Volume: 0.50 [MUTED]"), VolReading::Muted);
    assert_eq!(parse_wpctl_volume("no reading here"), VolReading::NoReading);
    assert_eq!(parse_wpctl_volume(""), VolReading::NoReading);
    // readings beyond the representable range saturate
    assert_eq!(parse_wpctl_volume("99999999999999999999.5"), VolReading::Pct(u32::MAX));
    assert_eq!(parse_wpctl_volume("42949672.94"), VolReading::Pct(u32::MAX - 1));
    assert_eq!(parse_wpctl_volume("42949672.95"), VolReading::Pct(u32::MAX));
    assert_eq!(parse_wpctl_volume("42949672.96"), VolReading::Pct(u32::MAX));
    // a lone dot is no reading, a second dot spoils the token
    assert_eq!(parse_wpctl_volume("."), VolReading::NoReading);
    assert_eq!(parse_wpctl_volume("1.2.3"), VolReading::NoReading);
    assert_eq!(parse_wpctl_volume(".5"), VolReading::Pct(50));
}

#[test]
fn pactl_default_sink_line() {
    let out = "Server Name: pulseaudio\nDefault Sink: alsa_output.pci\nDefault Source: mic\n";
    let sink = parse_pactl_default_sink(out).unwrap();
    assert_eq!(sink, "alsa_output.pci");
    assert_eq!(parse_pactl_default_sink("Server Name: x\n"), None);
    // the value field ends at the next colon
    let out2 = "Default Sink: name:extra\n";
    assert_eq!(parse_pactl_default_sink(out2).unwrap(), "name");
}

#[test]
fn pactl_mute_flag() {
    assert!(parse_pactl_muted("Mute: yes"));
    assert!(!parse_pactl_muted("Mute: no"));
}

#[test]
fn pactl_volume_percent_token() {
    let out = "Volume: front-left: 32768 /  50% / -18.06 dB";
    assert_eq!(parse_pactl_volume(out), Some(50));
    assert_eq!(parse_pactl_volume("Volume: odd"), None);
    assert_eq!(parse_pactl_volume("12%"), Some(12));
    assert_eq!(parse_pactl_volume("%"), None);
}

#[test]
fn nmcli_active_ssid_lines() {
    assert_eq!(parse_nmcli_active_ssid("no:Other\nyes:MyNet\n").unwrap(), "MyNet");
    assert_eq!(parse_nmcli_active_ssid("yes: Home Net \n").unwrap(), "Home Net");
    assert_eq!(parse_nmcli_active_ssid("no:A\nno:B\n"), None);
    // an empty ssid field does not count
    assert_eq!(parse_nmcli_active_ssid("yes:\n"), None);
    assert_eq!(parse_nmcli_active_ssid(""), None);
}

#[test]
fn wifi_state_words() {
    assert_eq!(parse_wifi_state("enabled\n"), "Disconnected");
    assert_eq!(parse_wifi_state("enabled"), "Disconnected");
    assert_eq!(parse_wifi_state("disabled\n"), "Off");
    assert_eq!(parse_wifi_state("garbage"), "Off");
}
