use statusbar::schedule::{next_deadline, tick_timeout};
use statusbar::volume::{volume_step, Volume, VolumeQuery};
use statusbar::wifi::{wifi_step, Wifi, WifiQuery};

#[test]
fn volume_block_rendering() {
    let v = Volume::new("V:{}%", 1, 0x00FF00);
    assert_eq!(v.interval(), 1);
    assert_eq!(v.color(), 0x00FF00);
    assert_eq!(v.content_text(Some(30)), "V:30%");
    assert_eq!(v.content_text(Some(0)), "V:0%");
    assert_eq!(v.content_text(None), "V:Muted%");
    assert_eq!(v.fallback_text(), "V:ERR%");
    let c = v.config();
    assert_eq!(c.interval_secs, 1);
    assert_eq!(c.color, 0x00FF00);
    assert_eq!(c.fallback, "V:ERR%");
}

#[test]
fn wifi_block_rendering() {
    let w = Wifi::new("W {}", 5, 7);
    assert_eq!(w.interval(), 5);
    assert_eq!(w.color(), 7);
    assert_eq!(w.content_text("MyNet"), "W MyNet");
    assert_eq!(w.fallback_text(), "W ERR");
    let c = w.config();
    assert_eq!(c.interval_secs, 5);
    assert_eq!(c.fallback, "W ERR");
}

#[test]
fn volume_reading_happy_path_via_wpctl() {
    let q = VolumeQuery::WpctlStatus;
    let status = "Sinks:\n * 42. Sink\n";
    let q = volume_step(q, Some(status));
    match q {
        VolumeQuery::WpctlGetVolume(id) => assert_eq!(id, 42),
        _ => panic!("expected the get-volume stage"),
    }
    let q = volume_step(q, Some("Volume: 0.65"));
    match q {
        VolumeQuery::Done(v) => assert_eq!(v, Some(65)),
        _ => panic!("expected a finished reading"),
    }
}

#[test]
fn volume_reading_falls_back_to_pactl() {
    // wpctl is missing entirely: the machine moves to pactl
    let q = volume_step(VolumeQuery::WpctlStatus, None);
    assert!(matches!(q, VolumeQuery::PactlInfo));
    let q = volume_step(q, Some("Default Sink: mysink\n"));
    match &q {
        VolumeQuery::PactlGetMute(s) => assert_eq!(s, "mysink"),
        _ => panic!("expected the mute stage"),
    }
    let q = volume_step(q, Some("Mute: no"));
    match &q {
        VolumeQuery::PactlGetVolume(s) => assert_eq!(s, "mysink"),
        _ => panic!("expected the volume stage"),
    }
    let q = volume_step(q, Some("Volume: front-left: 32768 / 50% / -18 dB"));
    match q {
        VolumeQuery::Done(v) => assert_eq!(v, Some(50)),
        _ => panic!("expected a finished reading"),
    }
}

#[test]
fn volume_reading_muted_paths() {
    // muted via wpctl
    let q = volume_step(VolumeQuery::WpctlGetVolume(42), Some("Volume: 0.50 [MUTED]"));
    assert!(matches!(q, VolumeQuery::Done(None)));
    // muted via pactl
    let q = volume_step(VolumeQuery::PactlGetMute("s".to_string()), Some("Mute: yes"));
    assert!(matches!(q, VolumeQuery::Done(None)));
}

#[test]
fn volume_reading_silent_default() {
    // nothing answers: the reading defaults to zero
    let q = volume_step(VolumeQuery::PactlInfo, None);
    match q {
        VolumeQuery::Done(v) => assert_eq!(v, Some(0)),
        _ => panic!("expected the default reading"),
    }
    let q = volume_step(VolumeQuery::PactlGetVolume("s".to_string()), Some("no tokens"));
    match q {
        VolumeQuery::Done(v) => assert_eq!(v, Some(0)),
        _ => panic!("expected the default reading"),
    }
}

#[test]
fn wifi_reading_paths() {
    // an active network
    let q = wifi_step(WifiQuery::NmcliActive, Some("no:X\nyes:Home\n"));
    match &q {
        WifiQuery::Done(s) => assert_eq!(s, "Home"),
        _ => panic!("expected a finished reading"),
    }
    // no active network, radio on
    let q = wifi_step(WifiQuery::NmcliActive, Some("no:X\n"));
    assert!(matches!(q, WifiQuery::NmcliGeneral));
    let q = wifi_step(q, Some("enabled\n"));
    match &q {
        WifiQuery::Done(s) => assert_eq!(s, "Disconnected"),
        _ => panic!("expected a finished reading"),
    }
    // the tool is missing entirely
    let q = wifi_step(WifiQuery::NmcliGeneral, None);
    match &q {
        WifiQuery::Done(s) => assert_eq!(s, "N/A"),
        _ => panic!("expected the unavailable marker"),
    }
}

#[test]
fn deadlines_fixed_cadence() {
    assert_eq!(next_deadline(5, 0, 2), Some(5));
    assert_eq!(next_deadline(5, 3, 2), Some(11));
    assert_eq!(next_deadline(0, 7, 1), Some(7));
    // the schedule never drifts: tick n is start + n * interval exactly
    let start: u64 = 1000;
    let interval: u64 = 3;
    let k: u64 = 10;
    let mut in_window: u64 = 0;
    for n in 0..100u64 {
        if let Some(d) = next_deadline(start, n, interval) {
            if d < start + k * interval {
                in_window += 1;
            }
        }
    }
    assert_eq!(in_window, k);
}

#[test]
fn tick_timeout_strictly_below_interval() {
    assert_eq!(tick_timeout(1000), 900);
    assert_eq!(tick_timeout(10), 9);
    let t = tick_timeout(5000);
    assert!(t >= 1 && t < 5000);
}

#[test]
fn deadlines_overflow_is_none() {
    assert_eq!(next_deadline(u64::MAX, 1, 1), None);
    assert_eq!(next_deadline(0, u64::MAX, 2), None);
}
