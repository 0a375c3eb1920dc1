use lush::battery::battery_state;
use lush::mpris::{build_summary, collect_snapshot, micros_text, pick_player, player_identity, player_rank, PlayerSnapshot};
use lush::network::{default_route_iface, parse_u64_text, read_totals, wireless_iface_stats};
use lush::provider::{cpu_deltas, disk_usage, memory_usage, CpuTotals};
use lush::text::{normalize_ws_str, parse_u32, split_lines, split_words, trim_str};

const NET_DEV: &str = "Inter-|   Receive                                                |  Transmit
 face |bytes    packets errs drop fifo frame compressed multicast|bytes    packets errs drop fifo colls carrier compressed
    lo:  100  1 0 0 0 0 0 0  100 1 0 0 0 0 0 0
  eth0: 2000  5 0 0 0 0 0 0  300 3 0 0 0 0 0 0
 wlan0: 500  2 0 0 0 0 0 0  70 1 0 0 0 0 0 0
";

#[test]
fn network_totals() {
    assert_eq!(read_totals(NET_DEV, None).unwrap(), (2500, 370));
    assert_eq!(read_totals(NET_DEV, Some("wlan0")).unwrap(), (500, 70));
    assert_eq!(read_totals(NET_DEV, Some("lo")).unwrap(), (100, 100));
    assert_eq!(
        read_totals(NET_DEV, Some("eth9")).unwrap_err(),
        "network interface 'eth9' not found in /proc/net/dev"
    );
    let bad = "a\nb\n  eth0: x 5 0 0 0 0 0 0  300 3 0 0 0 0 0 0\n";
    assert_eq!(read_totals(bad, None).unwrap_err(), "invalid digit found in string");
}

#[test]
fn integer_text_errors() {
    assert_eq!(parse_u64_text("42").unwrap(), 42);
    assert_eq!(parse_u64_text("+7").unwrap(), 7);
    assert_eq!(parse_u64_text("").unwrap_err(), "cannot parse integer from empty string");
    assert_eq!(parse_u64_text("-1").unwrap_err(), "invalid digit found in string");
    assert_eq!(
        parse_u64_text("18446744073709551616").unwrap_err(),
        "number too large to fit in target type"
    );
}

#[test]
fn default_route() {
    let route = "Iface\tDestination\tGateway\tFlags\tRefCnt\tUse\tMetric\tMask\tMTU\tWindow\tIRTT
eth0\t0000FEA9\t00000000\t0001\t0\t0\t1000\t0000FFFF\t0\t0\t0
wlan0\t00000000\t0102A8C0\t0003\t0\t0\t600\t00000000\t0\t0\t0
";
    assert_eq!(default_route_iface(route), Some("wlan0".to_string()));
    assert_eq!(default_route_iface("Iface\n"), None);
}

#[test]
fn wireless_stats() {
    let raw = "Inter-| sta-|   Quality        |   Discarded packets               | Missed | WE
 face | tus | link level noise |  nwid  crypt   frag  retry   misc | beacon | 22
 wlan0: 0000   54.  -56.  -256        0      0      0      0     12        0
";
    assert_eq!(
        wireless_iface_stats(raw, None),
        Some(("wlan0".to_string(), "54".to_string(), "-56".to_string()))
    );
    assert_eq!(wireless_iface_stats(raw, Some("wlan1")), None);
}

#[test]
fn usage_formulas_exact() {
    let prev = CpuTotals { total_ticks: 1000, idle_ticks: 800 };
    assert_eq!(cpu_deltas(prev, 1500, 1100), (500, 300));
    let prev = CpuTotals { total_ticks: 1000, idle_ticks: 800 };
    assert_eq!(cpu_deltas(prev, 900, 700), (0, 0));
    let gib = 1024 * 1024 * 1024u64;
    assert_eq!(
        memory_usage(8 * gib, Some(6 * gib), 1),
        Some((2 * gib, 6 * gib, 8192, 2048, 6144))
    );
    assert_eq!(memory_usage(4 * gib, None, gib), Some((3 * gib, gib, 4096, 3072, 1024)));
    assert_eq!(memory_usage(0, Some(1), 1), None);
    assert_eq!(disk_usage(4096, 512, 1000, 250), Some((4096000, 1024000, 3072000)));
    assert_eq!(disk_usage(0, 512, 10, 5), Some((5120, 2560, 2560)));
    assert_eq!(disk_usage(0, 0, 10, 5), None);
}

#[test]
fn battery_states() {
    assert_eq!(battery_state("Charging", false, None, None), "charging");
    assert_eq!(battery_state("Full", false, Some(true), None), "charging");
    assert_eq!(battery_state("Full", false, None, None), "discharging");
    assert_eq!(battery_state("Full", true, Some(false), None), "full");
    assert_eq!(battery_state("Unknown", false, Some(false), None), "discharging");
    assert_eq!(battery_state("Unknown", true, Some(true), None), "full");
    assert_eq!(battery_state("Unknown", false, None, Some("charging")), "charging");
    assert_eq!(battery_state("Unknown", false, None, Some("weird")), "unknown");
}

fn player(service: &str, status: &str, title: &str, artist: &str) -> PlayerSnapshot {
    PlayerSnapshot {
        service: service.to_string(),
        identity: "Player".to_string(),
        status: status.to_string(),
        title: title.to_string(),
        artist: artist.to_string(),
        album: String::new(),
        art_url: String::new(),
        length_us: String::new(),
        position_us: String::new(),
    }
}

#[test]
fn media_players() {
    assert_eq!(player_rank("playing"), 0);
    assert!(player_rank("paused") < player_rank("stopped"));
    let ps = vec![
        player("org.mpris.MediaPlayer2.b", "paused", "x", ""),
        player("org.mpris.MediaPlayer2.c", "playing", "song", "band"),
        player("org.mpris.MediaPlayer2.a", "playing", "", ""),
    ];
    assert_eq!(pick_player(&ps), Some(2));
    assert_eq!(build_summary(&ps[1]), "band - song (playing)");
    assert_eq!(build_summary(&ps[0]), "x (paused)");
    assert_eq!(build_summary(&ps[2]), "Player (playing)");
    assert_eq!(pick_player(&vec![]), None);
    // Equal status and service: the first one is shown.
    let twins = vec![
        player("org.mpris.MediaPlayer2.v", "weird", "one", ""),
        player("org.mpris.MediaPlayer2.v", "weird", "two", ""),
    ];
    assert_eq!(pick_player(&twins), Some(0));
    let snap = collect_snapshot(&twins);
    assert!(snap.available);
    assert_eq!(snap.title, "one");
    let none = collect_snapshot(&vec![]);
    assert!(!none.available);
    assert_eq!(none.summary, "no media");
    assert_eq!(none.status, "stopped");
    assert_eq!(micros_text(Some(-5)), "0");
    assert_eq!(micros_text(Some(1234)), "1234");
    assert_eq!(micros_text(None), "");
    assert_eq!(player_identity(Some("  Spotify   Premium "), "org.mpris.MediaPlayer2.spotify"), "Spotify Premium");
    assert_eq!(player_identity(Some(" "), "org.mpris.MediaPlayer2.vlc"), "vlc");
    assert_eq!(player_identity(None, "org.mpris.MediaPlayer2.org.mpris.MediaPlayer2.x"), "x");
}

#[test]
fn text_helpers() {
    assert_eq!(trim_str("  a b \n"), "a b");
    assert_eq!(normalize_ws_str("  a \t b\n c "), "a b c");
    assert_eq!(parse_u32("4294967295"), Some(u32::MAX));
    assert_eq!(parse_u32("4294967296"), None);
    assert_eq!(parse_u32("+3"), Some(3));
    assert_eq!(split_lines("a\r\nb\n\nc"), vec!["a", "b", "", "c"]);
    assert_eq!(split_words(" x  y\tz "), vec!["x", "y", "z"]);
}
