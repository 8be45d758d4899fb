use std::time::Duration;

use delray::capture::Flow;
use delray::net::{Direction, IpAddress};
use delray::report::{fmt_elapsed, format_hms, plain_lines, report_frame, truncate, Cell};
use delray::stats::{ObservedProcess, Stats};

#[test]
fn elapsed_time_is_hours_minutes_seconds() {
    assert_eq!(fmt_elapsed(Duration::from_secs(0)), "00:00:00");
    assert_eq!(fmt_elapsed(Duration::from_secs(3_723)), "01:02:03");
    assert_eq!(fmt_elapsed(Duration::from_millis(59_999)), "00:00:59");
    assert_eq!(fmt_elapsed(Duration::ZERO), "00:00:00");
    assert_eq!(fmt_elapsed(Duration::from_millis(3_661_999)), "01:01:01");
    assert_eq!(fmt_elapsed(Duration::from_secs(359_999)), "99:59:59");
    assert_eq!(fmt_elapsed(Duration::from_secs(360_000)), "100:00:00");
    assert_eq!(format_hms(360_000), "100:00:00");
}

#[test]
fn truncation_counts_characters_and_marks_the_cut() {
    assert_eq!(truncate("curl", 4), "curl");
    assert_eq!(truncate("curl --silent", 4), "curl…");
    assert_eq!(truncate("日本語のプロセス", 3), "日本語…");
    assert_eq!(truncate("", 0), "");
    assert_eq!(truncate("a", 0), "…");
}

fn text(cell: &Cell) -> String {
    match cell {
        Cell::Text(t) => t.clone(),
        Cell::Bytes(b) => format!("<{b}>"),
        Cell::Ip(IpAddress::V4(v)) => v.to_be_bytes().map(|b| b.to_string()).join("."),
        Cell::Ip(IpAddress::V6(v)) => format!("{v:x}"),
    }
}

#[test]
fn plain_report_has_sections_in_order() {
    let mut stats = Stats::default();
    let peer = IpAddress::V4(u32::from_be_bytes([198, 51, 100, 5]));
    let flow = Flow {
        direction: Direction::Inbound,
        peer,
        peer_port: None,
        bytes: 40,
        local_socket: None,
        peer_local_socket: None,
    };
    stats.record_flow(flow, Some(ObservedProcess { pid: 7, name: Some("curl".to_string()), path: None }));
    let snapshot = stats.snapshot(3);
    let frame = report_frame(
        "eth0",
        "host".to_string(),
        "2026-07-15 08:00:00".to_string(),
        "2026-07-15 09:00:00".to_string(),
        3_600,
        &snapshot,
    );
    assert_eq!(frame.top_processes[0].pid, Some(7));
    assert_eq!(frame.top_processes[0].name, "curl");

    let lines: Vec<String> = plain_lines(&frame, 3)
        .iter()
        .map(|line| line.iter().map(text).collect::<Vec<_>>().join("\t"))
        .collect();
    assert_eq!(
        lines,
        vec![
            "delray\teth0\thost: host\tstarted: 2026-07-15 08:00:00\tuptime: 01:00:00\t2026-07-15 09:00:00",
            "",
            "Interface Traffic",
            "Inbound\t<40>",
            "Outbound\t<0>",
            "",
            "Top Processes (3)",
            "Process\tPID\tRecv\tSent\tTotal",
            "curl\t7\t<40>\t<0>\t<40>",
            "",
            "Top Inbound IPs (3)",
            "IP\tBytes",
            "198.51.100.5\t<40>",
            "",
            "Top Outbound IPs (3)",
            "IP\tBytes",
        ]
    );
}

fn float_human_bytes(n: u64) -> String {
    const KB: f64 = 1024.0;
    const MB: f64 = 1024.0 * KB;
    const GB: f64 = 1024.0 * MB;
    const TB: f64 = 1024.0 * GB;
    let value = n as f64;
    if value >= TB {
        format!("{:.2} TB", value / TB)
    } else if value >= GB {
        format!("{:.2} GB", value / GB)
    } else if value >= MB {
        format!("{:.2} MB", value / MB)
    } else if value >= KB {
        format!("{:.2} KB", value / KB)
    } else {
        format!("{} B", n)
    }
}

#[test]
fn byte_counts_use_binary_units_with_two_decimals() {
    assert_eq!(delray::report::human_bytes(0), "0 B");
    assert_eq!(delray::report::human_bytes(100), "100 B");
    assert_eq!(delray::report::human_bytes(1023), "1023 B");
    assert_eq!(delray::report::human_bytes(1024), "1.00 KB");
    assert_eq!(delray::report::human_bytes(2048), "2.00 KB");
    assert_eq!(delray::report::human_bytes(1536), "1.50 KB");
    assert_eq!(delray::report::human_bytes(1_048_576), "1.00 MB");
    assert_eq!(delray::report::human_bytes(u64::MAX), "16777216.00 TB");
}

#[test]
fn byte_counts_match_floating_point_formatting() {
    let mut samples: Vec<u64> = vec![
        1152, 1_153, 5_000, 1_048_575, 1_048_577, 123_456_789, 1_073_741_823, 1_073_741_824,
        1_099_511_627_775, 1_099_511_627_776, 9_007_199_254_740_991, 9_007_199_254_740_993,
        18_014_398_509_481_985, 18_446_744_073_709_550_591, u64::MAX - 1,
    ];
    // Ties at the second decimal (k + 1/8 and k + 3/8 of a unit), in every unit.
    for unit in [1u64 << 10, 1 << 20, 1 << 30, 1 << 40] {
        for k in 1..40u64 {
            samples.push(k * unit + unit / 8);
            samples.push(k * unit + 3 * unit / 8);
            samples.push(k * unit + unit / 8 + 1);
        }
    }
    // A spread of values over the whole range.
    let mut x: u64 = 0x9E37_79B9_7F4A_7C15;
    for _ in 0..5000 {
        x ^= x << 13;
        x ^= x >> 7;
        x ^= x << 17;
        samples.push(x >> (x % 60));
        samples.push(x);
    }
    for n in samples {
        assert_eq!(delray::report::human_bytes(n), float_human_bytes(n), "n = {n}");
    }
}

#[test]
fn host_name_is_the_trimmed_command_output() {
    assert_eq!(delray::report::host_name(Some(b"web-01\n".to_vec())), "web-01");
    assert_eq!(delray::report::host_name(Some(b"  a b \t".to_vec())), "a b");
    assert_eq!(delray::report::host_name(Some(vec![0xff, 0xfe])), "unknown");
    assert_eq!(delray::report::host_name(None), "unknown");
}
