use mu::status::model::{escape_html_json, human_bytes, human_kb};
use mu::status::proc::{
    cpu_deltas, net_deltas, MountEntry, StatfsInfo, collect_disks, disk_mounts, parse_mount_info, read_cpu_from, read_memory_from,
    read_network_from, text_lines, unescape_mount_path,
};
use mu::status::{CPUSample, DiskStat, MemStats, NetStat};

const PROC_STAT: &str = "cpu  1234567 12345 345678 89012345 12345 1234 12345 0 0 0\n\
cpu0 617283 6172 172839 44506172 6172 617 6172 0 0 0\n\
intr 123456789\n";

const PROC_MEMINFO: &str = "MemTotal:       16384000 kB\n\
MemFree:         4096000 kB\n\
MemAvailable:    8192000 kB\n\
Buffers:          512000 kB\n\
Cached:          3072000 kB\n\
SwapTotal:       4194304 kB\n\
SwapFree:        4194304 kB\n";

const PROC_NET_DEV: &str = "Inter-|   Receive                                                |  Transmit\n \
face |bytes    packets errs drop fifo frame compressed multicast|bytes    packets errs drop fifo colls carrier compressed\n    \
lo:  123456     100    0    0    0     0          0         0   123456     100    0    0    0     0       0          0\n  \
eth0: 1234567890 1000000 0 0 0 0 0 0 987654321 800000 0 0 0 0 0 0\n \
wlan0: 98765432 90000 0 0 0 0 0 0 87654321 70000 0 0 0 0 0 0\n";

fn statfs_ok(blocks: u64, bsize: i64, bavail: u64, dev: u64) -> StatfsInfo {
    StatfsInfo { blocks, bsize, bavail, dev }
}

/// The disks of a mountinfo text, asking `statfs` about each candidate
/// mount in order, as the program reads them. Calling `statfs` is I/O,
/// which stays with the program; the library parses the mounts, picks the
/// candidates and turns the answers into disks, and this test strings those
/// steps together around a stand-in for `statfs`.
fn read_disk_from(
    text: &str,
    statfs: &mut dyn FnMut(&str) -> Result<StatfsInfo, String>,
) -> (Vec<DiskStat>, Option<mu::error::Error>) {
    let entries = parse_mount_info(&text_lines(text));
    let mounts: Vec<MountEntry> = disk_mounts(entries);
    let stats: Vec<Result<StatfsInfo, String>> = mounts.iter().map(|m| statfs(&m.mount)).collect();
    collect_disks(&mounts, &stats)
}

fn net<'a>(nets: &'a [(String, NetStat)], name: &str) -> Option<&'a NetStat> {
    nets.iter().find(|(n, _)| n == name).map(|(_, s)| s)
}

#[test]
fn escape_html_json_matches_go_encoder() {
    assert_eq!(escape_html_json("{\"e\":[\"a&b <c>\"]}"), "{\"e\":[\"a\\u0026b \\u003cc\\u003e\"]}");
    assert_eq!(escape_html_json("\"x\u{2028}y\""), "\"x\\u2028y\"");
}

#[test]
fn human_formatting() {
    assert_eq!(human_kb(0), "0 B");
    assert_eq!(human_bytes(512), "512 B");
    assert_eq!(human_bytes(1536), "1.5 KB");
    assert_eq!(human_kb(2048), "2.0 MB");
}

#[test]
fn read_cpu_parses_fixture() {
    let sample = read_cpu_from(PROC_STAT).unwrap();
    assert_eq!(
        sample,
        CPUSample {
            user: 1234567,
            nice: 12345,
            system: 345678,
            idle: 89012345,
            iowait: 12345,
            irq: 1234,
            softirq: 12345,
            steal: 0,
        }
    );
}

#[test]
fn read_cpu_error_messages_match_go() {
    let err = read_cpu_from("cpu0 1 2 3 4 5 6 7 8\n").unwrap_err();
    assert_eq!(err.message(), "no cpu line found in /proc/stat");
    let err = read_cpu_from("cpu  1 2\n").unwrap_err();
    assert_eq!(err.message(), "unexpected /proc/stat format: \"cpu  1 2\"");
    let err = read_cpu_from("cpu  1 x 3 4 5 6 7 8\n").unwrap_err();
    assert_eq!(err.message(), "parse /proc/stat field 2: invalid digit found in string");
}

#[test]
fn read_disk_parses_mount_info_and_excludes_efi_variables() {
    let fixture = "36 25 8:1 / / rw,relatime - ext4 /dev/root rw\n\
                   37 25 0:31 / /sys/firmware/efi/efivars rw - efivarfs efivarfs rw\n";
    let mut efi_called = false;
    let (disks, err) = read_disk_from(fixture, &mut |mount: &str| {
        if mount.contains("efivars") {
            efi_called = true;
        }
        Ok(statfs_ok(100, 4096, 40, 1))
    });
    assert!(err.is_none(), "{err:?}");
    assert!(
        !efi_called && disks.len() == 1 && disks[0].mount == "/",
        "pseudo filesystem leaked into disk stats: disks={disks:?} efi_called={efi_called}"
    );
    assert_eq!(disks[0].total_bytes, 100 * 4096);
    assert_eq!(disks[0].free_bytes, 40 * 4096);
}

#[test]
fn read_disk_surfaces_statfs_errors() {
    let fixture = "36 25 8:1 / / rw - ext4 /dev/root rw\n";
    let (disks, err) = read_disk_from(fixture, &mut |_: &str| Err("permission denied".to_string()));
    assert!(disks.is_empty());
    let err = err.expect("statfs error must be reported");
    assert!(err.message().contains("permission denied"), "err={}", err.message());
    assert_eq!(err.message(), "statfs /: permission denied");
}

#[test]
fn read_disk_sorts_root_first_then_by_mount_path_length() {
    let fixture = "36 25 8:1 / /data/longer rw - ext4 /dev/d1 rw\n\
                   37 25 8:2 / /boot rw - ext4 /dev/d2 rw\n\
                   38 25 8:3 / / rw - ext4 /dev/d3 rw\n";
    let (disks, err) = read_disk_from(fixture, &mut |mount: &str| {
        let dev = match mount {
            "/" => 3,
            "/boot" => 2,
            _ => 1,
        };
        Ok(statfs_ok(100, 4096, 40, dev))
    });
    assert!(err.is_none(), "{err:?}");
    let mounts: Vec<&str> = disks.iter().map(|d| d.mount.as_str()).collect();
    assert_eq!(mounts, ["/", "/boot", "/data/longer"]);
}

#[test]
fn read_disk_dedups_by_device_after_zero_blocks_check() {
    let fixture = "36 25 8:1 / / rw - ext4 /dev/root rw\n\
                   37 25 8:2 / /boot rw - ext4 /dev/boot rw\n\
                   38 25 8:3 / /data rw - ext4 /dev/root rw\n\
                   39 25 8:4 / /boot/dup rw - ext4 /dev/boot rw\n";
    let (disks, err) = read_disk_from(fixture, &mut |mount: &str| {
        Ok(match mount {
            "/" => statfs_ok(0, 4096, 0, 1),
            "/data" => statfs_ok(200, 4096, 50, 1),
            _ => statfs_ok(100, 4096, 40, 2),
        })
    });
    assert!(err.is_none(), "{err:?}");
    let mounts: Vec<&str> = disks.iter().map(|d| d.mount.as_str()).collect();
    assert_eq!(mounts, ["/boot", "/data"]);
}

#[test]
fn parse_mount_info_skips_malformed_lines() {
    let fixture = "garbage line without separator\n\
                   1 2 - ext4 r\n\
                   36 25 8:1 / /mnt rw - ext4 /dev/d rw\n";
    let entries = parse_mount_info(&text_lines(fixture));
    assert_eq!(entries.len(), 1);
    assert_eq!(entries[0].mount, "/mnt");
    assert_eq!(entries[0].fstype, "ext4");
}

#[test]
fn unescape_mount_path_decodes_octal_escapes() {
    assert_eq!(unescape_mount_path("/foo\\040bar"), "/foo bar");
    assert_eq!(unescape_mount_path("\\011x\\012y\\134z"), "\tx\ny\\z");
    assert_eq!(unescape_mount_path("\\134040"), "\\040");
    assert_eq!(unescape_mount_path("\\\\040"), "\\ ");
    assert_eq!(unescape_mount_path("a\\"), "a\\");
    assert_eq!(unescape_mount_path("a\\04"), "a\\04");
}

#[test]
fn read_memory_parses_fixture() {
    let m = read_memory_from(PROC_MEMINFO).unwrap();
    assert_eq!(
        m,
        MemStats { total_kb: 16384000, available_kb: 8192000, swap_total_kb: 4194304, swap_free_kb: 4194304 }
    );
}

#[test]
fn read_memory_reports_parse_and_validation_errors() {
    let err = read_memory_from("MemTotal: nope kB\n").unwrap_err();
    assert_eq!(err.message(), "parse MemTotal: invalid digit found in string");
    let err = read_memory_from("MemAvailable: x kB\nMemTotal: 100 kB\n").unwrap_err();
    assert_eq!(err.message(), "parse MemAvailable: invalid digit found in string");
    let err = read_memory_from("MemTotal: 100 kB\nMemAvailable: 200 kB\n").unwrap_err();
    assert_eq!(err.message(), "required memory metrics unavailable or invalid");
    let err = read_memory_from("MemFree: 100 kB\n").unwrap_err();
    assert_eq!(err.message(), "required memory metrics unavailable or invalid");
}

#[test]
fn read_network_parses_fixture_and_skips_loopback() {
    let (nets, err) = read_network_from(PROC_NET_DEV);
    assert!(err.is_none(), "{err:?}");
    assert_eq!(nets.len(), 2);
    assert!(net(&nets, "lo").is_none());
    assert_eq!(net(&nets, "eth0"), Some(&NetStat { rx_bytes: 1234567890, tx_bytes: 987654321 }));
    assert_eq!(net(&nets, "wlan0"), Some(&NetStat { rx_bytes: 98765432, tx_bytes: 87654321 }));
}

#[test]
fn read_network_collects_bad_lines() {
    let fixture = "header one\n\
                   header two\n\
                   \x20 eth0: 100 0 0 0 0 0 0 0 200 0 0 0 0 0 0 0\n\
                   \x20 bad: 1 2 3\n\
                   \x20 eth1: xx 0 0 0 0 0 0 0 yy 0 0 0 0 0 0 0\n\
                   no colon on this line\n";
    let (nets, err) = read_network_from(fixture);
    assert_eq!(nets.len(), 1);
    assert_eq!(net(&nets, "eth0"), Some(&NetStat { rx_bytes: 100, tx_bytes: 200 }));
    let err = err.expect("parse errors must be reported").message();
    assert!(err.contains("unexpected /proc/net/dev format for bad"), "{err}");
    assert!(
        err.contains("parse network counters for eth1: invalid digit found in string\ninvalid digit found in string"),
        "{err}"
    );
}

/// CPU usage between two samples, as the program computes it from the
/// tick deltas. The library computes the deltas (`cpu_deltas`); the
/// percentage is floating point, which stays with the program, so this test
/// repeats that last step here.
fn cpu_percent(prev: CPUSample, curr: CPUSample) -> f64 {
    match cpu_deltas(prev, curr) {
        None => 0.0,
        Some((total, idle)) => ((1.0 - idle as f64 / total as f64) * 100.0).clamp(0.0, 100.0),
    }
}

/// Bytes per second of each interface, as the program computes them.
fn network_rates(prev: &[(String, NetStat)], curr: &[(String, NetStat)], elapsed: f64) -> Vec<(String, u64, u64)> {
    let elapsed = if elapsed <= 0.0 { 1.0 } else { elapsed };
    net_deltas(prev, curr)
        .into_iter()
        .map(|(name, d)| match d {
            None => (name, 0, 0),
            Some((rx, tx)) => (name, (rx as f64 / elapsed) as u64, (tx as f64 / elapsed) as u64),
        })
        .collect()
}

fn eth0(rx: u64, tx: u64) -> Vec<(String, NetStat)> {
    vec![("eth0".to_string(), NetStat { rx_bytes: rx, tx_bytes: tx })]
}

#[test]
fn cpu_percent_computes_expected_usage() {
    let s1 = CPUSample { user: 1000, nice: 0, system: 100, idle: 9000, iowait: 50, irq: 0, softirq: 0, steal: 0 };
    let s2 = CPUSample { user: 1100, nice: 0, system: 150, idle: 9200, iowait: 50, irq: 0, softirq: 0, steal: 0 };
    assert_eq!(cpu_deltas(s1, s2), Some((350, 200)));
    let pct = cpu_percent(s1, s2);
    assert!(pct > 42.0 && pct < 44.0, "expected ~42.9%, got {pct:.2}%");
}

#[test]
fn cpu_percent_counter_reset_clamps_to_zero() {
    let prev = CPUSample { user: 100, idle: 900, ..CPUSample::default() };
    let curr = CPUSample { user: 50, idle: 400, ..CPUSample::default() };
    assert_eq!(cpu_percent(prev, curr), 0.0);
}

#[test]
fn cpu_percent_zero_prev_gives_zero() {
    let prev = CPUSample::default();
    let curr = CPUSample { user: 100, idle: 900, ..CPUSample::default() };
    assert_eq!(cpu_percent(prev, curr), 0.0);
}

#[test]
fn network_rates_computes_delta() {
    let rates = network_rates(&eth0(1000, 500), &eth0(2000, 1500), 1.0);
    assert_eq!(rates, vec![("eth0".to_string(), 1000, 1000)]);
}

#[test]
fn network_rates_no_prev_gives_zero() {
    let rates = network_rates(&[], &eth0(2000, 1500), 1.0);
    assert_eq!(rates, vec![("eth0".to_string(), 0, 0)]);
}

#[test]
fn network_rates_counter_reset_gives_zero() {
    let rates = network_rates(&eth0(2000, 1500), &eth0(1000, 500), 1.0);
    assert_eq!(rates, vec![("eth0".to_string(), 0, 0)]);
}

#[test]
fn network_rates_zero_or_negative_elapsed_uses_one_second() {
    for elapsed in [0.0, -2.5] {
        let rates = network_rates(&eth0(1000, 500), &eth0(2000, 1500), elapsed);
        assert_eq!(rates, vec![("eth0".to_string(), 1000, 1000)], "elapsed={elapsed}");
    }
}

#[test]
fn network_rates_elapsed_divides_and_truncates() {
    let rates = network_rates(&eth0(0, 0), &eth0(1001, 999), 2.0);
    assert_eq!(rates, vec![("eth0".to_string(), 500, 499)]);
}
