use rsfetch::error::ProviderError;
use rsfetch::memory::{Platform, RAMInfo, RawMemory};

fn raw(meminfo: &str, physmem: &str, vmstat: &str, page_counts: &str) -> RawMemory {
    RawMemory {
        meminfo: meminfo.to_string(),
        physmem: physmem.to_string(),
        vmstat: vmstat.to_string(),
        page_counts: page_counts.to_string(),
    }
}

const LINUX: &str = "MemTotal:       16384000 kB\nMemFree:         8192000 kB\nMemAvailable:    9000000 kB\nBuffers:          204800 kB\nCached:          1024000 kB\nShmem:             51200 kB\nSReclaimable:     102400 kB\n";

#[test]
fn unknown_amounts_render_placeholder() {
    assert_eq!(RAMInfo::new().format(), "? / ?");
}

#[test]
fn unknown_platform_keeps_placeholder() {
    let mut ram = RAMInfo::new();
    assert_eq!(ram.get(&Platform::Unknown, &raw(LINUX, "1", "", "")), Ok(()));
    assert_eq!(ram.format(), "? / ?");
}

#[test]
fn linux_scenario() {
    let mut ram = RAMInfo::new();
    assert_eq!(ram.get(&Platform::Linux, &raw(LINUX, "", "", "")), Ok(()));
    assert_eq!(ram.format(), "6.59GiB / 15.63GiB");
}

#[test]
fn linux_small_amounts_in_mib() {
    let mut ram = RAMInfo::new();
    let text = "MemTotal: 1024000 kB\nMemFree: 512000 kB\n";
    assert_eq!(ram.get(&Platform::Linux, &raw(text, "", "", "")), Ok(()));
    assert_eq!(ram.format(), "500MiB / 1000MiB");
}

#[test]
fn linux_inconsistent_counters_go_negative() {
    let mut ram = RAMInfo::new();
    let text = "MemTotal: 1000 kB\nMemFree: 3048 kB\n";
    assert_eq!(ram.get(&Platform::Linux, &raw(text, "", "", "")), Ok(()));
    assert_eq!(ram.format(), "-2MiB / 1MiB");
}

#[test]
fn linux_malformed_counter_fails() {
    let mut ram = RAMInfo::new();
    let text = "MemTotal: lots kB\nMemFree: 3048 kB\n";
    assert_eq!(ram.get(&Platform::Linux, &raw(text, "", "", "")), Err(ProviderError::ParseFailure));
    assert_eq!(ram.format(), "? / ?");
}

#[test]
fn openbsd_reading() {
    let mut ram = RAMInfo::new();
    let vmstat = " procs    memory\n r b w avm\n 1 0 524288000 9\n";
    assert_eq!(ram.get(&Platform::OpenBSD, &raw("", "8589934592\n", vmstat, "")), Ok(()));
    assert_eq!(ram.format(), "500MiB / 8.00GiB");
}

#[test]
fn openbsd_short_report_fails() {
    let mut ram = RAMInfo::new();
    assert_eq!(
        ram.get(&Platform::OpenBSD, &raw("", "8589934592\n", "1 2\n", "")),
        Err(ProviderError::ParseFailure)
    );
}

#[test]
fn freebsd_reading() {
    let mut ram = RAMInfo::new();
    let counts = "4096\n100000\n200000\n0\n";
    assert_eq!(ram.get(&Platform::FreeBSD, &raw("", "4294967296\n", "", counts)), Ok(()));
    assert_eq!(ram.format(), "2.86GiB / 4.00GiB");
}

#[test]
fn dragonfly_uses_bsd_formula() {
    let mut ram = RAMInfo::new();
    let counts = "4096\n100000\n200000\n0\n";
    assert_eq!(ram.get(&Platform::DragonflyBSD, &raw("", "4294967296", "", counts)), Ok(()));
    assert_eq!(ram.format(), "2.86GiB / 4.00GiB");
}

#[test]
fn freebsd_missing_counts_fail() {
    let mut ram = RAMInfo::new();
    assert_eq!(
        ram.get(&Platform::FreeBSD, &raw("", "4294967296", "", "4096\n1\n")),
        Err(ProviderError::ParseFailure)
    );
}

#[test]
fn netbsd_reading_keeps_units_unconverted() {
    let mut ram = RAMInfo::new();
    assert_eq!(ram.get(&Platform::NetBSD, &raw("MemFree: 200 kB\n", "1000\n", "", "")), Ok(()));
    assert_eq!(ram.format(), "800MiB / 1000MiB");
}

#[test]
fn used_never_exceeds_total_on_each_platform() {
    // Each reading's used side is smaller than its total side.
    let cases: Vec<(Platform, RawMemory, &str)> = vec![
        (Platform::Linux, raw(LINUX, "", "", ""), "6.59GiB / 15.63GiB"),
        (Platform::OpenBSD, raw("", "8589934592", "1 0 524288000\n", ""), "500MiB / 8.00GiB"),
        (Platform::FreeBSD, raw("", "4294967296", "", "4096\n1\n2\n3\n"), "4.00GiB / 4.00GiB"),
        (Platform::NetBSD, raw("MemFree: 10 kB", "100", "", ""), "90MiB / 100MiB"),
    ];
    for (p, r, expected) in cases {
        let mut ram = RAMInfo::new();
        assert_eq!(ram.get(&p, &r), Ok(()));
        assert_eq!(ram.format(), expected);
    }
}

#[test]
fn linux_malformed_line_fails_even_when_repeated() {
    let mut ram = RAMInfo::new();
    let text = "MemTotal: x kB\nMemTotal: 1024000 kB\n";
    assert_eq!(ram.get(&Platform::Linux, &raw(text, "", "", "")), Err(ProviderError::ParseFailure));
    let text = "MemTotal: 2048000 kB\nMemTotal: 1024000 kB\nMemFree: 0 kB\n";
    assert_eq!(ram.get(&Platform::Linux, &raw(text, "", "", "")), Ok(()));
    assert_eq!(ram.format(), "1000MiB / 1000MiB");
}
