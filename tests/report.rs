use rsfetch::output::{bold, OutputHelper, OutputOptions, OutputType};
use rsfetch::report::{document, get_default_logo, label, music_selected, plan, record_all, Fact};

fn options(output_type: OutputType) -> OutputOptions {
    OutputOptions { output_type, caps: true, bold: false, use_borders: false, borders: '■' }
}

#[test]
fn minimal_two_entries() {
    let mut w = OutputHelper::new(options(OutputType::Minimal));
    w.add("USER", "alice");
    w.add("HOST", "box1");
    assert_eq!(w.output(), "alice\nbox1\n");
}

#[test]
fn minimal_ignores_logo() {
    let mut w = OutputHelper::new(options(OutputType::Minimal));
    w.ascii("LOGO".to_string());
    w.add("USER", "alice");
    assert_eq!(w.output(), "alice\n");
}

#[test]
fn rendering_twice_is_identical() {
    for style in [OutputType::Minimal, OutputType::Bordered, OutputType::Plain] {
        let mut w = OutputHelper::new(options(style));
        w.ascii("logo".to_string());
        w.add("USER", "alice");
        w.add("HOST", "box1");
        assert_eq!(w.output(), w.output());
    }
}

#[test]
fn plain_aligns_lowercased_labels() {
    let mut o = options(OutputType::Plain);
    o.caps = false;
    let mut w = OutputHelper::new(o);
    w.add("USER", "alice");
    w.add("IP ADDRESS", "10.0.0.1");
    assert_eq!(w.output(), "user       alice\nip address 10.0.0.1\n");
}

#[test]
fn plain_with_equals_column_and_bold() {
    let mut o = options(OutputType::Plain);
    o.use_borders = true;
    o.bold = true;
    let mut w = OutputHelper::new(o);
    w.add("CPU", "x");
    assert_eq!(w.output(), "\u{1b}[1mCPU\u{1b}[0m = x\n");
}

#[test]
fn bordered_frames_rows() {
    let mut w = OutputHelper::new(options(OutputType::Bordered));
    w.add("USER", "alice");
    let out = w.output();
    assert!(out.starts_with('■'));
    assert!(out.contains("│ USER "));
    assert!(out.contains(" alice │"));
    assert!(out.contains('─'));
}

#[test]
fn bordered_prints_bold_logo_first() {
    let mut w = OutputHelper::new(options(OutputType::Bordered));
    w.ascii("LOGO".to_string());
    w.add("USER", "alice");
    assert!(w.output().starts_with("\u{1b}[1mLOGO\u{1b}[0m\n■"));
}

#[test]
fn bold_wraps_text() {
    assert_eq!(bold("x"), "\u{1b}[1mx\u{1b}[0m");
}

#[test]
fn plan_follows_fixed_order() {
    let a = plan(&vec![Fact::Cpu, Fact::User, Fact::Kernel]);
    let b = plan(&vec![Fact::Kernel, Fact::Cpu, Fact::User, Fact::Cpu]);
    assert_eq!(a, vec![Fact::User, Fact::Kernel, Fact::Cpu]);
    assert_eq!(a, b);
}

fn report_for(requested: Vec<Fact>) -> String {
    let planned = plan(&requested);
    let outcomes: Vec<(Fact, Option<String>)> =
        planned.iter().map(|f| (*f, Some(format!("{:?}", f)))).collect();
    let mut w = OutputHelper::new(options(OutputType::Plain));
    record_all(&mut w, &outcomes, "apt");
    document(&w, &requested, false)
}

#[test]
fn permuted_requests_give_identical_reports() {
    let a = report_for(vec![Fact::Shell, Fact::User, Fact::Packages]);
    let b = report_for(vec![Fact::Packages, Fact::Shell, Fact::User]);
    assert_eq!(a, b);
    assert_eq!(a, "USER           User\nSHELL          Shell\nPACKAGES (APT) Packages\n\n");
}

#[test]
fn failed_provider_is_omitted() {
    let outcomes = vec![
        (Fact::User, Some("alice".to_string())),
        (Fact::Host, None),
        (Fact::Kernel, Some("6.1".to_string())),
    ];
    let mut w = OutputHelper::new(options(OutputType::Minimal));
    record_all(&mut w, &outcomes, "");
    assert_eq!(w.output(), "alice\n6.1\n");
}

#[test]
fn nothing_selected_prints_nothing() {
    let w = OutputHelper::new(options(OutputType::Bordered));
    assert_eq!(document(&w, &vec![], false), "");
}

#[test]
fn logo_request_adds_leading_blank_line() {
    let mut w = OutputHelper::new(options(OutputType::Minimal));
    w.add("USER", "alice");
    assert_eq!(document(&w, &vec![Fact::User], true), "\nalice\n\n");
}

#[test]
fn labels() {
    assert_eq!(label(Fact::Packages, "pacman"), "PACKAGES (PACMAN)");
    assert_eq!(label(Fact::WindowManager, ""), "WM/DE");
    assert_eq!(label(Fact::IpAddress, ""), "IP ADDRESS");
    assert_eq!(label(Fact::Music, ""), "MUSIC (MPD)");
}

#[test]
fn music_source() {
    assert!(music_selected("mpd"));
    assert!(!music_selected("spotify"));
}

#[test]
fn default_logo_lines() {
    let logo = get_default_logo();
    assert!(logo.starts_with("\u{1b}[1m \\    / /\\   |"));
    assert!(logo.ends_with("|---   |\u{1b}[0m\n"));
    assert_eq!(logo.matches('\n').count(), 3);
}

#[test]
fn caps_uppercases_labels() {
    let mut w = OutputHelper::new(options(OutputType::Plain));
    w.add("user", "alice");
    assert_eq!(w.output(), "USER alice\n");
}

#[test]
fn bordered_survives_unclosed_escapes() {
    let mut o = options(OutputType::Bordered);
    o.bold = true;
    let mut w = OutputHelper::new(o);
    w.add("USER", "\u{1b}[\u{644}\u{627}\u{644}\u{627}\u{644}\u{627}\u{644}\u{627}");
    let out = w.output();
    assert!(out.contains("\u{1b}[1mUSER\u{1b}[0m"));
    assert!(out.contains("[\u{644}\u{627}"));
    assert_eq!(out.matches('\u{1b}').count(), 2);
}

#[test]
fn plain_drops_escapes_from_values() {
    let mut w = OutputHelper::new(options(OutputType::Plain));
    w.add("USER", "a\u{1b}b");
    assert_eq!(w.output(), "USER ab\n");
}
