use rsfetch::cpu::CPUInfo;
use rsfetch::env::{EnvInfo, EnvItem, EnvSources};
use rsfetch::error::ProviderError;
use rsfetch::facts::{distro, package_count, single_value, uptime, window_manager};
use rsfetch::music::MusicInfo;

fn sources() -> EnvSources {
    EnvSources { id_output: None, user: None, shell: None, visual: None, editor: None }
}

#[test]
fn cpu_reads_model_cores_and_frequency() {
    let mut cpu = CPUInfo::new();
    let info = "processor\t: 0\nHardware\t: BCM2835\nprocessor\t: 1\nprocessor\t: 3\n\nSerial\t: 00ab\n";
    assert_eq!(cpu.get(info, "1500000\n"), Ok(()));
    assert_eq!(cpu.model, "BCM2835");
    assert_eq!(cpu.cores, 4);
    assert_eq!(cpu.freq, 1500);
    assert_eq!(cpu.format(), "BCM2835 (4) @ 1500MHz");
}

#[test]
fn cpu_bad_core_number_fails() {
    let mut cpu = CPUInfo::new();
    assert_eq!(cpu.get("processor : x\n", "1000"), Err(ProviderError::ParseFailure));
    assert_eq!(cpu.cores, 0);
}

#[test]
fn cpu_bad_frequency_fails() {
    let mut cpu = CPUInfo::new();
    assert_eq!(cpu.get("processor : 0\n", "fast"), Err(ProviderError::ParseFailure));
}

#[test]
fn cpu_unknown_model_placeholder() {
    assert_eq!(CPUInfo::new().format(), "?");
    let mut cpu = CPUInfo::new();
    assert_eq!(cpu.get("processor : 1\n", "2000000"), Ok(()));
    assert_eq!(cpu.format(), "? (2) @ 2000MHz");
}

#[test]
fn env_user_from_id_query() {
    let mut env = EnvInfo::new();
    let mut src = sources();
    src.id_output = Some("alice\n".to_string());
    src.user = Some("bob".to_string());
    assert_eq!(env.get(EnvItem::User, &src), Ok(()));
    assert_eq!(env.format(EnvItem::User), "alice");
}

#[test]
fn env_user_falls_back_to_variable() {
    let mut env = EnvInfo::new();
    let mut src = sources();
    src.id_output = Some("\n".to_string());
    src.user = Some(" bob ".to_string());
    assert_eq!(env.get(EnvItem::User, &src), Ok(()));
    assert_eq!(env.format(EnvItem::User), "bob");
}

#[test]
fn env_user_missing_fails() {
    let mut env = EnvInfo::new();
    assert_eq!(env.get(EnvItem::User, &sources()), Err(ProviderError::SourceUnavailable));
    assert_eq!(env.format(EnvItem::User), "?");
}

#[test]
fn env_shell_last_path_component() {
    let mut env = EnvInfo::new();
    let mut src = sources();
    src.shell = Some("/usr/bin/zsh".to_string());
    assert_eq!(env.get(EnvItem::Shell, &src), Ok(()));
    assert_eq!(env.format(EnvItem::Shell), "zsh");
    assert_eq!(env.get(EnvItem::Shell, &sources()), Err(ProviderError::SourceUnavailable));
}

#[test]
fn env_editor_prefers_visual() {
    let mut env = EnvInfo::new();
    let mut src = sources();
    src.editor = Some(" vim".to_string());
    assert_eq!(env.get(EnvItem::Editor, &src), Ok(()));
    assert_eq!(env.format(EnvItem::Editor), "vim");
    src.visual = Some("emacs\n".to_string());
    assert_eq!(env.get(EnvItem::Editor, &src), Ok(()));
    assert_eq!(env.format(EnvItem::Editor), "emacs");
}

#[test]
fn env_acquired_empty_value_is_kept() {
    let mut env = EnvInfo::new();
    assert_eq!(env.format(EnvItem::Editor), "?");
    let mut src = sources();
    src.visual = Some("   ".to_string());
    assert_eq!(env.get(EnvItem::Editor, &src), Ok(()));
    assert_eq!(env.format(EnvItem::Editor), "");
    src.shell = Some("/bin/".to_string());
    assert_eq!(env.get(EnvItem::Shell, &src), Ok(()));
    assert_eq!(env.format(EnvItem::Shell), "");
}

#[test]
fn music_drops_line_end() {
    let mut m = MusicInfo::new();
    m.get("Artist - (2020) Album - Title\n");
    assert_eq!(m.format(), "Artist - (2020) Album - Title");
    m.get("");
    assert_eq!(m.format(), "");
}

#[test]
fn music_never_acquired_placeholder() {
    assert_eq!(MusicInfo::new().format(), "?");
}

#[test]
fn single_values_are_trimmed() {
    assert_eq!(single_value("5.10.0-arch1\n"), Ok("5.10.0-arch1".to_string()));
    assert_eq!(single_value("  \n"), Err(ProviderError::ParseFailure));
}

#[test]
fn uptime_in_days_hours_minutes() {
    assert_eq!(uptime("93784.55 100.00\n"), Ok("1d 2h 3m".to_string()));
    assert_eq!(uptime("59.9 1.0\n"), Ok("0d 0h 0m".to_string()));
    assert_eq!(uptime("\n"), Err(ProviderError::ParseFailure));
}

#[test]
fn distro_pretty_name() {
    let text = "NAME=\"Arch\"\nPRETTY_NAME=\"Arch Linux\"\nID=arch\n";
    assert_eq!(distro(text), Ok("Arch Linux".to_string()));
    assert_eq!(distro("ID=arch\n"), Err(ProviderError::ParseFailure));
}

#[test]
fn package_count_counts_lines() {
    assert_eq!(package_count("a 1\nb 2\nc 3\n"), "3");
    assert_eq!(package_count(""), "0");
}

#[test]
fn window_manager_last_word() {
    assert_eq!(window_manager("#!/bin/sh\nexec i3\n\n"), Ok("i3".to_string()));
    assert_eq!(window_manager("\n \n"), Err(ProviderError::ParseFailure));
}
