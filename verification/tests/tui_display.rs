use nimbus::opener::{is_executable, Platform};
use nimbus::widgets::{human_size, pad_or_truncate};
use nimbus::wrap::{split_to_width, wrap_indented};

// --- wrap_indented ---

#[test]
fn wrap_indented_keeps_short_text_on_one_line() {
    assert_eq!(wrap_indented("hello there", 0, 40), vec!["hello there"]);
}

#[test]
fn wrap_indented_breaks_at_word_boundaries() {
    let lines = wrap_indented("one two three four", 0, 9);
    assert_eq!(lines, vec!["one two", "three", "four"]);
}

#[test]
fn wrap_indented_prefixes_every_line_with_the_indent() {
    let lines = wrap_indented("one two three", 2, 9);
    assert!(lines.iter().all(|line| line.starts_with("  ")));
    assert!(lines.len() > 1);
}

#[test]
fn wrap_indented_breaks_a_word_too_long_to_fit() {
    let lines = wrap_indented("Object not found: aaaaaaaaaaaaaaaaaaaaaaaa", 0, 10);
    assert!(
        lines.iter().all(|line| line.chars().count() <= 10),
        "over-long line in {lines:?}"
    );
    let rejoined: String = lines.concat().chars().filter(|c| *c != ' ').collect();
    assert!(rejoined.contains(&"a".repeat(24)));
}

#[test]
fn wrap_indented_respects_the_indent_when_breaking_a_long_word() {
    let lines = wrap_indented(&"b".repeat(30), 4, 12);
    assert!(
        lines.iter().all(|line| line.chars().count() <= 12),
        "over-long line in {lines:?}"
    );
}

#[test]
fn wrap_indented_survives_a_zero_width() {
    assert!(!wrap_indented("anything at all", 0, 0).is_empty());
}

#[test]
fn wrap_indented_treats_runs_of_white_space_as_one_break() {
    assert_eq!(wrap_indented("  a\t\tb\n c  ", 1, 20), vec![" a b c"]);
    assert!(wrap_indented(" \t\n", 0, 10).is_empty());
}

#[test]
fn wrap_indented_exact_chunking_of_a_long_word() {
    assert_eq!(wrap_indented("abcdefg", 2, 5), vec!["  abc", "  def", "  g"]);
}

#[test]
fn split_to_width_leaves_short_words_whole_and_cuts_long_ones() {
    assert_eq!(split_to_width("abc", 3), vec!["abc"]);
    assert_eq!(split_to_width("abcdefgh", 3), vec!["abc", "def", "gh"]);
}

// --- opener ---

#[test]
fn shebang_scripts_are_executable_everywhere() {
    assert!(is_executable(b"#!/bin/sh\necho hi\n", None, Platform::Unix));
    assert!(is_executable(b"#!/usr/bin/env python3\n", Some("py"), Platform::Unix));
    assert!(is_executable(b"#!/bin/sh\n", None, Platform::Windows));
    assert!(is_executable(b"#!/bin/sh\n", None, Platform::MacOs));
}

#[test]
fn documents_are_not_executable() {
    assert!(!is_executable(b"# notes\n\nsome text\n", Some("md"), Platform::Unix));
    assert!(!is_executable(b"{\"a\": 1}", Some("json"), Platform::Unix));
    assert!(!is_executable(b"", None, Platform::Unix));
    assert!(!is_executable(b"# not a shebang\n", Some("toml"), Platform::Unix));
}

#[test]
fn elf_binaries_are_executable_on_linux() {
    assert!(is_executable(b"\x7FELF\x02\x01\x01\x00", None, Platform::Unix));
}

#[test]
fn foreign_binaries_are_left_to_the_opener() {
    assert!(!is_executable(b"MZ\x90\x00\x03\x00\x00\x00", Some("exe"), Platform::Unix));
    assert!(!is_executable(b"\xCF\xFA\xED\xFE\x0C\x00\x00\x01", None, Platform::Unix));
}

#[test]
fn windows_decides_by_extension() {
    assert!(is_executable(b"echo hi", Some("BAT"), Platform::Windows));
    assert!(is_executable(b"MZ\x90\x00", Some("exe"), Platform::Windows));
    assert!(!is_executable(b"\x7FELF", Some("exe"), Platform::Windows));
    assert!(!is_executable(b"MZ\x90\x00", Some("dll"), Platform::Windows));
    assert!(!is_executable(b"MZ\x90\x00", None, Platform::Windows));
}

#[test]
fn mac_os_runs_mach_o_only() {
    assert!(is_executable(b"\xCF\xFA\xED\xFE\x0C\x00", None, Platform::MacOs));
    assert!(is_executable(b"\xCA\xFE\xBA\xBE", None, Platform::MacOs));
    assert!(!is_executable(b"\x7FELF", None, Platform::MacOs));
}

// --- human_size ---

#[test]
fn human_size_reports_plain_bytes_below_a_kilobyte() {
    assert_eq!(human_size(0), "0B");
    assert_eq!(human_size(999), "999B");
    assert_eq!(human_size(1023), "1023B");
}

#[test]
fn human_size_switches_unit_at_each_power_of_1024() {
    assert_eq!(human_size(1024), "1.0K");
    assert_eq!(human_size(1024 * 1024), "1.0M");
    assert_eq!(human_size(1024 * 1024 * 1024), "1.0G");
}

#[test]
fn human_size_drops_the_decimal_once_it_stops_adding_information() {
    assert_eq!(human_size(1536), "1.5K");
    assert_eq!(human_size(20 * 1024), "20K");
}

#[test]
fn human_size_saturates_at_the_largest_unit() {
    let huge = 5_u64 * 1024 * 1024 * 1024 * 1024 * 1024;
    assert!(huge > u64::from(u32::MAX));
    assert!(human_size(huge).ends_with('T'));
}

#[test]
fn human_size_matches_float_formatting_at_rounding_edges() {
    for bytes in [1024u64, 1075, 1076, 1126, 1127, 10239, 10240, 10752, 11264, 1_048_575, 123_456_789, 5 * 1024 * 1024 * 1024 * 1024 * 1024] {
        let mut value = bytes as f64;
        let mut unit = 0;
        let units = ["B", "K", "M", "G", "T"];
        while value >= 1024.0 && unit < 4 {
            value /= 1024.0;
            unit += 1;
        }
        let expected = if value < 10.0 {
            format!("{value:.1}{}", units[unit])
        } else {
            format!("{value:.0}{}", units[unit])
        };
        assert_eq!(human_size(bytes), expected, "for {bytes}");
    }
}

// --- pad_or_truncate ---

#[test]
fn pad_or_truncate_pads_short_text_to_the_full_width() {
    assert_eq!(pad_or_truncate("ab", 5), "ab   ");
}

#[test]
fn pad_or_truncate_leaves_exact_width_text_alone() {
    assert_eq!(pad_or_truncate("abcde", 5), "abcde");
}

#[test]
fn pad_or_truncate_elides_the_middle_and_keeps_the_width() {
    let result = pad_or_truncate("a-very-long-file-name.txt", 12);
    assert_eq!(result.chars().count(), 12);
    assert!(result.contains('…'));
    assert!(result.ends_with(".txt"));
}

#[test]
fn pad_or_truncate_counts_characters_not_bytes() {
    let result = pad_or_truncate("ünïcödé-näme-with-áccents.txt", 10);
    assert_eq!(result.chars().count(), 10);
}

#[test]
fn pad_or_truncate_handles_degenerate_widths() {
    assert_eq!(pad_or_truncate("abcdef", 1), "…");
    assert_eq!(pad_or_truncate("abcdef", 0), "");
}

#[test]
fn pad_or_truncate_exact_elision() {
    assert_eq!(pad_or_truncate("abcdefgh", 6), "abc…gh");
}

use nimbus::frontend::{saved_status, write_back_step, WriteBack};
use nimbus::opener::{editor_name, opener_command, runs_through_cmd};

#[test]
fn the_system_opener_and_editor_depend_on_the_platform() {
    assert_eq!(opener_command(Platform::MacOs), ("open", Vec::<&str>::new()));
    assert_eq!(opener_command(Platform::Unix), ("xdg-open", Vec::<&str>::new()));
    assert_eq!(opener_command(Platform::Windows), ("cmd", vec!["/C", "start", ""]));
    assert_eq!(editor_name(Some("nvim".to_string()), Some("code".to_string()), Platform::Unix), "nvim");
    assert_eq!(editor_name(None, Some("code".to_string()), Platform::Unix), "code");
    assert_eq!(editor_name(None, None, Platform::Unix), "vi");
    assert_eq!(editor_name(None, None, Platform::Windows), "notepad");
    assert!(runs_through_cmd(Some("BAT"), Platform::Windows));
    assert!(runs_through_cmd(Some("cmd"), Platform::Windows));
    assert!(!runs_through_cmd(Some("exe"), Platform::Windows));
    assert!(!runs_through_cmd(Some("bat"), Platform::Unix));
    assert!(!runs_through_cmd(None, Platform::Windows));
}

#[test]
fn edits_are_written_back_only_when_the_bytes_changed() {
    assert_eq!(
        write_back_step("a.txt", Ok(b"same".to_vec()), b"same", false),
        WriteBack::Done("closed a.txt — unchanged".to_string())
    );
    assert_eq!(
        write_back_step("a.txt", Ok(b"same".to_vec()), b"same", true),
        WriteBack::Done("opened a.txt — edits made after this won't be saved back".to_string())
    );
    assert_eq!(
        write_back_step("a.txt", Ok(b"new".to_vec()), b"old", true),
        WriteBack::Save(b"new".to_vec())
    );
    assert_eq!(
        write_back_step("a.txt", Err("gone".to_string()), b"old", false),
        WriteBack::Done("couldn't read back a.txt: gone".to_string())
    );
    assert_eq!(saved_status("a.txt", Ok(())), "saved a.txt");
    assert_eq!(saved_status("a.txt", Err("denied".to_string())), "couldn't save a.txt: denied");
}

#[test]
fn split_to_width_keeps_an_empty_word_at_any_width() {
    assert_eq!(split_to_width("", 0), vec![""]);
    assert_eq!(split_to_width("", 4), vec![""]);
}
