use dbbenches::{
    cpu_model_from, get_postgres_version, get_rust_version, is_white_space_char, mem_total_kib,
    parse_core_count, trim_text,
};

#[test]
fn rust_version_falls_back_to_unknown() {
    assert_eq!(get_rust_version(None), "unknown");
    assert_eq!(get_rust_version(Some("rustc 1.80.0".to_string())), "rustc 1.80.0");
}

#[test]
fn postgres_version_stays_absent() {
    assert_eq!(get_postgres_version(None), None);
    assert_eq!(get_postgres_version(Some("psql 16".to_string())), Some("psql 16".to_string()));
}

#[test]
fn cpu_model_is_the_trimmed_field_after_the_colon() {
    assert_eq!(cpu_model_from("model name\t: Intel(R) Xeon(R) CPU @ 2.20GHz"), "Intel(R) Xeon(R) CPU @ 2.20GHz");
    assert_eq!(cpu_model_from("a: b :c"), "b");
    assert_eq!(cpu_model_from("Apple M2"), "Apple M2");
    assert_eq!(cpu_model_from("x:"), "");
}

#[test]
fn core_count_parses_a_u32() {
    assert_eq!(parse_core_count("8"), Some(8));
    assert_eq!(parse_core_count("4294967295"), Some(u32::MAX));
    assert_eq!(parse_core_count("4294967296"), None);
    assert_eq!(parse_core_count("eight"), None);
    assert_eq!(parse_core_count(""), None);
}

#[test]
fn mem_total_is_the_second_word() {
    assert_eq!(mem_total_kib("MemTotal:       16384256 kB"), Some(16384256));
    assert_eq!(mem_total_kib("  MemTotal: 12"), Some(12));
    assert_eq!(mem_total_kib("MemTotal:"), None);
    assert_eq!(mem_total_kib("MemTotal: lots kB"), None);
    assert_eq!(mem_total_kib(""), None);
}

#[test]
fn trimming_removes_unicode_white_space() {
    assert_eq!(trim_text("  a b \n"), "a b");
    assert_eq!(trim_text("\u{3000}x\u{a0}"), "x");
    assert_eq!(trim_text(" \t "), "");
    assert!(is_white_space_char('\u{2009}'));
    assert!(!is_white_space_char('\u{200b}'));
    assert!(!is_white_space_char('x'));
}
