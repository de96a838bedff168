use yagit::textfmt::{
    ends_with_newline, log_floor, render_paragraphs, str_eq, str_starts_with, str_trim,
    u64_to_dec, u64_to_dec_padded, usize_to_dec, version, FileSize, Mode,
};

#[test]
fn decimal_rendering() {
    assert_eq!(u64_to_dec(0), "0");
    assert_eq!(u64_to_dec(7), "7");
    assert_eq!(u64_to_dec(10), "10");
    assert_eq!(u64_to_dec(65536), "65536");
    assert_eq!(u64_to_dec(u64::MAX), "18446744073709551615");
    assert_eq!(usize_to_dec(12345), "12345");
}

#[test]
fn padded_decimal() {
    assert_eq!(u64_to_dec_padded(7, 2), "07");
    assert_eq!(u64_to_dec_padded(7, 4), "0007");
    assert_eq!(u64_to_dec_padded(123, 2), "123");
    assert_eq!(u64_to_dec_padded(0, 1), "0");
}

#[test]
fn digit_counts() {
    assert_eq!(log_floor(0), 1);
    assert_eq!(log_floor(9), 1);
    assert_eq!(log_floor(10), 2);
    assert_eq!(log_floor(99), 2);
    assert_eq!(log_floor(100), 3);
}

#[test]
fn file_sizes() {
    assert_eq!(FileSize(0).render(), "0 bytes");
    assert_eq!(FileSize(999).render(), "999 bytes");
    assert_eq!(FileSize(1000).render(), "1K");
    assert_eq!(FileSize(1500).render(), "1K");
    assert_eq!(FileSize(1000000).render(), "1M");
    assert_eq!(FileSize(2500000).render(), "2M");
}

#[test]
fn posix_modes() {
    assert_eq!(Mode(0o100644).render(), "-rw-r--r--");
    assert_eq!(Mode(0o100755).render(), "-rwxr-xr-x");
    assert_eq!(Mode(0o040755).render(), "drwxr-xr-x");
    assert_eq!(Mode(0o120777).render(), "lrwxrwxrwx");
    assert_eq!(Mode(0o104755).render(), "-rwsr-xr-x");
    assert_eq!(Mode(0o101000 | 0o100000).render(), "---------T");
}

#[test]
fn string_helpers() {
    assert!(str_eq("abc", "abc"));
    assert!(!str_eq("abc", "abd"));
    assert!(!str_eq("abc", "ab"));
    assert!(str_starts_with("https://x", "https://"));
    assert!(!str_starts_with("http", "https://"));
    assert!(ends_with_newline("x\n"));
    assert!(!ends_with_newline("x"));
    assert!(!ends_with_newline(""));
}

#[test]
fn trimming() {
    assert_eq!(str_trim("  a b  "), "a b");
    assert_eq!(str_trim("\n\t x \r\n"), "x");
    assert_eq!(str_trim(""), "");
    assert_eq!(str_trim("   "), "");
    assert_eq!(str_trim("\u{a0}nbsp\u{a0}"), "nbsp");
}

#[test]
fn paragraphs() {
    let mut out = String::new();
    render_paragraphs(&mut out, "  first\n\nsecond & last  ");
    assert_eq!(out, "<p>\nfirst\n</p>\n<p>\nsecond &amp; last\n</p>\n");
}

#[test]
fn version_banner() {
    assert_eq!(version("yagit", "1.0", false), "Running yagit 1.0");
    assert_eq!(
        version("yagit", "1.0", true),
        "Running yagit 1.0 (SIMD optimizations enabled)"
    );
}
