use ferris_bot::merge::merge_output_and_errors;

#[test]
fn merge_both_empty_gives_space() {
    assert_eq!(merge_output_and_errors("", ""), " ");
}

#[test]
fn merge_whitespace_only_counts_as_empty() {
    assert_eq!(merge_output_and_errors(" \n ", ""), " ");
    assert_eq!(merge_output_and_errors("\t", "\u{3000}\r\n"), " ");
}

#[test]
fn merge_output_only() {
    assert_eq!(merge_output_and_errors("ok", ""), "ok");
}

#[test]
fn merge_errors_only() {
    assert_eq!(merge_output_and_errors("", "err"), "err");
}

#[test]
fn merge_both_puts_errors_first() {
    assert_eq!(merge_output_and_errors("ok", "err"), "err\n\nok");
}

#[test]
fn merge_trims_both_sides() {
    assert_eq!(merge_output_and_errors("  out \n", "\n warn  "), "warn\n\nout");
    assert_eq!(merge_output_and_errors(" a b ", ""), "a b");
}

#[test]
fn merge_keeps_multibyte_text() {
    assert_eq!(merge_output_and_errors("héllo ✓", "ünïcode"), "ünïcode\n\nhéllo ✓");
}
