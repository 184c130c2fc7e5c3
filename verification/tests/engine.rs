use supnum_fuzz::calibration::{calibration_from_body, count_lines, count_words, make_probe_url};
use supnum_fuzz::candidates::{expand_entry, has_marker, join_base, replace_marker_all};
use supnum_fuzz::classify::{classify, Calibration, ProbeOutcome};
use supnum_fuzz::config::{
    default_exclude_codes, parse_code_list, parse_extension_list, parse_size_list, parse_u16,
    parse_u64, split_commas_vec, ScanConfig,
};
use supnum_fuzz::dispatch::{jitter_delay, retry_with_get, PermitPool};
use supnum_fuzz::frontier::{is_directory, normalize_dir_url, plan_recursion};
use supnum_fuzz::metrics::Metrics;
use supnum_fuzz::render::{decimal_chars, render_result_line};
use supnum_fuzz::text::trim;

fn cv(s: &str) -> Vec<char> {
    s.chars().collect()
}

fn cs(v: &[char]) -> String {
    v.iter().collect()
}

#[test]
fn admin_with_extensions_yields_three_candidates_in_order() {
    let base = cv("http://x/");
    let entry = cv("admin");
    let exts = vec![cv("php"), cv("html")];
    let got = expand_entry(&base, &entry, &exts);
    assert_eq!(got.len(), 3);
    assert_eq!(cs(&got[0]), "http://x/admin");
    assert_eq!(cs(&got[1]), "http://x/admin.php");
    assert_eq!(cs(&got[2]), "http://x/admin.html");
}

#[test]
fn template_marker_is_substituted_before_extensions() {
    let base = cv("http://x/FUZZ/page");
    let entry = cv("a");
    let exts = vec![cv("php")];
    let got = expand_entry(&base, &entry, &exts);
    assert_eq!(got.len(), 2);
    assert_eq!(cs(&got[0]), "http://x/a/page");
    assert_eq!(cs(&got[1]), "http://x/a/page.php");
}

#[test]
fn empty_entry_yields_zero_candidates() {
    let base = cv("http://x/");
    let exts = vec![cv("php")];
    assert_eq!(expand_entry(&base, &cv(""), &exts).len(), 0);
    assert_eq!(expand_entry(&base, &cv("   \t"), &exts).len(), 0);
}

#[test]
fn comment_entry_yields_zero_candidates() {
    let base = cv("http://x/");
    let exts: Vec<Vec<char>> = Vec::new();
    assert_eq!(expand_entry(&base, &cv("# a comment"), &exts).len(), 0);
    assert_eq!(expand_entry(&base, &cv("  #indented"), &exts).len(), 0);
}

#[test]
fn entry_is_trimmed_before_joining() {
    let base = cv("http://x");
    let got = expand_entry(&base, &cv("  admin \r"), &Vec::new());
    assert_eq!(got.len(), 1);
    assert_eq!(cs(&got[0]), "http://x/admin");
}

#[test]
fn trailing_separators_are_normalized_to_one() {
    let got = join_base(&cv("http://x///"), &cv("a"));
    assert_eq!(cs(&got), "http://x/a");
}

#[test]
fn marker_detection_and_replacement() {
    assert!(has_marker(&cv("http://x/FUZZ/page")));
    assert!(!has_marker(&cv("http://x/fuzz/page")));
    let got = replace_marker_all(&cv("a/FUZZ/FUZZ"), &cv("w"));
    assert_eq!(cs(&got), "a/w/w");
}

#[test]
fn trim_drops_whitespace_on_both_sides() {
    assert_eq!(cs(&trim(&cv("  a b\t\n"))), "a b");
    assert_eq!(cs(&trim(&cv(""))), "");
}

#[test]
fn excluded_status_code_is_suppressed() {
    let o = ProbeOutcome::Success { status: 404, length: 1000 };
    let cal = Calibration::inactive();
    assert!(!classify(&o, &vec![404], &Vec::new(), &cal));
    let o2 = ProbeOutcome::Success { status: 200, length: 1000 };
    assert!(classify(&o2, &vec![404], &Vec::new(), &cal));
}

#[test]
fn excluded_content_length_is_suppressed() {
    let o = ProbeOutcome::Success { status: 200, length: 4242 };
    let cal = Calibration::inactive();
    assert!(!classify(&o, &Vec::new(), &vec![4242], &cal));
    assert!(classify(&o, &Vec::new(), &vec![4243], &cal));
}

#[test]
fn transport_failure_is_always_suppressed() {
    let cal = Calibration::inactive();
    assert!(!classify(&ProbeOutcome::Failure, &Vec::new(), &Vec::new(), &cal));
}

#[test]
fn smart_filter_boundary_lies_at_difference_five() {
    let cal = Calibration {
        is_active: true,
        ignore_len: Some(100),
        ignore_lines: Some(3),
        ignore_words: Some(10),
    };
    let codes: Vec<u16> = Vec::new();
    let sizes: Vec<u64> = Vec::new();
    let at = |len: u64| ProbeOutcome::Success { status: 200, length: len };
    assert!(!classify(&at(100), &codes, &sizes, &cal));
    assert!(!classify(&at(104), &codes, &sizes, &cal));
    assert!(!classify(&at(96), &codes, &sizes, &cal));
    assert!(classify(&at(110), &codes, &sizes, &cal));
    assert!(classify(&at(105), &codes, &sizes, &cal));
    assert!(classify(&at(95), &codes, &sizes, &cal));
}

#[test]
fn zero_baseline_suppresses_only_exact_matches() {
    let cal = Calibration {
        is_active: true,
        ignore_len: Some(0),
        ignore_lines: Some(0),
        ignore_words: Some(0),
    };
    let at = |len: u64| ProbeOutcome::Success { status: 200, length: len };
    assert!(!classify(&at(0), &Vec::new(), &Vec::new(), &cal));
    assert!(classify(&at(3), &Vec::new(), &Vec::new(), &cal));
}

#[test]
fn inactive_baseline_reports_non_excluded_results() {
    let cal = Calibration::inactive();
    assert!(!cal.is_active);
    assert_eq!(cal.ignore_len, None);
    let o = ProbeOutcome::Success { status: 200, length: 100 };
    assert!(classify(&o, &vec![404], &Vec::new(), &cal));
}

#[test]
fn redirection_is_directory_like_regardless_of_path() {
    assert!(is_directory(301, &cv("http://x/report.pdf")));
    assert!(is_directory(302, &cv("http://x/images")));
    assert!(is_directory(399, &cv("")));
}

#[test]
fn success_with_dotted_last_segment_is_not_directory_like() {
    assert!(!is_directory(200, &cv("http://x/report.pdf")));
    assert!(is_directory(200, &cv("http://x/images")));
    assert!(!is_directory(204, &cv("http://x/images")));
    assert!(is_directory(200, &cv("http://x.org/images")));
}

#[test]
fn recursion_spawns_child_one_level_deeper() {
    let url = cv("http://x/images");
    let pass = plan_recursion(200, &url, 0, 2).expect("directory-like at depth 0");
    assert_eq!(pass.depth, 1);
    assert_eq!(cs(&pass.base), "http://x/images/");
}

#[test]
fn no_pass_is_scheduled_past_the_maximum_depth() {
    let url = cv("http://x/images");
    assert!(plan_recursion(200, &url, 2, 2).is_none());
    assert!(plan_recursion(200, &url, 0, 0).is_none());
}

#[test]
fn non_directory_results_spawn_nothing() {
    assert!(plan_recursion(200, &cv("http://x/a.php"), 0, 5).is_none());
    assert!(plan_recursion(404, &cv("http://x/a"), 0, 5).is_none());
}

#[test]
fn dir_url_normalization_keeps_one_separator() {
    assert_eq!(cs(&normalize_dir_url(&cv("http://x/a"))), "http://x/a/");
    assert_eq!(cs(&normalize_dir_url(&cv("http://x/a//"))), "http://x/a/");
}

#[test]
fn metrics_take_first_latency_then_average() {
    let mut m = Metrics::new();
    assert_eq!(m.completed, 0);
    assert_eq!(m.avg_latency_ms, 0);
    m.record(100);
    assert_eq!(m.completed, 1);
    assert_eq!(m.avg_latency_ms, 100);
    m.record(50);
    assert_eq!(m.completed, 2);
    assert_eq!(m.avg_latency_ms, 75);
    m.record(10);
    assert_eq!(m.avg_latency_ms, 42);
}

#[test]
fn permit_pool_never_exceeds_its_ceiling() {
    let mut pool = PermitPool::new(2);
    assert!(pool.try_acquire());
    assert!(pool.try_acquire());
    assert!(!pool.try_acquire());
    pool.release();
    assert!(pool.try_acquire());
    assert!(!pool.try_acquire());
}

#[test]
fn permit_pool_with_zero_ceiling_grants_nothing() {
    let mut pool = PermitPool::new(0);
    assert!(!pool.try_acquire());
}

#[test]
fn head_fallback_applies_to_method_not_allowed_alone() {
    assert!(retry_with_get(405));
    assert!(!retry_with_get(404));
    assert!(!retry_with_get(200));
    assert!(!retry_with_get(500));
}

#[test]
fn jitter_is_disabled_at_bound_zero() {
    assert_eq!(jitter_delay(0), None);
}

#[test]
fn jitter_stays_strictly_below_its_bound() {
    for _ in 0..50 {
        let d = jitter_delay(5).expect("jitter enabled");
        assert!(d < 5);
    }
    assert_eq!(jitter_delay(1), Some(0));
}

#[test]
fn malformed_numeric_entries_are_dropped_silently() {
    let got = parse_code_list(&cv("404,abc,500,,70000"));
    assert_eq!(got, vec![404, 500]);
    let sizes = parse_size_list(&cv("0,4242,xyz,99999999999999999999999"));
    assert_eq!(sizes, vec![0, 4242]);
}

#[test]
fn numeral_parsing_matches_std() {
    assert_eq!(parse_u64(&cv("123")), Some(123));
    assert_eq!(parse_u64(&cv("+123")), Some(123));
    assert_eq!(parse_u64(&cv("18446744073709551615")), Some(u64::MAX));
    assert_eq!(parse_u64(&cv("18446744073709551616")), None);
    assert_eq!(parse_u64(&cv("")), None);
    assert_eq!(parse_u64(&cv("+")), None);
    assert_eq!(parse_u64(&cv("12 3")), None);
    assert_eq!(parse_u64(&cv("-1")), None);
    assert_eq!(parse_u16(&cv("65535")), Some(65535));
    assert_eq!(parse_u16(&cv("65536")), None);
}

#[test]
fn comma_splitting_keeps_empty_pieces() {
    let got = split_commas_vec(&cv("a,,b"));
    let pieces: Vec<String> = got.iter().map(|p| cs(p)).collect();
    assert_eq!(pieces, vec!["a", "", "b"]);
    let lone = split_commas_vec(&cv(""));
    assert_eq!(lone.len(), 1);
    assert_eq!(cs(&lone[0]), "");
}

#[test]
fn extension_list_is_cleaned_like_the_original_flags() {
    let got = parse_extension_list(&cv(".php, html ,,js."));
    let exts: Vec<String> = got.iter().map(|p| cs(p)).collect();
    assert_eq!(exts, vec!["php", "html", "js."]);
}

#[test]
fn default_exclusion_is_not_found_alone() {
    assert_eq!(default_exclude_codes(), vec![404]);
    let cfg = ScanConfig::assemble(&None, &None, &None, 1, 100, 0, false);
    assert_eq!(cfg.exclude_codes, vec![404]);
    assert!(cfg.extensions.is_empty());
    assert!(cfg.filter_sizes.is_empty());
    assert_eq!(cfg.max_depth, 1);
    assert_eq!(cfg.concurrency, 100);
}

#[test]
fn assembled_config_parses_every_list() {
    let cfg = ScanConfig::assemble(
        &Some(cv("php,html")),
        &Some(cv("403,404")),
        &Some(cv("1234")),
        2,
        50,
        10,
        true,
    );
    assert_eq!(cfg.exclude_codes, vec![403, 404]);
    assert_eq!(cfg.filter_sizes, vec![1234]);
    assert_eq!(cfg.extensions.len(), 2);
    assert_eq!(cs(&cfg.extensions[0]), "php");
    assert_eq!(cs(&cfg.extensions[1]), "html");
    assert!(cfg.smart);
    assert_eq!(cfg.jitter_ms, 10);
}

#[test]
fn probe_url_appends_a_fresh_alphanumeric_token() {
    let base = cv("http://x");
    let url = make_probe_url(&base);
    let s = cs(&url);
    assert_eq!(s.len(), "http://x/".len() + 12);
    assert!(s.starts_with("http://x/"));
    assert!(s["http://x/".len()..].chars().all(|c| c.is_ascii_alphanumeric()));

    let slashed = cv("http://x/");
    let url2 = make_probe_url(&slashed);
    let s2 = cs(&url2);
    assert_eq!(s2.len(), "http://x/".len() + 12);
    assert!(s2.starts_with("http://x/"));
    assert!(s2["http://x/".len()..].chars().all(|c| c.is_ascii_alphanumeric()));
}

#[test]
fn two_probe_tokens_rarely_collide() {
    let base = cv("http://x/");
    let a = cs(&make_probe_url(&base));
    let b = cs(&make_probe_url(&base));
    assert_ne!(a, b);
}

#[test]
fn calibration_counts_lines_and_words() {
    let body = cv("hello world\nsecond line");
    assert_eq!(count_lines(&body), 2);
    assert_eq!(count_words(&body), 4);
    let cal = calibration_from_body(23, &body);
    assert!(cal.is_active);
    assert_eq!(cal.ignore_len, Some(23));
    assert_eq!(cal.ignore_lines, Some(2));
    assert_eq!(cal.ignore_words, Some(4));
}

#[test]
fn line_and_word_counts_match_std_on_edges() {
    assert_eq!(count_lines(&cv("")), 0);
    assert_eq!(count_words(&cv("")), 0);
    assert_eq!(count_lines(&cv("a\n")), 1);
    assert_eq!(count_lines(&cv("a\nb\n")), 2);
    assert_eq!(count_lines(&cv("\n\n")), 2);
    assert_eq!(count_words(&cv("  a  b ")), 2);
    assert_eq!(count_words(&cv("\t\n ")), 0);
    let sample = "one two\tthree\nfour";
    assert_eq!(count_lines(&cv(sample)), sample.lines().count());
    assert_eq!(count_words(&cv(sample)), sample.split_whitespace().count());
}

#[test]
fn whitespace_model_matches_std_on_unicode() {
    let sample = "a\u{A0}b\u{3000}c\u{2009}d e";
    assert_eq!(count_words(&cv(sample)), sample.split_whitespace().count());
    let padded = "\u{A0}\u{1680} admin \u{2028}";
    assert_eq!(cs(&trim(&cv(padded))), padded.trim());
}

#[test]
fn rendered_line_right_aligns_the_length() {
    let line = render_result_line(200, 1234, &cv("http://x/a"));
    assert_eq!(cs(&line), "[200]     1234 | http://x/a");
    let wide = render_result_line(301, 123456789, &cv("u"));
    assert_eq!(cs(&wide), "[301] 123456789 | u");
}

#[test]
fn decimal_rendering_matches_std_formatting() {
    assert_eq!(cs(&decimal_chars(0)), "0");
    assert_eq!(cs(&decimal_chars(10)), "10");
    assert_eq!(cs(&decimal_chars(u64::MAX)), u64::MAX.to_string());
}
