use ramtester::args::{has_flag, parse_size, parse_test_index, size_arg_readable};
use ramtester::catalog::{
    all_tests, default_tests, is_default_test, select_tests, test_name, test_number,
    test_with_number, TestKind,
};
use ramtester::compare::{
    compare_regions, count_errors, error_map, is_dismiss_key, map_block_size, scan_chunk,
    VerifyProgress,
};
use ramtester::meminfo::{get_available_memory, ninety_percent_of, parse_meminfo, MemorySource};
use ramtester::messages::{detect_language, Messages};
use ramtester::run::{
    ends_test_list, pause_after, record_result, result_report, shows_loop_count, summary_header,
    SummaryHeader, TestReport,
};
use ramtester::text::{chars_of, contains_chars, parse_decimal, split_words, starts_with_chars};

fn strings(v: &[&str]) -> Vec<String> {
    v.iter().map(|s| s.to_string()).collect()
}

fn chars(s: &str) -> Vec<char> {
    s.chars().collect()
}

#[test]
fn compare_regions_marks_differences() {
    let a = vec![1u8, 2, 3, 4, 5];
    let b = vec![1u8, 0, 3, 0, 0];
    let mut errors = vec![false; 6];
    errors[5] = true;
    assert!(compare_regions(&a, &b, 4, &mut errors));
    assert_eq!(errors, vec![false, true, false, true, false, true]);

    let mut clean = vec![false; 5];
    assert!(!compare_regions(&a, &a, 5, &mut clean));
    assert_eq!(clean, vec![false; 5]);
}

#[test]
fn scan_stops_at_each_checkpoint() {
    let a = vec![0u8, 1, 2, 3, 4];
    let b = vec![0u8, 9, 2, 3, 9];
    let mut errs = vec![false; 5];
    let c1 = scan_chunk(&a, &b, 0, 5, 2, &mut errs);
    assert_eq!(c1.next, 3);
    assert!(c1.at_checkpoint);
    assert_eq!(c1.mismatches, vec![1]);
    let c2 = scan_chunk(&a, &b, 3, 5, 2, &mut errs);
    assert_eq!(c2.next, 5);
    assert!(c2.at_checkpoint);
    assert_eq!(c2.mismatches, vec![4]);
    assert_eq!(errs, vec![false, true, false, false, true]);
}

#[test]
fn scan_ends_at_the_last_position() {
    let a = vec![5u8; 4];
    let b = vec![5u8, 5, 6, 6];
    let mut errs = vec![false; 4];
    let c = scan_chunk(&a, &b, 1, 4, 100, &mut errs);
    assert_eq!(c.next, 4);
    assert!(!c.at_checkpoint);
    assert_eq!(c.mismatches, vec![2, 3]);
    assert_eq!(count_errors(&errs), 2);
}

#[test]
fn error_map_cells() {
    assert_eq!(map_block_size(10), 1);
    assert_eq!(map_block_size(2800), 2);
    assert_eq!(map_block_size(4199), 2);

    let mut errs = vec![false; 2800];
    errs[5] = true;
    errs[2799] = true;
    let cells = error_map(&errs, 2800);
    assert_eq!(cells.len(), 1400);
    assert!(cells[2]);
    assert!(cells[1399]);
    assert_eq!(cells.iter().filter(|&&c| c).count(), 2);

    let mut small = vec![false; 12];
    small[3] = true;
    small[11] = true;
    // only the first 10 positions are mapped
    let cells = error_map(&small, 10);
    assert!(cells[3]);
    assert_eq!(cells.iter().filter(|&&c| c).count(), 1);
}

#[test]
fn dismiss_keys() {
    assert!(is_dismiss_key(27));
    assert!(is_dismiss_key(b'q'));
    assert!(is_dismiss_key(b'Q'));
    assert!(!is_dismiss_key(b'x'));
}

#[test]
fn meminfo_totals_in_bytes() {
    let text = "MemTotal:       16314668 kB\nMemFree:          123 kB\nMemAvailable:   10000000 kB\nSwapTotal: 5 kB\n";
    assert_eq!(parse_meminfo(text), (16_706_220_032, 10_240_000_000));
    let src = MemorySource::ProcMeminfo(text.to_string());
    assert_eq!(get_available_memory(&src), (16_706_220_032, 9_216_000_000));
}

#[test]
fn meminfo_odd_lines() {
    // a key without a value keeps the previous one; a bad number counts as 0;
    // the last line needs no line feed; the last value wins
    let text = "MemTotal:\r\nMemAvailable: x kB\nMemTotal: 2 kB\r\nMemTotal:\t+3 kB";
    assert_eq!(parse_meminfo(text), (3072, 0));
    assert_eq!(parse_meminfo(""), (0, 0));
    assert_eq!(parse_meminfo(" MemTotal: 5 kB"), (0, 0));
}

#[test]
fn memory_from_other_sources() {
    let src = MemorySource::SystemStatus { total_phys: 1000, avail_phys: 19 };
    assert_eq!(get_available_memory(&src), (1000, 17));
    assert_eq!(get_available_memory(&MemorySource::Unknown), (0, 0));
    assert_eq!(ninety_percent_of(u64::MAX), 16602069666338596453);
}

#[test]
fn size_arguments() {
    assert_eq!(parse_size("512M", 0), Some(536_870_912));
    assert_eq!(parse_size("2g", 0), Some(2_147_483_648));
    assert_eq!(parse_size("MAX", 12345), Some(12345));
    assert_eq!(parse_size("mAx", 7), Some(7));
    assert_eq!(parse_size("5X", 0), None);
    assert_eq!(parse_size("12", 0), None);
    assert_eq!(parse_size("", 0), None);
    assert_eq!(parse_size("M", 0), Some(0));
    assert_eq!(parse_size("+3M", 0), Some(3_145_728));
    assert_eq!(parse_size("1.5G", 0), Some(0));
    assert!(size_arg_readable("2G"));
    assert!(size_arg_readable("max"));
    assert!(!size_arg_readable("5é"));
}

#[test]
fn test_choice_from_arguments() {
    assert_eq!(parse_test_index(&strings(&["ramtester", "1G", "--test", "5"])), 5);
    assert_eq!(parse_test_index(&strings(&["ramtester", "1G", "--test", "17"])), 0);
    assert_eq!(parse_test_index(&strings(&["ramtester", "1G", "--test", "0"])), 0);
    assert_eq!(parse_test_index(&strings(&["ramtester", "1G", "--test", "3", "--test", "x"])), 3);
    assert_eq!(parse_test_index(&strings(&["ramtester", "1G", "--test", "3", "--test", "16"])), 16);
    assert_eq!(parse_test_index(&strings(&["ramtester", "--test", "4"])), 0);
    assert_eq!(parse_test_index(&strings(&["ramtester", "1G", "--test"])), 0);
}

#[test]
fn flags_anywhere() {
    let args = strings(&["ramtester", "1G", "--ultra"]);
    assert!(has_flag(&args, "--ultra"));
    assert!(!has_flag(&args, "--loop"));
}

#[test]
fn catalog_numbers_and_names() {
    assert_eq!(test_name(TestKind::Standard), "Standard Fill Test");
    assert_eq!(test_name(TestKind::WalkingOnes), "Walking Ones");
    assert_eq!(test_number(TestKind::BlockSeq), 11);
    assert_eq!(test_with_number(16), TestKind::WalkingZeroes);
    let all = all_tests();
    assert_eq!(all.len(), 16);
    for (i, k) in all.iter().enumerate() {
        assert_eq!(test_number(*k), i + 1);
    }
    assert!(!is_default_test(TestKind::BlockSeq));
    assert!(is_default_test(TestKind::Checkerboard));
}

#[test]
fn modes_select_tests() {
    let normal = select_tests(0, false);
    assert_eq!(normal.len(), 15);
    assert!(!normal.contains(&TestKind::BlockSeq));
    assert_eq!(normal, default_tests());
    assert_eq!(select_tests(0, true), all_tests());
    assert_eq!(select_tests(5, true), vec![TestKind::Mul]);
    assert_eq!(select_tests(11, false), vec![TestKind::BlockSeq]);
}

#[test]
fn messages_by_language() {
    let fr = Messages::new("fr_BE.UTF-8");
    assert_eq!(fr.title, "RAMtester v3.0");
    assert_eq!(fr.test_success, "Test réussi : aucune erreur détectée.");
    assert_eq!(fr.normal_mode, "Mode NORMAL : tests 1-10 et 12-16");
    let en = Messages::new("en");
    assert_eq!(en.test_success, "Test successful: no errors detected.");
    assert_eq!(en.all_tests_complete, "All tests completed");
    // only a leading "fr" selects French
    assert_eq!(Messages::new("de_fr").summary, "===== Summary =====");
}

#[test]
fn language_detection() {
    assert_eq!(detect_language(Some("fr_FR.UTF-8")), "fr");
    assert_eq!(detect_language(Some("en_US.UTF-8")), "en");
    assert_eq!(detect_language(Some("C.french")), "fr");
    assert_eq!(detect_language(Some("")), "en");
    assert_eq!(detect_language(None), "en");
}

#[test]
fn reports_and_totals() {
    assert_eq!(result_report(0, Some(TestKind::Xor)), TestReport::Success);
    assert_eq!(result_report(0, None), TestReport::Success);
    assert_eq!(result_report(2, None), TestReport::FailedWithMap);
    assert_eq!(result_report(2, Some(TestKind::Checkerboard)), TestReport::FailedWithHint(12));
    let mut errors = 5u64;
    let mut tested = 100u64;
    record_result(&mut errors, &mut tested, 2, 50);
    assert_eq!((errors, tested), (7, 150));
}

#[test]
fn text_helpers() {
    assert!(starts_with_chars(&chars("MemTotal: 1"), &chars("MemTotal:")));
    assert!(!starts_with_chars(&chars("Mem"), &chars("MemTotal:")));
    assert!(contains_chars(&chars("C.french"), &chars("fr")));
    assert!(contains_chars(&chars("abc"), &chars("")));
    assert!(!contains_chars(&chars("f r"), &chars("fr")));
    assert_eq!(chars_of("é a"), chars("é a"));
    let w = split_words(&chars("  a\u{3000}bc\t d "));
    assert_eq!(w, vec![chars("a"), chars("bc"), chars("d")]);
    assert_eq!(parse_decimal(&chars("+42"), u64::MAX), Some(42));
    assert_eq!(parse_decimal(&chars("+"), u64::MAX), None);
    assert_eq!(parse_decimal(&chars("-1"), u64::MAX), None);
    assert_eq!(parse_decimal(&chars(""), u64::MAX), None);
    assert_eq!(parse_decimal(&chars("18446744073709551615"), u64::MAX), Some(u64::MAX));
    assert_eq!(parse_decimal(&chars("18446744073709551616"), u64::MAX), None);
    assert_eq!(parse_decimal(&chars("300"), 255), None);
    assert_eq!(parse_decimal(&chars("007"), 255), Some(7));
}

#[test]
fn max_takes_ninety_percent_of_available() {
    let text = "MemTotal: 2000 kB\nMemAvailable: 1000 kB\n";
    let (_, avail) = get_available_memory(&MemorySource::ProcMeminfo(text.to_string()));
    assert_eq!(avail, 921_600);
    assert_eq!(parse_size("MAX", avail), Some(921_600));
}

#[test]
fn french_setting_gives_french_messages() {
    for (setting, french) in [("fr_FR", true), ("C.fr", true), ("en_GB", false), ("", false)] {
        let msgs = Messages::new(&detect_language(Some(setting)));
        let expected = if french { "===== Récapitulatif =====" } else { "===== Summary =====" };
        assert_eq!(msgs.summary, expected);
    }
    assert_eq!(Messages::new(&detect_language(None)).summary, "===== Summary =====");
}

#[test]
fn scanning_in_stretches_lists_every_difference_once() {
    let a: Vec<u8> = (0..50u8).collect();
    let mut b = a.clone();
    for i in [0usize, 7, 8, 33, 49] {
        b[i] ^= 1;
    }
    let mut errs = vec![false; 50];
    let mut found = Vec::new();
    let mut pos = 0;
    while pos < 50 {
        let chunk = scan_chunk(&a, &b, pos, 50, 4, &mut errs);
        found.extend(chunk.mismatches.iter().copied());
        pos = chunk.next;
    }
    assert_eq!(found, vec![0, 7, 8, 33, 49]);
    assert_eq!(count_errors(&errs), 5);
}

#[test]
fn verify_progress_counts_every_difference() {
    let a: Vec<u8> = (0..40u8).collect();
    let mut b = a.clone();
    for i in [1usize, 2, 17, 39] {
        b[i] = 200;
    }
    let mut errs = vec![false; 40];
    let mut progress = VerifyProgress::new(&a, &b, 40, 10);
    let mut checkpoints = Vec::new();
    while !progress.done() {
        let chunk = progress.step(&mut errs);
        if chunk.at_checkpoint {
            checkpoints.push(chunk.next - 1);
        }
        assert_eq!(progress.pos(), chunk.next);
    }
    assert_eq!(progress.errors(), 4);
    assert_eq!(checkpoints, vec![10, 20, 30]);
    assert_eq!(count_errors(&errs), 4);
    let mut total_errors = 3u64;
    let mut total_tested = 100u64;
    progress.finish(&mut total_errors, &mut total_tested);
    assert_eq!((total_errors, total_tested), (7, 140));
}

#[test]
fn summary_and_list_decisions() {
    assert_eq!(summary_header(false, false, true, 0), SummaryHeader::UltraOnce);
    assert_eq!(summary_header(false, false, false, 0), SummaryHeader::AllOnce);
    assert_eq!(summary_header(false, true, true, 3), SummaryHeader::UltraLoop(3));
    assert_eq!(summary_header(false, true, false, 2), SummaryHeader::AllLoop(2));
    assert_eq!(summary_header(true, true, true, 2), SummaryHeader::SingleTest);
    assert!(shows_loop_count(true, 1));
    assert!(!shows_loop_count(true, 0));
    assert!(!shows_loop_count(false, 4));
    assert!(ends_test_list(true, false));
    assert!(ends_test_list(false, true));
    assert!(!ends_test_list(false, false));
    assert!(pause_after(0, 2));
    assert!(!pause_after(1, 2));
}
