use comic_scan::entries::{DirItem, FileItem};
use comic_scan::natural::{compute_all_digits, natural_order, parse_run, precedes, sum_runs};
use comic_scan::sorting::sort_by_name;
use comic_scan::text::{begins_with, bytes_less, chars_of, same_text};
use std::cmp::Ordering;

fn file(id: &str, filename: &str) -> FileItem {
    FileItem {
        id: String::from(id),
        filename: String::from(filename),
        path: format!("/comics/{}", filename),
        height: 0,
        width: 0,
    }
}

fn dir(dirname: &str) -> DirItem {
    DirItem {
        id: String::new(),
        dirname: String::from(dirname),
        path: format!("/comics/{}", dirname),
        root: false,
    }
}

fn names(files: &[FileItem]) -> Vec<String> {
    files.iter().map(|f| f.filename.clone()).collect()
}

#[test]
fn page2_comes_before_page10() {
    assert!(precedes("page2.png", "page10.png"));
    assert!(!precedes("page10.png", "page2.png"));
    assert_eq!(natural_order("page2.png", "page10.png"), Ordering::Less);
    assert_eq!(natural_order("page10.png", "page2.png"), Ordering::Greater);
}

#[test]
fn names_without_digits_fall_back_to_text_order() {
    assert!(precedes("back.png", "cover.png"));
    assert!(!precedes("cover.png", "back.png"));
    assert_eq!(natural_order("cover.png", "back.png"), Ordering::Greater);
    assert_eq!(compute_all_digits("cover.png"), 0);
    assert_eq!(compute_all_digits("back.png"), 0);
}

#[test]
fn a_name_is_equal_to_itself_only() {
    assert_eq!(natural_order("page2.png", "page2.png"), Ordering::Equal);
    assert!(!precedes("page2.png", "page2.png"));
    assert_ne!(natural_order("page2.png", "page02.png"), Ordering::Equal);
}

#[test]
fn digit_sum_of_one_run() {
    assert_eq!(compute_all_digits("page2.png"), 2);
    assert_eq!(compute_all_digits("page10.png"), 10);
}

#[test]
fn digit_sum_adds_all_runs() {
    assert_eq!(compute_all_digits("v1_p20"), 21);
    assert_eq!(compute_all_digits("v2_p1"), 3);
    assert_eq!(compute_all_digits("a1b2c3"), 6);
}

#[test]
fn summing_misorders_chapter_and_page() {
    assert!(precedes("v2_p1", "v1_p20"));
}

#[test]
fn digit_sum_of_the_empty_name_is_zero() {
    assert_eq!(compute_all_digits(""), 0);
}

#[test]
fn digit_sum_of_a_name_that_ends_in_digits() {
    assert_eq!(compute_all_digits("vol 12"), 12);
    assert_eq!(compute_all_digits("12"), 12);
}

#[test]
fn leading_zeros_do_not_count() {
    assert_eq!(compute_all_digits("page007"), 7);
    assert!(precedes("page007", "page07"));
}

#[test]
fn a_run_beyond_the_machine_word_counts_for_nothing() {
    assert_eq!(compute_all_digits("n99999999999999999999999"), 0);
    assert_eq!(compute_all_digits("n99999999999999999999999_5"), 5);
}

#[test]
fn a_run_with_a_digit_of_another_script_counts_for_nothing() {
    assert_eq!(compute_all_digits("page\u{0663}"), 0);
    assert_eq!(compute_all_digits("page1\u{0663}2"), 0);
    assert_eq!(compute_all_digits("page1\u{0663}2_4"), 4);
}

#[test]
fn sums_beyond_the_machine_word_are_exact() {
    let name = format!("{}_{}", usize::MAX, usize::MAX);
    assert_eq!(compute_all_digits(&name), 2 * (usize::MAX as u128));
}

#[test]
fn parse_run_reads_decimal() {
    assert_eq!(parse_run("0"), 0);
    assert_eq!(parse_run("7"), 7);
    assert_eq!(parse_run("007"), 7);
    assert_eq!(parse_run("1234567890"), 1234567890);
}

#[test]
fn parse_run_at_the_edge_of_the_machine_word() {
    assert_eq!(parse_run(&format!("{}", usize::MAX)), usize::MAX);
    assert_eq!(parse_run(&format!("{}0", usize::MAX)), 0);
    assert_eq!(parse_run(&format!("{}", (usize::MAX as u128) + 1)), 0);
}

#[test]
fn parse_run_of_what_is_no_number() {
    assert_eq!(parse_run(""), 0);
    assert_eq!(parse_run("12a"), 0);
    assert_eq!(parse_run("+12"), 0);
    assert_eq!(parse_run("-1"), 0);
    assert_eq!(parse_run(" 1"), 0);
    assert_eq!(parse_run("\u{0663}"), 0);
}

#[test]
fn sum_runs_adds_what_the_runs_count_for() {
    let runs = vec![String::from("12"), String::from("x"), String::from("30")];
    assert_eq!(sum_runs(&runs), 42);
    assert_eq!(sum_runs(&Vec::new()), 0);
}

#[test]
fn equal_sums_are_ordered_as_text() {
    assert_eq!(compute_all_digits("a3"), compute_all_digits("b1c2"));
    assert!(precedes("a3", "b1c2"));
    assert!(precedes("page12", "page3_9"));
}

#[test]
fn text_order_is_by_bytes() {
    assert!(precedes("Zebra", "apple"));
    assert!(precedes("abc", "abcd"));
    assert!(precedes("z", "\u{00e9}"));
}

#[test]
fn natural_order_is_antisymmetric_and_transitive_on_samples() {
    let samples = ["", "a", "a1", "a01", "b", "page2", "page10", "10", "9", "v1_p20", "v2_p1"];
    for a in samples {
        for b in samples {
            let ab = natural_order(a, b);
            let ba = natural_order(b, a);
            assert_eq!(ab, ba.reverse());
            assert_eq!(ab == Ordering::Equal, a == b);
            assert_eq!(precedes(a, b), ab == Ordering::Less);
            for c in samples {
                if precedes(a, b) && precedes(b, c) {
                    assert!(precedes(a, c));
                }
            }
        }
    }
}

#[test]
fn file_items_compare_by_name() {
    let a = file("1", "page2.png");
    let b = file("2", "page10.png");
    assert_eq!(a.partial_cmp(&b), Some(Ordering::Less));
    assert_eq!(b.partial_cmp(&a), Some(Ordering::Greater));
    assert!(a < b);
    assert!(b > a);
}

#[test]
fn file_items_of_one_name_compare_equal() {
    let a = file("1", "page2.png");
    let b = file("2", "page2.png");
    assert_eq!(a.partial_cmp(&b), Some(Ordering::Equal));
    assert_ne!(a, b);
}

#[test]
fn dir_items_compare_by_name() {
    let a = dir("vol2");
    let b = dir("vol10");
    assert_eq!(a.partial_cmp(&b), Some(Ordering::Less));
    assert!(a < b);
    assert_eq!(dir("extras").partial_cmp(&dir("covers")), Some(Ordering::Greater));
}

#[test]
fn sort_puts_pages_in_reading_order() {
    let sorted = sort_by_name(vec![
        file("a", "page10.png"),
        file("b", "page2.png"),
        file("c", "page1.png"),
        file("d", "cover.png"),
    ]);
    assert_eq!(names(&sorted), vec!["cover.png", "page1.png", "page2.png", "page10.png"]);
}

#[test]
fn sort_keeps_items_of_one_name_in_their_order() {
    let sorted = sort_by_name(vec![
        file("first", "page2.png"),
        file("x", "page1.png"),
        file("second", "page2.png"),
        file("third", "page2.png"),
    ]);
    let ids: Vec<String> = sorted.iter().map(|f| f.id.clone()).collect();
    assert_eq!(ids, vec!["x", "first", "second", "third"]);
}

#[test]
fn sort_of_nothing_and_of_one_item() {
    assert_eq!(sort_by_name(Vec::<FileItem>::new()), Vec::new());
    assert_eq!(sort_by_name(vec![file("a", "only.png")]), vec![file("a", "only.png")]);
}

#[test]
fn sort_rearranges_and_loses_nothing() {
    let items = vec![dir("vol3"), dir("vol1"), dir("vol2"), dir("vol1"), dir("extras")];
    let sorted = sort_by_name(items.clone());
    assert_eq!(sorted.len(), items.len());
    for item in &items {
        let before = items.iter().filter(|other| *other == item).count();
        let after = sorted.iter().filter(|other| *other == item).count();
        assert_eq!(before, after);
    }
    for pair in sorted.windows(2) {
        assert!(!precedes(&pair[1].dirname, &pair[0].dirname));
    }
}

#[test]
fn bytes_less_is_lexicographic() {
    assert!(bytes_less(b"abc", b"abd"));
    assert!(bytes_less(b"ab", b"abc"));
    assert!(bytes_less(b"", b"a"));
    assert!(!bytes_less(b"abc", b"abc"));
    assert!(!bytes_less(b"b", b"abc"));
    assert!(!bytes_less(b"", b""));
}

#[test]
fn same_text_compares_whole_texts() {
    assert!(same_text("/", "/"));
    assert!(same_text("", ""));
    assert!(!same_text("/", "//"));
    assert!(!same_text("abc", "abd"));
}

#[test]
fn chars_of_gives_the_characters() {
    assert_eq!(chars_of("a\u{00e9}z"), vec!['a', '\u{00e9}', 'z']);
    assert_eq!(chars_of(""), Vec::<char>::new());
}

#[test]
fn begins_with_tests_a_prefix() {
    assert!(begins_with(&chars_of("/dev/shm"), &chars_of("/dev")));
    assert!(begins_with(&chars_of("/dev"), &chars_of("")));
    assert!(!begins_with(&chars_of("/de"), &chars_of("/dev")));
    assert!(!begins_with(&chars_of("/home"), &chars_of("/dev")));
}
