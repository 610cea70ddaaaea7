use xinzuo_store::paths::{book_db_path, books_dir, ensure_unique_dir, global_db_path,
    milestones_dir, sanitize_dir_name, xinzuo_data_dir, AppConfig};
use xinzuo_store::milestone::milestone_filename;
use xinzuo_store::clock::DateParts;
use xinzuo_store::numfmt::{dec_string, dec_string_i64, pad2, pad4};
use xinzuo_store::strutil::{str_eq, str_lt};

fn cfg(dir: &str) -> AppConfig {
    AppConfig { data_dir: dir.to_string() }
}

#[test]
fn data_dir_layout() {
    let c = cfg("/home/me/Documents");
    assert_eq!(xinzuo_data_dir(&c), "/home/me/Documents/AppData");
    assert_eq!(global_db_path(&c), "/home/me/Documents/AppData/Library/catalog.db");
    assert_eq!(books_dir(&c), "/home/me/Documents/AppData/Projects");
    assert_eq!(
        book_db_path(&c, "Alpha"),
        "/home/me/Documents/AppData/Projects/Alpha/project.db"
    );
    assert_eq!(
        milestones_dir(&c, "Alpha"),
        "/home/me/Documents/AppData/Projects/Alpha/.milestones"
    );
}

#[test]
fn sanitize_keeps_safe_names() {
    assert_eq!(sanitize_dir_name("Alpha"), "Alpha");
}

#[test]
fn sanitize_masks_specials() {
    assert_eq!(sanitize_dir_name("My<Book>:v2?"), "My_Book__v2_");
    assert_eq!(sanitize_dir_name("a/b\\c|d*e\"f"), "a_b_c_d_e_f");
}

#[test]
fn sanitize_trims_whitespace() {
    assert_eq!(sanitize_dir_name("  Alpha \n"), "Alpha");
}

#[test]
fn sanitize_empty_falls_back() {
    assert_eq!(sanitize_dir_name(""), "unnamed_book");
    assert_eq!(sanitize_dir_name("   "), "unnamed_book");
}

#[test]
fn unique_dir_free_base() {
    let existing: Vec<String> = vec![];
    assert_eq!(ensure_unique_dir(&existing, "Alpha"), "Alpha");
}

#[test]
fn unique_dir_first_suffix() {
    let existing = vec!["Alpha".to_string()];
    assert_eq!(ensure_unique_dir(&existing, "Alpha"), "Alpha_2");
}

#[test]
fn unique_dir_skips_taken_suffixes() {
    let existing = vec!["Alpha".to_string(), "Alpha_2".to_string(), "Alpha_3".to_string()];
    assert_eq!(ensure_unique_dir(&existing, "Alpha"), "Alpha_4");
}

#[test]
fn milestone_name_format() {
    let t = DateParts { year: 2026, month: 1, day: 2, hour: 3, minute: 4, second: 5 };
    assert_eq!(milestone_filename("draft", t), "draft_20260102_030405.db");
}

#[test]
fn milestone_name_from_clock() {
    let name = xinzuo_store::milestone::create_milestone_name("draft").unwrap();
    assert_eq!(name.len(), "draft".len() + 1 + 8 + 1 + 6 + 3);
    assert!(name.starts_with("draft_"));
    assert!(name.ends_with(".db"));
}

#[test]
fn decimal_rendering() {
    assert_eq!(dec_string(0), "0");
    assert_eq!(dec_string(10), "10");
    assert_eq!(dec_string(90210), "90210");
    assert_eq!(dec_string_i64(-42), "-42");
    assert_eq!(dec_string_i64(7), "7");
    assert_eq!(pad2(3), "03");
    assert_eq!(pad2(59), "59");
    assert_eq!(pad4(7), "0007");
    assert_eq!(pad4(2026), "2026");
}

#[test]
fn string_order_matches_timestamps() {
    assert!(str_lt("2020-01-01T00:00:00+00:00", "2020-01-02T00:00:00+00:00"));
    assert!(!str_lt("2020-01-02T00:00:00+00:00", "2020-01-02T00:00:00+00:00"));
    assert!(str_lt("2019-12-31T23:59:59+00:00", "2020-01-01T00:00:00+00:00"));
    assert!(str_eq("abc", "abc"));
    assert!(!str_eq("abc", "abd"));
}

#[test]
fn sanitize_trims_wide_whitespace() {
    assert_eq!(sanitize_dir_name("\u{3000}Alpha\u{3000}"), "Alpha");
    assert_eq!(sanitize_dir_name("\u{a0}\u{2003}x"), "x");
}
