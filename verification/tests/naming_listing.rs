use rustpic::listing::{extract_timestamp, order_listing, sort_files, FileInfo};
use rustpic::naming::{make_stored_path, make_timestamped_name, trim_trailing, u64_digits};

fn b(s: &str) -> Vec<u8> {
    s.as_bytes().to_vec()
}

fn t(s: &str) -> String {
    String::from_utf8(s.as_bytes().to_vec()).unwrap()
}

fn text(v: &[u8]) -> String {
    String::from_utf8(v.to_vec()).unwrap()
}

fn entry(name: &str) -> FileInfo {
    FileInfo {
        name: b(name),
        path: b(name),
        sha: b("0000"),
        size: 1,
        download_url: None,
    }
}

fn names(files: &[FileInfo]) -> Vec<String> {
    files.iter().map(|f| text(&f.name)).collect()
}

#[test]
fn digits_of_timestamp() {
    assert_eq!(text(&u64_digits(0)), t("0"));
    assert_eq!(text(&u64_digits(1700000000000)), t("1700000000000"));
    assert_eq!(text(&u64_digits(90)), t("90"));
}

#[test]
fn timestamp_spliced_before_extension() {
    let name = make_timestamped_name(&b("photo.png"), 1700000000000);
    assert_eq!(text(&name), t("photo_1700000000000.png"));
}

#[test]
fn timestamp_appended_without_extension() {
    let name = make_timestamped_name(&b("readme"), 1700000000000);
    assert_eq!(text(&name), t("readme_1700000000000"));
}

#[test]
fn timestamp_uses_last_dot() {
    let name = make_timestamped_name(&b("archive.tar.gz"), 7);
    assert_eq!(text(&name), t("archive.tar_7.gz"));
}

#[test]
fn stored_path_joins_prefix() {
    let path = make_stored_path(&b("imgs"), &b("photo.png"), 5);
    assert_eq!(text(&path), t("imgs/photo_5.png"));
}

#[test]
fn stored_path_trims_trailing_slashes() {
    let path = make_stored_path(&b("imgs///"), &b("photo.png"), 5);
    assert_eq!(text(&path), t("imgs/photo_5.png"));
}

#[test]
fn stored_path_empty_prefix_is_bare_name() {
    let path = make_stored_path(&b(""), &b("photo.png"), 5);
    assert_eq!(text(&path), t("photo_5.png"));
}

#[test]
fn trim_removes_only_trailing_slashes() {
    assert_eq!(text(&trim_trailing(&b("a/b//"))), t("a/b"));
    assert_eq!(text(&trim_trailing(&b("///"))), t(""));
    assert_eq!(text(&trim_trailing(&b("a"))), t("a"));
}

#[test]
fn distinct_milliseconds_distinct_paths() {
    let p1 = make_stored_path(&b("imgs"), &b("photo.png"), 1700000000000);
    let p2 = make_stored_path(&b("imgs"), &b("photo.png"), 1700000000001);
    assert_ne!(p1, p2);
}

#[test]
fn timestamp_extracted_between_underscore_and_dot() {
    assert_eq!(extract_timestamp(&b("a_100.png")), 100);
    assert_eq!(extract_timestamp(&b("photo_1700000000000.png")), 1700000000000);
}

#[test]
fn timestamp_zero_without_dot_or_underscore() {
    assert_eq!(extract_timestamp(&b("c.png")), 0);
    assert_eq!(extract_timestamp(&b("c_100")), 0);
    assert_eq!(extract_timestamp(&b("c")), 0);
}

#[test]
fn timestamp_zero_on_unparseable_digits() {
    assert_eq!(extract_timestamp(&b("a_12b3.png")), 0);
    assert_eq!(extract_timestamp(&b("a_.png")), 0);
    assert_eq!(
        extract_timestamp(&b("a_999999999999999999999999999999999999999999.png")),
        0
    );
}

#[test]
fn timestamp_accepts_leading_plus() {
    // An unsigned parse tolerates one leading `+`.
    assert_eq!(extract_timestamp(&b("a_+123.png")), 123);
}

#[test]
fn three_entry_listing_orders_newest_first() {
    let listing = vec![entry("a_100.png"), entry("b_200.png"), entry("c.png")];
    let sorted = sort_files(listing);
    assert_eq!(names(&sorted), vec![t("b_200.png"), t("a_100.png"), t("c.png")]);
}

#[test]
fn untimestamped_entries_fall_back_to_name_order() {
    let listing = vec![entry("z.png"), entry("a.png"), entry("m.png")];
    let sorted = sort_files(listing);
    assert_eq!(names(&sorted), vec![t("a.png"), t("m.png"), t("z.png")]);
}

#[test]
fn listing_truncated_to_limit() {
    let listing = vec![entry("a_100.png"), entry("b_200.png"), entry("c_300.png")];
    let sorted = order_listing(listing, 2);
    assert_eq!(names(&sorted), vec![t("c_300.png"), t("b_200.png")]);
}

#[test]
fn listing_limit_larger_than_listing() {
    let listing = vec![entry("a_100.png")];
    let sorted = order_listing(listing, 100);
    assert_eq!(names(&sorted), vec![t("a_100.png")]);
}

#[test]
fn mixed_listing_keeps_comparator_quirks() {
    let listing = vec![entry("c_100.png"), entry("a_50.png"), entry("b.png")];
    let sorted = sort_files(listing);
    assert_eq!(names(&sorted), vec![t("c_100.png"), t("a_50.png"), t("b.png")]);
}
