use voice_journal::journal::{
    chosen_entry_filename, compare_bytes, compare_entries, normalized_entry_filename, EntryDate,
    EntryOrder,
};

fn b(s: &str) -> Vec<u8> {
    s.as_bytes().to_vec()
}

fn d(year: i32, month: u32, day: u32) -> EntryDate {
    EntryDate { year, month, day }
}

#[test]
fn missing_md_suffix_is_appended() {
    assert_eq!(normalized_entry_filename(&b("notes")), b("notes.md"));
    assert_eq!(normalized_entry_filename(&b("")), b(".md"));
    assert_eq!(normalized_entry_filename(&b("a.md.txt")), b("a.md.txt.md"));
}

#[test]
fn present_md_suffix_is_kept() {
    assert_eq!(normalized_entry_filename(&b("notes.md")), b("notes.md"));
    assert_eq!(normalized_entry_filename(&b(".md")), b(".md"));
}

#[test]
fn blank_title_falls_back_to_date() {
    assert_eq!(
        chosen_entry_filename(&b("   "), &b("January 5, 2026")),
        b("January 5, 2026.md")
    );
    assert_eq!(chosen_entry_filename(&b(""), &b("d")), b("d.md"));
}

#[test]
fn title_is_trimmed_for_the_file_name() {
    assert_eq!(chosen_entry_filename(&b(" My Day \n"), &b("ignored")), b("My Day.md"));
}

#[test]
fn dated_entries_sort_newest_first() {
    let jan = Some(d(2026, 1, 5));
    let feb = Some(d(2026, 2, 1));
    assert_eq!(compare_entries(feb, jan, &b("x"), &b("y")), EntryOrder::Before);
    assert_eq!(compare_entries(jan, feb, &b("x"), &b("y")), EntryOrder::After);
    assert_eq!(compare_entries(jan, jan, &b("x"), &b("y")), EntryOrder::Same);
    assert_eq!(
        compare_entries(Some(d(2025, 12, 31)), Some(d(2026, 1, 1)), &b("x"), &b("y")),
        EntryOrder::After
    );
}

#[test]
fn undated_entries_stand_before_dated_ones() {
    let jan = Some(d(2026, 1, 5));
    assert_eq!(compare_entries(None, jan, &b("x"), &b("y")), EntryOrder::Before);
    assert_eq!(compare_entries(jan, None, &b("x"), &b("y")), EntryOrder::After);
}

#[test]
fn undated_entries_sort_by_name_descending() {
    assert_eq!(compare_entries(None, None, &b("b"), &b("a")), EntryOrder::Before);
    assert_eq!(compare_entries(None, None, &b("a"), &b("b")), EntryOrder::After);
    assert_eq!(compare_entries(None, None, &b("a"), &b("a")), EntryOrder::Same);
}

#[test]
fn byte_order_is_lexicographic_with_prefixes_first() {
    assert_eq!(compare_bytes(&b("abc"), &b("abd")), EntryOrder::Before);
    assert_eq!(compare_bytes(&b("ab"), &b("abc")), EntryOrder::Before);
    assert_eq!(compare_bytes(&b("abc"), &b("ab")), EntryOrder::After);
    assert_eq!(compare_bytes(&b(""), &b("")), EntryOrder::Same);
    assert_eq!(compare_bytes(&b(""), &b("a")), EntryOrder::Before);
}
