use todo_list::date::parse_date;
use todo_list::priority::Priority;
use todo_list::render::{render_header, render_row, render_separator, render_table};
use todo_list::store::TaskManager;
use todo_list::text::{dashes, pad_to, u64_to_dec};

#[test]
fn test_pad_to_widths() {
    assert_eq!(pad_to("ab", 5), "ab   ");
    assert_eq!(pad_to("", 3), "   ");
    assert_eq!(pad_to("abcdef", 3), "abcdef");
    assert_eq!(pad_to("abc", 3), "abc");
}

#[test]
fn test_u64_to_dec_values() {
    assert_eq!(u64_to_dec(0), "0");
    assert_eq!(u64_to_dec(9), "9");
    assert_eq!(u64_to_dec(10), "10");
    assert_eq!(u64_to_dec(42), "42");
    assert_eq!(u64_to_dec(18446744073709551615), "18446744073709551615");
}

#[test]
fn test_dashes_line() {
    assert_eq!(dashes(3), "---");
    let sep = render_separator();
    assert_eq!(sep.len(), 87);
    assert!(sep.chars().all(|c| c == '-'));
}

#[test]
fn test_render_header_matches_fixed_width_format() {
    let expected = format!(
        "{:<5} {:<20} {:<30} {:<10} {:<10} {:<12}",
        "ID", "Name", "Description", "Priority", "Completed", "Due Date"
    );
    assert_eq!(render_header(), expected);
}

#[test]
fn test_render_row_matches_fixed_width_format() {
    let mut mgr = TaskManager::new();
    mgr.add(
        String::from("Buy milk"),
        String::from("2% milk"),
        Priority::Low,
        parse_date("2024-06-01").unwrap(),
    );
    let row = render_row(&mgr.list()[0]);
    let expected = format!(
        "{:<5} {:<20} {:<30} {:<10} {:<10} {:<12}",
        1, "Buy milk", "2% milk", "Low", "No", "2024-06-01"
    );
    assert_eq!(row, expected);
}

#[test]
fn test_render_row_completed_task() {
    let mut mgr = TaskManager::new();
    let id = mgr.add(
        String::from("Pay rent"),
        String::from(""),
        Priority::High,
        parse_date("2024-06-05").unwrap(),
    );
    assert!(mgr.mark_completed(id));
    let row = render_row(&mgr.list()[0]);
    let expected = format!(
        "{:<5} {:<20} {:<30} {:<10} {:<10} {:<12}",
        1, "Pay rent", "", "High", "Yes", "2024-06-05"
    );
    assert_eq!(row, expected);
}

#[test]
fn test_render_table_lines() {
    let mut mgr = TaskManager::new();
    mgr.add(
        String::from("one"),
        String::from("first"),
        Priority::Low,
        parse_date("2024-01-02").unwrap(),
    );
    mgr.add(
        String::from("two"),
        String::from("second"),
        Priority::Medium,
        parse_date("2024-03-04").unwrap(),
    );
    let lines = render_table(mgr.list());
    assert_eq!(lines.len(), 4);
    assert_eq!(lines[0], render_header());
    assert_eq!(lines[1], render_separator());
    assert_eq!(lines[2], render_row(&mgr.list()[0]));
    assert_eq!(lines[3], render_row(&mgr.list()[1]));
    assert!(lines[2].starts_with("1     one"));
    assert!(lines[3].starts_with("2     two"));
}
