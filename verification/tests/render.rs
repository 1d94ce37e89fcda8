use rusty_address_book::filter::filter_customers;
use rusty_address_book::record::{sample_data, Customer, Identifier};
use rusty_address_book::render::{frame, redraw, TerminalOp};
use rusty_address_book::storage::{
    customer_file_or, delete_customer, get_customer_file, store_loaded, Loaded,
};

fn print_line(text: &str) -> TerminalOp {
    TerminalOp::PrintLine(text.to_string())
}

fn named(name: &str, phone: &str) -> Customer {
    Customer { identifier: Identifier::Name(name.to_string()), phone: phone.to_string() }
}

#[test]
fn a_frame_without_records_is_the_prompt_and_the_cursor() {
    let ops = frame(&Vec::new(), "");
    assert_eq!(
        ops,
        vec![
            TerminalOp::Clear,
            TerminalOp::MoveTo { column: 0, row: 0 },
            TerminalOp::Print("Query: ".to_string()),
            TerminalOp::MoveTo { column: 0, row: 2 },
            TerminalOp::MoveTo { column: 7, row: 0 },
        ]
    );
}

#[test]
fn a_frame_lists_the_records_and_puts_the_cursor_behind_the_query() {
    let records = sample_data();
    let found = vec![&records[0], &records[2]];
    let ops = frame(&found, "o");
    assert_eq!(
        ops,
        vec![
            TerminalOp::Clear,
            TerminalOp::MoveTo { column: 0, row: 0 },
            TerminalOp::Print("Query: o".to_string()),
            TerminalOp::MoveTo { column: 0, row: 2 },
            print_line("  Name: Alice, Phone: 1234567890\r\n"),
            print_line("  Company: Test Company, Name: Bob, Phone: 10293848576\r\n"),
            TerminalOp::MoveTo { column: 8, row: 0 },
        ]
    );
}

#[test]
fn the_cursor_counts_characters_and_not_bytes() {
    let ops = frame(&Vec::new(), "éé");
    assert_eq!(ops[2], TerminalOp::Print("Query: éé".to_string()));
    assert_eq!(ops[4], TerminalOp::MoveTo { column: 9, row: 0 });
}

#[test]
fn the_cursor_stops_at_the_last_column() {
    let fits = "x".repeat(65528);
    let ops = frame(&Vec::new(), &fits);
    assert_eq!(ops[4], TerminalOp::MoveTo { column: 65535, row: 0 });
    let shorter = "x".repeat(65527);
    let ops = frame(&Vec::new(), &shorter);
    assert_eq!(ops[4], TerminalOp::MoveTo { column: 65534, row: 0 });
    let longer = "x".repeat(65529);
    let ops = frame(&Vec::new(), &longer);
    assert_eq!(ops[4], TerminalOp::MoveTo { column: 65535, row: 0 });
    let long = "x".repeat(70000);
    let ops = frame(&Vec::new(), &long);
    assert_eq!(ops[4], TerminalOp::MoveTo { column: 65535, row: 0 });
}

#[test]
fn a_redraw_filters_and_then_paints() {
    let records = sample_data();
    assert_eq!(redraw(&records, "ACME"), frame(&filter_customers(&records, "ACME"), "ACME"));
    assert_eq!(
        redraw(&records, "ACME"),
        vec![
            TerminalOp::Clear,
            TerminalOp::MoveTo { column: 0, row: 0 },
            TerminalOp::Print("Query: ACME".to_string()),
            TerminalOp::MoveTo { column: 0, row: 2 },
            print_line("  Company: Acme Inc, Phone: 9876543210\r\n"),
            TerminalOp::MoveTo { column: 11, row: 0 },
        ]
    );
    assert_eq!(redraw(&records, "").len(), 8);
    assert_eq!(redraw(&records, "zzz").len(), 5);
}

#[test]
fn a_given_file_name_is_used() {
    assert_eq!(get_customer_file(Some("book.json".to_string())), Some("book.json".to_string()));
    assert_eq!(get_customer_file(Some(String::new())), Some(String::new()));
    assert_eq!(
        customer_file_or(Some("a".to_string()), Some("b".to_string())),
        Some("a".to_string())
    );
    assert_eq!(customer_file_or(Some("a".to_string()), None), Some("a".to_string()));
}

#[test]
fn without_a_file_name_the_default_is_used() {
    assert_eq!(customer_file_or(None, Some("b".to_string())), Some("b".to_string()));
    assert_eq!(customer_file_or(None, None), None);
}

#[test]
fn the_default_file_is_the_book_in_the_configuration_directory() {
    if let Some(path) = get_customer_file(None) {
        assert!(path.ends_with("customers.json"), "{}", path);
        assert!(path.len() > "customers.json".len(), "{}", path);
    }
}

#[test]
fn records_that_were_read_replace_the_book() {
    let mut book = vec![named("Old", "1")];
    let read = vec![named("New", "2"), named("Newer", "3")];
    assert!(store_loaded(&mut book, Loaded::Records(read.clone())));
    assert_eq!(book, read);
    assert!(store_loaded(&mut book, Loaded::Records(Vec::new())));
    assert_eq!(book, Vec::new());
}

#[test]
fn an_empty_file_empties_the_book() {
    let mut book = vec![named("Old", "1")];
    assert!(store_loaded(&mut book, Loaded::EndOfInput));
    assert_eq!(book, Vec::new());
}

#[test]
fn a_file_that_could_not_be_read_leaves_the_book() {
    let mut book = vec![named("Old", "1")];
    assert!(!store_loaded(&mut book, Loaded::Failed));
    assert_eq!(book, vec![named("Old", "1")]);
}

#[test]
fn deleting_does_nothing_yet() {
    delete_customer(vec!["foo".to_string()]);
    delete_customer(Vec::new());
}
