use rusty_address_book::filter::{customer_matches, filter_customers};
use rusty_address_book::record::{sample_data, Customer, Identifier};

fn person(name: &str, phone: &str) -> Customer {
    Customer { identifier: Identifier::Name(name.to_string()), phone: phone.to_string() }
}

fn company(name: &str, phone: &str) -> Customer {
    Customer { identifier: Identifier::Company(name.to_string()), phone: phone.to_string() }
}

fn employee(company: &str, name: &str, phone: &str) -> Customer {
    Customer {
        identifier: Identifier::Both(company.to_string(), name.to_string()),
        phone: phone.to_string(),
    }
}

fn folded(query: &str) -> Vec<char> {
    query.chars().collect()
}

fn book() -> Vec<Customer> {
    vec![
        person("Alice", "1234567890"),
        company("Acme Inc", "9876543210"),
        employee("Test Company", "Bob", "10293848576"),
        person("alice cooper", "555-0001"),
        person("Bobby", "555-0002"),
        company("ÉCOLE Normale", "0033 1"),
    ]
}

#[test]
fn sample_data_holds_the_three_records() {
    let records = sample_data();
    assert_eq!(
        records,
        vec![
            person("Alice", "1234567890"),
            company("Acme Inc", "9876543210"),
            employee("Test Company", "Bob", "10293848576"),
        ]
    );
}

#[test]
fn end_to_end_queries_on_the_sample_data() {
    let records = sample_data();
    assert_eq!(filter_customers(&records, "bo"), vec![&records[2]]);
    assert_eq!(filter_customers(&records, "acme"), vec![&records[1]]);
    assert_eq!(filter_customers(&records, "9"), vec![&records[0], &records[1], &records[2]]);
    assert_eq!(filter_customers(&records, "98"), vec![&records[1]]);
}

#[test]
fn a_phone_substring_finds_the_record() {
    let records = sample_data();
    assert_eq!(filter_customers(&records, "876"), vec![&records[1]]);
    assert_eq!(filter_customers(&records, "0293"), vec![&records[2]]);
    assert_eq!(filter_customers(&records, "1234567890"), vec![&records[0]]);
}

#[test]
fn the_empty_query_keeps_everything_in_order() {
    let records = book();
    let found = filter_customers(&records, "");
    assert_eq!(found.len(), records.len());
    for i in 0..records.len() {
        assert!(std::ptr::eq(found[i], &records[i]));
    }
    let none: Vec<Customer> = Vec::new();
    assert_eq!(filter_customers(&none, ""), Vec::<&Customer>::new());
    assert_eq!(filter_customers(&none, "a"), Vec::<&Customer>::new());
}

#[test]
fn matching_ignores_case_on_both_sides() {
    let records = book();
    assert_eq!(filter_customers(&records, "ALICE"), vec![&records[0], &records[3]]);
    assert_eq!(filter_customers(&records, "alice"), vec![&records[0], &records[3]]);
    assert_eq!(filter_customers(&records, "aLiCe C"), vec![&records[3]]);
    assert_eq!(filter_customers(&records, "école"), vec![&records[5]]);
    assert_eq!(filter_customers(&records, "ÉCOLE"), vec![&records[5]]);
}

#[test]
fn both_fields_of_a_person_at_a_company_are_searched() {
    let records = book();
    assert_eq!(filter_customers(&records, "test comp"), vec![&records[2]]);
    assert_eq!(filter_customers(&records, "bob"), vec![&records[2], &records[4]]);
}

#[test]
fn a_query_that_occurs_nowhere_finds_nothing() {
    let records = book();
    assert_eq!(filter_customers(&records, "zzz"), Vec::<&Customer>::new());
    assert_eq!(filter_customers(&records, "alice  cooper"), Vec::<&Customer>::new());
    assert_eq!(filter_customers(&records, " "), vec![&records[1], &records[2], &records[3], &records[5]]);
}

#[test]
fn the_result_is_a_subsequence_of_matching_records() {
    let records = book();
    let queries = ["", "a", "b", "c", "0", "55", "inc", "O", "x"];
    for query in queries {
        let found = filter_customers(&records, query);
        let mut next = 0;
        for kept in &found {
            while !std::ptr::eq(*kept, &records[next]) {
                next += 1;
            }
            next += 1;
        }
        let lowered = folded(&query.to_lowercase());
        for record in &records {
            let wanted = query.is_empty() || customer_matches(record, &lowered);
            let kept = found.iter().any(|k| std::ptr::eq(*k, record));
            assert_eq!(kept, wanted, "{:?} {:?}", query, record);
        }
    }
}

#[test]
fn filtering_twice_gives_the_same_result() {
    let records = book();
    for query in ["", "a", "Bob", "555", "nothing"] {
        let first = filter_customers(&records, query);
        let second = filter_customers(&records, query);
        assert_eq!(first, second);
        let kept: Vec<Customer> = first.iter().map(|c| (*c).clone()).collect();
        let again: Vec<Customer> =
            filter_customers(&kept, query).iter().map(|c| (*c).clone()).collect();
        assert_eq!(again, kept);
    }
}

#[test]
fn customer_matches_looks_at_the_lower_cased_fields() {
    let bob = employee("Test Company", "Bob", "10293848576");
    assert!(customer_matches(&bob, &folded("bob")));
    assert!(customer_matches(&bob, &folded("test")));
    assert!(customer_matches(&bob, &folded("848")));
    assert!(customer_matches(&bob, &folded("")));
    assert!(!customer_matches(&bob, &folded("Bob")));
    assert!(!customer_matches(&bob, &folded("acme")));
    let alice = person("Alice", "1234567890");
    assert!(customer_matches(&alice, &folded("lic")));
    assert!(!customer_matches(&alice, &folded("bob")));
    let acme = company("Acme Inc", "9876543210");
    assert!(customer_matches(&acme, &folded("me in")));
    assert!(!customer_matches(&acme, &folded("alice")));
}

#[test]
fn lines_show_the_identifier_and_the_phone() {
    assert_eq!(person("Alice", "1234567890").line(), "  Name: Alice, Phone: 1234567890\r\n");
    assert_eq!(
        company("Acme Inc", "9876543210").line(),
        "  Company: Acme Inc, Phone: 9876543210\r\n"
    );
    assert_eq!(
        employee("Test Company", "Bob", "10293848576").line(),
        "  Company: Test Company, Name: Bob, Phone: 10293848576\r\n"
    );
    assert_eq!(person("", "").line(), "  Name: , Phone: \r\n");
}
