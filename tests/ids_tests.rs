use pos_backend::ids::{generate_id, AllocError, IdType, MAX_ATTEMPTS, SUFFIX_END, SUFFIX_MIN};
use std::cell::Cell;

#[test]
fn namespace_names() {
    assert_eq!(IdType::Staff.prefix(), "staff");
    assert_eq!(IdType::Category.table_name(), "categories");
    assert_eq!(IdType::Option.table_name(), "options");
    assert_eq!(IdType::Discount.id_column(), "discount_id");
    assert_eq!(IdType::Item.id_column(), "item_id");
}

#[test]
fn candidate_is_prefix_and_six_digits() {
    assert_eq!(IdType::Category.candidate(123456), "category123456");
    assert_eq!(IdType::Staff.candidate(100000), "staff100000");
    assert_eq!(IdType::Modifier.candidate(999998), "modifier999998");
}

#[test]
fn generate_id_returns_free_candidate() {
    let id = generate_id(IdType::Item, |_: &str| false).unwrap();
    assert!(id.starts_with("item"));
    let n: u32 = id["item".len()..].parse().unwrap();
    assert!(SUFFIX_MIN <= n && n < SUFFIX_END);
}

#[test]
fn generate_id_retries_past_taken_candidates() {
    let calls = Cell::new(0u32);
    let id = generate_id(IdType::Discount, |_: &str| {
        calls.set(calls.get() + 1);
        calls.get() <= 3
    })
    .unwrap();
    assert_eq!(calls.get(), 4);
    assert!(id.starts_with("discount"));
}

#[test]
fn generate_id_gives_up_when_everything_is_taken() {
    let calls = Cell::new(0u32);
    let r = generate_id(IdType::Staff, |_: &str| {
        calls.set(calls.get() + 1);
        true
    });
    assert_eq!(r, Err(AllocError::Conflict));
    assert_eq!(calls.get(), MAX_ATTEMPTS);
}

#[test]
fn repeated_allocations_are_distinct() {
    let taken = std::cell::RefCell::new(std::collections::HashSet::new());
    for _ in 0..50 {
        let id = generate_id(IdType::Category, |s: &str| taken.borrow().contains(s)).unwrap();
        assert!(taken.borrow_mut().insert(id));
    }
}

#[test]
fn largest_suffix_has_six_digits() {
    assert_eq!(IdType::Option.candidate(999999), "option999999");
    assert_eq!(SUFFIX_END, 1000000);
}
