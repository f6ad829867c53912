use rusty_cart::cart::CartStore;
use rusty_cart::models::{CartError, CartItem, Product};

fn product(id: u32, price: u64) -> Product {
    Product {
        id,
        title: format!("product {}", id),
        price,
        description: format!("description {}", id),
        category: String::from("things"),
        image: format!("http://localhost/img/{}.png", id),
    }
}

fn ids(lines: &[CartItem]) -> Vec<u32> {
    lines.iter().map(|l| l.product.id).collect()
}

fn assert_same_lines(a: &[CartItem], b: &[CartItem]) {
    assert_eq!(a.len(), b.len());
    for (x, y) in a.iter().zip(b.iter()) {
        assert_eq!(x.product.id, y.product.id);
        assert_eq!(x.product.title, y.product.title);
        assert_eq!(x.product.price, y.product.price);
        assert_eq!(x.product.description, y.product.description);
        assert_eq!(x.product.category, y.product.category);
        assert_eq!(x.product.image, y.product.image);
        assert_eq!(x.quantity, y.quantity);
    }
}

#[test]
fn new_store_is_empty() {
    let store = CartStore::new();
    assert_eq!(store.len(), 0);
    assert!(store.list().is_empty());
    assert_eq!(store.total(), Some(0));
}

#[test]
fn duplicate_add_collapses_into_one_line() {
    let mut store = CartStore::new();
    store.add(product(7, 1250));
    store.add(product(7, 1250));
    let lines = store.list();
    assert_eq!(lines.len(), 1);
    assert_eq!(lines[0].product.id, 7);
    assert_eq!(lines[0].quantity, 2);
}

#[test]
fn adds_keep_first_add_order() {
    let mut store = CartStore::new();
    store.add(product(3, 100));
    store.add(product(1, 200));
    store.add(product(2, 300));
    store.add(product(1, 200));
    let lines = store.list();
    assert_eq!(ids(&lines), vec![3, 1, 2]);
    assert_eq!(lines[0].quantity, 1);
    assert_eq!(lines[1].quantity, 2);
    assert_eq!(lines[2].quantity, 1);
}

#[test]
fn edit_updates_only_the_targeted_line() {
    let mut store = CartStore::new();
    store.add(product(1, 100));
    store.add(product(2, 200));
    let before = store.list();
    assert_eq!(store.edit(1, 9), Ok(()));
    let after = store.list();
    assert_eq!(after.len(), 2);
    assert_eq!(after[0].product.id, 1);
    assert_eq!(after[0].quantity, 9);
    assert_eq!(after[0].product.title, before[0].product.title);
    assert_eq!(after[0].product.price, before[0].product.price);
    assert_same_lines(&after[1..], &before[1..]);
}

#[test]
fn edit_missing_id_reports_not_found_and_changes_nothing() {
    let mut store = CartStore::new();
    store.add(product(1, 100));
    store.add(product(2, 200));
    let before = store.list();
    assert_eq!(store.edit(99, 5), Err(CartError::NotFound));
    let after = store.list();
    assert_same_lines(&after, &before);
}

#[test]
fn delete_missing_id_reports_not_found_and_changes_nothing() {
    let mut store = CartStore::new();
    store.add(product(1, 100));
    store.add(product(2, 200));
    let before = store.list();
    assert_eq!(store.delete(99), Err(CartError::NotFound));
    let after = store.list();
    assert_same_lines(&after, &before);
}

#[test]
fn delete_removes_one_line_and_preserves_order() {
    let mut store = CartStore::new();
    store.add(product(1, 100));
    store.add(product(2, 200));
    store.add(product(3, 300));
    assert_eq!(store.delete(2), Ok(()));
    let lines = store.list();
    assert_eq!(ids(&lines), vec![1, 3]);
    assert_eq!(lines[0].product.price, 100);
    assert_eq!(lines[1].product.price, 300);
}

#[test]
fn distinct_adds_yield_one_line_each() {
    let mut store = CartStore::new();
    for id in 0..20 {
        store.add(product(id, 50));
    }
    let lines = store.list();
    assert_eq!(lines.len(), 20);
    for (i, line) in lines.iter().enumerate() {
        assert_eq!(line.product.id, i as u32);
        assert_eq!(line.quantity, 1);
    }
}

#[test]
fn scenario_two_of_one_product_one_of_another() {
    let mut store = CartStore::new();
    store.add(product(1, 1000));
    store.add(product(1, 1000));
    store.add(product(2, 500));
    let lines = store.list();
    assert_eq!(lines.len(), 2);
    assert_eq!(lines[0].product.id, 1);
    assert_eq!(lines[0].quantity, 2);
    assert_eq!(lines[1].product.id, 2);
    assert_eq!(lines[1].quantity, 1);
    assert_eq!(store.total(), Some(2500));
}

#[test]
fn edit_to_zero_keeps_the_line() {
    let mut store = CartStore::new();
    store.add(product(4, 800));
    assert_eq!(store.edit(4, 0), Ok(()));
    let lines = store.list();
    assert_eq!(lines.len(), 1);
    assert_eq!(lines[0].quantity, 0);
    assert_eq!(store.total(), Some(0));
}

#[test]
fn repeat_add_does_not_refresh_stored_product() {
    let mut store = CartStore::new();
    store.add(product(5, 1000));
    let mut changed = product(5, 999);
    changed.title = String::from("renamed");
    store.add(changed);
    let lines = store.list();
    assert_eq!(lines.len(), 1);
    assert_eq!(lines[0].quantity, 2);
    assert_eq!(lines[0].product.price, 1000);
    assert_eq!(lines[0].product.title, "product 5");
}

#[test]
fn can_add_is_false_only_at_the_quantity_bound() {
    let mut store = CartStore::new();
    store.add(product(1, 100));
    assert!(store.can_add(1));
    assert!(store.can_add(2));
    assert_eq!(store.edit(1, u32::MAX), Ok(()));
    assert!(!store.can_add(1));
    assert!(store.can_add(2));
}

#[test]
fn prices_format_with_two_fraction_digits() {
    assert_eq!(rusty_cart::price::format_price(2500), "25.00 kr");
    assert_eq!(rusty_cart::price::format_price(1000), "10.00 kr");
    assert_eq!(rusty_cart::price::format_price(50), "0.50 kr");
    assert_eq!(rusty_cart::price::format_price(0), "0.00 kr");
    assert_eq!(rusty_cart::price::format_price(123456), "1234.56 kr");
    assert_eq!(rusty_cart::price::format_price(u64::MAX), "184467440737095516.15 kr");
}

#[test]
fn scenario_total_reads_as_twenty_five() {
    let mut store = CartStore::new();
    store.add(product(1, 1000));
    store.add(product(1, 1000));
    store.add(product(2, 500));
    let total = store.total().unwrap();
    assert_eq!(rusty_cart::price::format_price(total), "25.00 kr");
}

#[test]
fn line_total_is_price_times_quantity() {
    let mut store = CartStore::new();
    store.add(product(1, 350));
    store.add(product(1, 350));
    store.add(product(1, 350));
    let lines = store.list();
    assert_eq!(rusty_cart::cart::item_line_total(&lines[0]), Some(1050));
}

#[test]
fn line_total_too_large_for_u64_is_none() {
    let mut store = CartStore::new();
    store.add(product(1, u64::MAX));
    assert_eq!(store.edit(1, 2), Ok(()));
    let lines = store.list();
    assert_eq!(rusty_cart::cart::item_line_total(&lines[0]), None);
}

#[test]
fn total_too_large_for_u64_is_none() {
    let mut store = CartStore::new();
    store.add(product(1, u64::MAX));
    assert_eq!(store.total(), Some(u64::MAX));
    store.add(product(1, u64::MAX));
    assert_eq!(store.total(), None);
}
