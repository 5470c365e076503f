use product_catalog::catalog::Catalog;
use product_catalog::product::{NewProduct, RepoError};

fn chars(s: &str) -> Vec<char> {
    s.chars().collect()
}

fn payload(name: &str, image: &str, price: i32) -> NewProduct {
    NewProduct { name: chars(name), image: chars(image), price }
}

#[test]
fn create_returns_input_fields() {
    let mut c = Catalog::new();
    let p = c.create_product(payload("Widget", "widget.png", 999)).unwrap();
    assert_eq!(p.name, chars("Widget"));
    assert_eq!(p.image, chars("widget.png"));
    assert_eq!(p.price, 999);
}

#[test]
fn create_ids_unique() {
    let mut c = Catalog::new();
    let a = c.create_product(payload("a", "a.png", 1)).unwrap();
    let b = c.create_product(payload("b", "b.png", 2)).unwrap();
    assert_ne!(a.id, b.id);
}

#[test]
fn create_then_get_returns_same_record() {
    let mut c = Catalog::new();
    let p = c.create_product(payload("Widget", "widget.png", 999)).unwrap();
    let q = c.get_product(p.id).unwrap();
    assert_eq!(p, q);
}

#[test]
fn update_then_get_returns_new_fields() {
    let mut c = Catalog::new();
    let p = c.create_product(payload("old", "old.png", 1)).unwrap();
    let u = c.update_product(p.id, payload("new", "new.png", 2)).unwrap();
    assert_eq!(u.id, p.id);
    let q = c.get_product(p.id).unwrap();
    assert_eq!(q.name, chars("new"));
    assert_eq!(q.image, chars("new.png"));
    assert_eq!(q.price, 2);
}

#[test]
fn update_missing_is_not_found() {
    let mut c = Catalog::new();
    let r = c.update_product(7, payload("x", "x.png", 1));
    assert_eq!(r, Err(RepoError::NotFound));
}

#[test]
fn delete_then_get_is_not_found() {
    let mut c = Catalog::new();
    let p = c.create_product(payload("Widget", "widget.png", 999)).unwrap();
    let removed = c.delete_product(p.id);
    assert_eq!(removed, p.id);
    assert_eq!(c.get_product(p.id), Err(RepoError::NotFound));
}

#[test]
fn delete_missing_is_a_noop() {
    let mut c = Catalog::new();
    let p = c.create_product(payload("a", "a.png", 1)).unwrap();
    let removed = c.delete_product(p.id.wrapping_add(1));
    assert_eq!(removed, p.id.wrapping_add(1));
    assert_eq!(c.list().len(), 1);
}

#[test]
fn get_missing_is_not_found() {
    let c = Catalog::new();
    assert_eq!(c.get_product(42), Err(RepoError::NotFound));
}

#[test]
fn list_empty_store() {
    let c = Catalog::new();
    assert!(c.list().is_empty());
}

#[test]
fn list_after_creates_and_deletes() {
    let mut c = Catalog::new();
    let a = c.create_product(payload("a", "a.png", 1)).unwrap();
    let b = c.create_product(payload("b", "b.png", 2)).unwrap();
    let d = c.create_product(payload("d", "d.png", 3)).unwrap();
    c.delete_product(b.id);
    let live = c.list();
    assert_eq!(live.len(), 2);
    assert!(live.iter().any(|p| p.id == a.id));
    assert!(live.iter().any(|p| p.id == d.id));
    assert!(live.iter().all(|p| p.id != b.id));
}

#[test]
fn create_with_id_rejects_a_held_identifier() {
    let mut c = Catalog::new();
    let p = c.create_with_id(5, payload("a", "a.png", 1)).unwrap();
    assert_eq!(p.id, 5);
    let r = c.create_with_id(5, payload("b", "b.png", 2));
    assert_eq!(r, Err(RepoError::QueryFailed));
    assert_eq!(c.list().len(), 1);
}
