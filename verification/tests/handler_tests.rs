use product_catalog::catalog::Catalog;
use product_catalog::handlers::{
    create_handler, delete_handler, error_response, get_handler, images_handler, list_handler,
    update_handler,
};
use product_catalog::product::RepoError;

fn chars(s: &str) -> Vec<char> {
    s.chars().collect()
}

fn text(v: &[char]) -> String {
    v.iter().collect()
}

/// The identifier between `"id":"` and the closing quote of a rendered record.
fn id_of(body: &str) -> u128 {
    let start = body.find("\"id\":\"").expect("no id field") + 6;
    let hex: String = body[start..start + 36].chars().filter(|c| *c != '-').collect();
    u128::from_str_radix(&hex, 16).expect("not a uuid")
}

#[test]
fn create_get_delete_round_trip() {
    let mut c = Catalog::new();
    let created = create_handler(
        &mut c,
        &chars("{\"name\":\"Widget\",\"image\":\"widget.png\",\"price\":999}"),
    );
    assert_eq!(created.status, 200);
    let created_body = text(&created.body);
    assert!(created_body.contains("\"name\":\"Widget\""));
    assert!(created_body.contains("\"image\":\"widget.png\""));
    assert!(created_body.contains("\"price\":999"));

    let id = id_of(&created_body);
    let fetched = get_handler(&c, id);
    assert_eq!(fetched.status, 200);
    assert_eq!(text(&fetched.body), created_body);

    let deleted = delete_handler(&mut c, id);
    assert_eq!(deleted.status, 200);

    let missing = get_handler(&c, id);
    assert_eq!(missing.status, 404);
    assert!(missing.body.is_empty());
}

#[test]
fn create_rejects_a_malformed_body() {
    let mut c = Catalog::new();
    let before = text(&list_handler(&c).body);
    let r = create_handler(&mut c, &chars("{\"name\":\"Widget\""));
    assert_eq!(r.status, 400);
    assert!(r.body.is_empty());
    assert_eq!(text(&list_handler(&c).body), before);
}

#[test]
fn update_rejects_a_malformed_body() {
    let mut c = Catalog::new();
    let r = update_handler(&mut c, 1, &chars("not json"));
    assert_eq!(r.status, 400);
}

#[test]
fn update_of_a_missing_record_is_404() {
    let mut c = Catalog::new();
    let r = update_handler(
        &mut c,
        1,
        &chars("{\"name\":\"n\",\"image\":\"i\",\"price\":1}"),
    );
    assert_eq!(r.status, 404);
}

#[test]
fn update_changes_what_get_returns() {
    let mut c = Catalog::new();
    let created = create_handler(
        &mut c,
        &chars("{\"name\":\"old\",\"image\":\"old.png\",\"price\":1}"),
    );
    let id = id_of(&text(&created.body));
    let updated = update_handler(
        &mut c,
        id,
        &chars("{\"name\":\"new\",\"image\":\"new.png\",\"price\":2}"),
    );
    assert_eq!(updated.status, 200);
    let fetched = get_handler(&c, id);
    assert_eq!(text(&fetched.body), text(&updated.body));
    assert!(text(&fetched.body).contains("\"name\":\"new\""));
    assert!(!text(&fetched.body).contains("old"));
}

#[test]
fn list_of_an_empty_store_is_an_empty_array() {
    let c = Catalog::new();
    let r = list_handler(&c);
    assert_eq!(r.status, 200);
    assert_eq!(text(&r.body), "[]");
}

#[test]
fn list_counts_creates_minus_deletes() {
    let mut c = Catalog::new();
    let mut ids = Vec::new();
    for i in 0..3 {
        let body = format!("{{\"name\":\"p{}\",\"image\":\"i\",\"price\":{}}}", i, i);
        let r = create_handler(&mut c, &chars(&body));
        assert_eq!(r.status, 200);
        ids.push(id_of(&text(&r.body)));
    }
    delete_handler(&mut c, ids[1]);
    let listed = text(&list_handler(&c).body);
    assert_eq!(listed.matches("\"id\"").count(), 2);
    assert!(listed.contains("\"name\":\"p0\""));
    assert!(!listed.contains("\"name\":\"p1\""));
    assert!(listed.contains("\"name\":\"p2\""));
}

#[test]
fn delete_reports_the_identifier() {
    let mut c = Catalog::new();
    let r = delete_handler(&mut c, 1);
    assert_eq!(r.status, 200);
    assert_eq!(text(&r.body), "\"00000000-0000-0000-0000-000000000001\"");
}

#[test]
fn images_lists_file_names_under_either_separator() {
    let paths = vec![
        chars("../www/img/a.png"),
        chars("..\\www\\img\\b.png"),
        chars("plain.png"),
    ];
    let r = images_handler(&paths);
    assert_eq!(r.status, 200);
    assert_eq!(text(&r.body), "[\"a.png\",\"b.png\",\"plain.png\"]");
}

#[test]
fn error_statuses_follow_the_taxonomy() {
    assert_eq!(error_response(RepoError::BadRequest).status, 400);
    assert_eq!(error_response(RepoError::NotFound).status, 404);
    assert_eq!(error_response(RepoError::QueryFailed).status, 500);
    assert_eq!(error_response(RepoError::StoreUnavailable).status, 500);
    assert_eq!(error_response(RepoError::IoError).status, 500);
}

#[test]
fn fresh_identifiers_differ_across_creates() {
    let mut c = Catalog::new();
    let body = chars("{\"name\":\"n\",\"image\":\"i\",\"price\":1}");
    let a = id_of(&text(&create_handler(&mut c, &body).body));
    let b = id_of(&text(&create_handler(&mut c, &body).body));
    assert_ne!(a, b);
}
