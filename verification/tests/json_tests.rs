use product_catalog::catalog::Catalog;
use product_catalog::ids::{uuid_chars, uuid_of_chars};
use product_catalog::json::{product_to_json, products_to_json};
use product_catalog::parse::parse_new_product;
use product_catalog::product::{NewProduct, Product, RepoError};

fn chars(s: &str) -> Vec<char> {
    s.chars().collect()
}

fn text(v: &[char]) -> String {
    v.iter().collect()
}

fn payload(name: &str, image: &str, price: i32) -> NewProduct {
    NewProduct { name: chars(name), image: chars(image), price }
}

fn parse(s: &str) -> Result<NewProduct, RepoError> {
    parse_new_product(&chars(s))
}

#[test]
fn uuid_rendering_is_hyphenated_hex() {
    assert_eq!(text(&uuid_chars(0)), "00000000-0000-0000-0000-000000000000");
    assert_eq!(
        text(&uuid_chars(0x0123_4567_89ab_cdef_0123_4567_89ab_cdef)),
        "01234567-89ab-cdef-0123-456789abcdef"
    );
}

#[test]
fn product_renders_as_json_object() {
    let p = Product { id: 1, name: chars("Widget"), image: chars("widget.png"), price: 999 };
    assert_eq!(
        text(&product_to_json(&p)),
        "{\"id\":\"00000000-0000-0000-0000-000000000001\",\"name\":\"Widget\",\"image\":\"widget.png\",\"price\":999}"
    );
}

#[test]
fn negative_price_renders_with_sign() {
    let p = Product { id: 2, name: chars("n"), image: chars("i"), price: -45 };
    assert!(text(&product_to_json(&p)).ends_with("\"price\":-45}"));
}

#[test]
fn rendering_escapes_quotes_and_backslashes() {
    let p = Product { id: 3, name: chars("a\"b\\c"), image: chars("i"), price: 0 };
    let s = text(&product_to_json(&p));
    assert!(s.contains("\"name\":\"a\\\"b\\\\c\""));
}

#[test]
fn rendering_escapes_control_characters() {
    let p = Product { id: 4, name: chars("a\nb"), image: chars("i"), price: 0 };
    let s = text(&product_to_json(&p));
    assert!(s.contains("\"name\":\"a\\u000ab\""));
}

#[test]
fn record_list_renders_as_json_array() {
    let mut c = Catalog::new();
    c.create_with_id(1, payload("a", "a.png", 1)).unwrap();
    c.create_with_id(2, payload("b", "b.png", 2)).unwrap();
    let s = text(&products_to_json(&c.list()));
    assert!(s.starts_with("[{\"id\":\"00000000-0000-0000-0000-000000000001\""));
    assert!(s.contains("},{\"id\":\"00000000-0000-0000-0000-000000000002\""));
    assert!(s.ends_with("}]"));
}

#[test]
fn empty_record_list_renders_as_empty_array() {
    let c = Catalog::new();
    assert_eq!(text(&products_to_json(&c.list())), "[]");
}

#[test]
fn parses_a_plain_payload() {
    let np = parse("{\"name\":\"Widget\",\"image\":\"widget.png\",\"price\":999}").unwrap();
    assert_eq!(np, payload("Widget", "widget.png", 999));
}

#[test]
fn parses_members_in_any_order_with_blank_space() {
    let np = parse(" { \"price\" :\t12 ,\n\"image\": \"i.png\" , \"name\" : \"N\" } ").unwrap();
    assert_eq!(np, payload("N", "i.png", 12));
}

#[test]
fn parses_string_escapes() {
    let np = parse("{\"name\":\"a\\\"b\\\\c\\n\",\"image\":\"\\/x\",\"price\":0}").unwrap();
    assert_eq!(np.name, chars("a\"b\\c\n"));
    assert_eq!(np.image, chars("/x"));
}

#[test]
fn parses_unicode_escapes() {
    let np = parse("{\"name\":\"\\u0041x\",\"image\":\"\\u20ac\",\"price\":1}").unwrap();
    assert_eq!(np.name, chars("Ax"));
    assert_eq!(np.image, chars("\u{20ac}"));
}

#[test]
fn rejects_a_surrogate_escape() {
    assert_eq!(
        parse("{\"name\":\"\\ud834\",\"image\":\"i\",\"price\":1}"),
        Err(RepoError::BadRequest)
    );
}

#[test]
fn rejects_a_broken_unicode_escape() {
    assert_eq!(
        parse("{\"name\":\"\\u00zz\",\"image\":\"i\",\"price\":1}"),
        Err(RepoError::BadRequest)
    );
    assert_eq!(parse("{\"name\":\"\\u12"), Err(RepoError::BadRequest));
}

#[test]
fn parses_a_negative_price() {
    let np = parse("{\"name\":\"n\",\"image\":\"i\",\"price\":-45}").unwrap();
    assert_eq!(np.price, -45);
}

#[test]
fn rejects_a_truncated_body() {
    assert_eq!(parse("{\"name\":\"n\""), Err(RepoError::BadRequest));
}

#[test]
fn rejects_a_missing_member() {
    assert_eq!(parse("{\"name\":\"n\",\"image\":\"i\"}"), Err(RepoError::BadRequest));
}

#[test]
fn rejects_a_repeated_member() {
    assert_eq!(
        parse("{\"name\":\"n\",\"name\":\"m\",\"price\":1}"),
        Err(RepoError::BadRequest)
    );
}

#[test]
fn rejects_an_unknown_member() {
    assert_eq!(
        parse("{\"name\":\"n\",\"image\":\"i\",\"cost\":1}"),
        Err(RepoError::BadRequest)
    );
}

#[test]
fn rejects_a_value_of_the_wrong_kind() {
    assert_eq!(
        parse("{\"name\":7,\"image\":\"i\",\"price\":1}"),
        Err(RepoError::BadRequest)
    );
}

#[test]
fn rejects_a_price_that_overflows() {
    assert_eq!(
        parse("{\"name\":\"n\",\"image\":\"i\",\"price\":2147483648}"),
        Err(RepoError::BadRequest)
    );
    assert_eq!(
        parse("{\"name\":\"n\",\"image\":\"i\",\"price\":99999999999999999999}"),
        Err(RepoError::BadRequest)
    );
}

#[test]
fn accepts_the_extreme_prices() {
    let np = parse("{\"name\":\"n\",\"image\":\"i\",\"price\":2147483647}").unwrap();
    assert_eq!(np.price, i32::MAX);
    let np = parse("{\"name\":\"n\",\"image\":\"i\",\"price\":-2147483648}").unwrap();
    assert_eq!(np.price, i32::MIN);
}

#[test]
fn rejects_a_leading_zero() {
    assert_eq!(
        parse("{\"name\":\"n\",\"image\":\"i\",\"price\":007}"),
        Err(RepoError::BadRequest)
    );
}

#[test]
fn rejects_trailing_text() {
    assert_eq!(
        parse("{\"name\":\"n\",\"image\":\"i\",\"price\":1}x"),
        Err(RepoError::BadRequest)
    );
}

#[test]
fn rejects_text_that_is_not_an_object() {
    assert_eq!(parse(""), Err(RepoError::BadRequest));
    assert_eq!(parse("[1,2]"), Err(RepoError::BadRequest));
    assert_eq!(parse("widget"), Err(RepoError::BadRequest));
}

#[test]
fn uuid_parsing_inverts_rendering() {
    for id in [0u128, 1, 999, 0x0123_4567_89ab_cdef_0123_4567_89ab_cdef, u128::MAX] {
        assert_eq!(uuid_of_chars(&uuid_chars(id)), Some(id));
    }
}

#[test]
fn uuid_parsing_accepts_either_case() {
    assert_eq!(
        uuid_of_chars(&chars("01234567-89AB-CDEF-0123-456789abcdef")),
        Some(0x0123_4567_89ab_cdef_0123_4567_89ab_cdef)
    );
}

#[test]
fn uuid_parsing_rejects_malformed_text() {
    assert_eq!(uuid_of_chars(&chars("not-a-uuid")), None);
    assert_eq!(uuid_of_chars(&chars("0123456789abcdef0123456789abcdef")), None);
    assert_eq!(uuid_of_chars(&chars("01234567_89ab_cdef_0123_456789abcdef")), None);
    assert_eq!(uuid_of_chars(&chars("0123456x-89ab-cdef-0123-456789abcdef")), None);
    assert_eq!(uuid_of_chars(&chars("01234567-89ab-cdef-0123-456789abcde")), None);
}
