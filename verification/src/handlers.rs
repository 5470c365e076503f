//! The request-handler layer: each route's handler takes the store and the
//! request's plain parts, runs the repository operation, and renders the
//! outcome as a status code and a JSON body.
//!
//! Status mapping: success is 200; a malformed payload is 400; a missing
//! identifier on get/update is 404; a failed store operation is 500.

use vstd::prelude::*;

use crate::catalog::{delete_one, has_id, index_of_id, record_at, Catalog};
use crate::ids::{uuid_chars, uuid_str};
use crate::images::{base_names, list_images};
use crate::json::{names_of, product_json, product_to_json, products_json, products_to_json,
    strings_json, strings_to_json};
use crate::parse::{parse_new_product, parse_payload};
use crate::product::RepoError;

verus! {

/// What a handler hands back: an HTTP status code and a response body.
pub struct Response {
    pub status: u16,
    pub body: Vec<char>,
}

/// The status code that reports an error: 400 for a malformed request,
/// 404 for a missing record, 500 for a store or I/O failure.
pub open spec fn status_of(e: RepoError) -> int {
    match e {
        RepoError::BadRequest => 400,
        RepoError::NotFound => 404,
        _ => 500,
    }
}

/// The response that reports an error, with an empty body.
pub fn error_response(e: RepoError) -> (r: Response)
    ensures
        r.status as int == status_of(e),
        r.body@ == Seq::<char>::empty(),
{
    let status: u16 = match e {
        RepoError::BadRequest => 400,
        RepoError::NotFound => 404,
        _ => 500,
    };
    Response { status, body: Vec::new() }
}

/// Serves a list request: every record, rendered as a JSON array.
pub fn list_handler(catalog: &Catalog) -> (r: Response)
    ensures
        r.status == 200,
        r.body@ == products_json(catalog@),
{
    let records = catalog.list();
    Response { status: 200, body: products_to_json(&records) }
}

/// Serves a create request.  A body the payload grammar rejects gets 400
/// and leaves the store unchanged; otherwise the record is stored under a
/// freshly drawn identifier and rendered back, or, should the drawn
/// identifier collide, the store is left unchanged and 500 reported.  A
/// collision takes a record to collide with: on an empty store a
/// well-formed payload always gets 200.
pub fn create_handler(catalog: &mut Catalog, body: &Vec<char>) -> (r: Response)
    requires
        old(catalog).wf(),
    ensures
        final(catalog).wf(),
        parse_payload(body@) is None ==> r.status == 400 && final(catalog)@ == old(catalog)@
            && r.body@ == Seq::<char>::empty(),
        parse_payload(body@) matches Some(np) ==> ((r.status == 200 && exists|pid: u128|
            !has_id(old(catalog)@, pid) && final(catalog)@ == old(catalog)@.push(np.with_id(pid))
                && r.body@ == product_json(np.with_id(pid))) || (r.status == 500
            && final(catalog)@ == old(catalog)@ && r.body@ == Seq::<char>::empty())),
        parse_payload(body@) is Some && old(catalog)@.len() == 0 ==> r.status == 200,
{
    match parse_new_product(body) {
        Err(e) => error_response(e),
        Ok(np) => match catalog.create_product(np) {
            Ok(p) => {
                proof {
                    let spec_np = parse_payload(body@)->Some_0;
                    assert(p@ == spec_np.with_id(p@.id));
                }
                Response { status: 200, body: product_to_json(&p) }
            },
            Err(e) => error_response(e),
        },
    }
}

/// Serves a read request: the record under the identifier, or 404.
pub fn get_handler(catalog: &Catalog, id: u128) -> (r: Response)
    requires
        catalog.wf(),
    ensures
        has_id(catalog@, id) ==> r.status == 200 && r.body@ == product_json(
            record_at(catalog@, id),
        ),
        !has_id(catalog@, id) ==> r.status == 404 && r.body@ == Seq::<char>::empty(),
{
    match catalog.get_product(id) {
        Ok(p) => Response { status: 200, body: product_to_json(&p) },
        Err(e) => error_response(e),
    }
}

/// Serves an update request.  A rejected body gets 400; a missing
/// identifier gets 404; otherwise every mutable field is replaced and the
/// new record rendered back.  Whatever fails leaves the store unchanged.
pub fn update_handler(catalog: &mut Catalog, id: u128, body: &Vec<char>) -> (r: Response)
    requires
        old(catalog).wf(),
    ensures
        final(catalog).wf(),
        parse_payload(body@) is None ==> r.status == 400 && final(catalog)@ == old(catalog)@
            && r.body@ == Seq::<char>::empty(),
        parse_payload(body@) matches Some(np) ==> (has_id(old(catalog)@, id) ==> r.status == 200
            && final(catalog)@ == old(catalog)@.update(
            index_of_id(old(catalog)@, id),
            np.with_id(id),
        ) && r.body@ == product_json(np.with_id(id))),
        parse_payload(body@) matches Some(np) ==> (!has_id(old(catalog)@, id) ==> r.status == 404
            && final(catalog)@ == old(catalog)@ && r.body@ == Seq::<char>::empty()),
{
    match parse_new_product(body) {
        Err(e) => error_response(e),
        Ok(np) => match catalog.update_product(id, np) {
            Ok(p) => Response { status: 200, body: product_to_json(&p) },
            Err(e) => error_response(e),
        },
    }
}

/// Serves a delete request: removes the record under the identifier, if
/// any, and reports 200 with the identifier rendered as a JSON string;
/// a missing identifier is a no-op that still succeeds.
pub fn delete_handler(catalog: &mut Catalog, id: u128) -> (r: Response)
    requires
        old(catalog).wf(),
    ensures
        final(catalog).wf(),
        r.status == 200,
        r.body@ == seq!['"'] + uuid_str(id) + seq!['"'],
        final(catalog)@ == delete_one(old(catalog)@, id),
        !has_id(final(catalog)@, id),
{
    let removed = catalog.delete_product(id);
    let mut body: Vec<char> = Vec::new();
    body.push('"');
    let mut u = uuid_chars(removed);
    body.append(&mut u);
    body.push('"');
    proof {
        assert(body@ =~= seq!['"'] + uuid_str(id) + seq!['"']);
    }
    Response { status: 200, body }
}

/// Serves an image-listing request: the file name of each enumerated
/// path, rendered as a JSON array of strings.
pub fn images_handler(paths: &Vec<Vec<char>>) -> (r: Response)
    ensures
        r.status == 200,
        r.body@ == strings_json(base_names(names_of(paths@))),
{
    let names = list_images(paths);
    Response { status: 200, body: strings_to_json(&names) }
}

} // verus!
