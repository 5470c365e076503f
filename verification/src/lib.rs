//! A small product-catalog library: an in-memory store of product records
//! with list/create/get/update/delete operations, a JSON wire format for
//! requests and responses, and the request-handler layer that maps
//! repository results onto HTTP status codes.

pub mod catalog;
pub mod handlers;
pub mod ids;
pub mod images;
pub mod json;
pub mod parse;
pub mod product;
