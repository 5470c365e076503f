//! The catalog's record type, the payload of a create/update request, and
//! the errors a repository operation can report.

use vstd::prelude::*;

verus! {

/// A catalog record: an identifier (the 128-bit value of a UUID), a name,
/// an image reference and a price in the smallest currency unit.
///
/// Text is carried as a vector of characters so that contracts can speak
/// of it directly as a sequence.
#[derive(Debug, PartialEq, Eq)]
pub struct Product {
    pub id: u128,
    pub name: Vec<char>,
    pub image: Vec<char>,
    pub price: i32,
}

/// The mathematical value of a [`Product`].
pub ghost struct ProductView {
    pub id: u128,
    pub name: Seq<char>,
    pub image: Seq<char>,
    pub price: int,
}

impl View for Product {
    type V = ProductView;

    open spec fn view(&self) -> ProductView {
        ProductView {
            id: self.id,
            name: self.name@,
            image: self.image@,
            price: self.price as int,
        }
    }
}

impl Product {
    /// A field-for-field copy of the record.
    pub fn duplicate(&self) -> (r: Product)
        ensures
            r@ == self@,
    {
        let name = self.name.clone();
        let image = self.image.clone();
        proof {
            assert(name@ =~= self.name@);
            assert(image@ =~= self.image@);
        }
        Product { id: self.id, name, image, price: self.price }
    }
}

/// The fields a caller supplies when creating or replacing a record; the
/// identifier is not among them.
#[derive(Debug, PartialEq, Eq)]
pub struct NewProduct {
    pub name: Vec<char>,
    pub image: Vec<char>,
    pub price: i32,
}

/// The mathematical value of a [`NewProduct`].
pub ghost struct NewProductView {
    pub name: Seq<char>,
    pub image: Seq<char>,
    pub price: int,
}

impl View for NewProduct {
    type V = NewProductView;

    open spec fn view(&self) -> NewProductView {
        NewProductView { name: self.name@, image: self.image@, price: self.price as int }
    }
}

impl NewProductView {
    /// The record that results from attaching an identifier to the payload.
    pub open spec fn with_id(self, id: u128) -> ProductView {
        ProductView { id, name: self.name, image: self.image, price: self.price }
    }
}

/// The values of a sequence of records, element for element.
pub open spec fn views_of(s: Seq<Product>) -> Seq<ProductView> {
    s.map_values(|p: Product| p@)
}

/// What a repository or handler operation can report instead of a result.
#[derive(Debug, Clone, Copy, PartialEq, Eq, Structural)]
pub enum RepoError {
    /// A connection to the store could not be obtained.
    StoreUnavailable,
    /// The store rejected or failed a query.
    QueryFailed,
    /// No record matches the given identifier.
    NotFound,
    /// The request input is malformed.
    BadRequest,
    /// Reading the image directory failed.
    IoError,
}

} // verus!
