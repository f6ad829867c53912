//! Data model: catalog products, cart lines, request payloads and the cart's
//! error type.
//!
//! A product's price is carried in minor currency units (hundredths), so that
//! all price arithmetic is exact integer arithmetic.

use vstd::prelude::*;

verus! {

/// One product of the upstream catalog, as this system reads it: the id is
/// what cart operations match on, the price (in minor units) is what totals
/// are computed from, and the remaining fields ride along unread.
pub struct Product {
    pub id: u32,
    pub title: String,
    /// Price in minor currency units (hundredths of the display unit).
    pub price: u64,
    pub description: String,
    pub category: String,
    pub image: String,
}

/// Mathematical value of a [`Product`]: the same fields with strings taken
/// as character sequences.
#[verifier::ext_equal]
pub ghost struct ProductView {
    pub id: u32,
    pub title: Seq<char>,
    pub price: u64,
    pub description: Seq<char>,
    pub category: Seq<char>,
    pub image: Seq<char>,
}

impl View for Product {
    type V = ProductView;

    open spec fn view(&self) -> ProductView {
        ProductView {
            id: self.id,
            title: self.title@,
            price: self.price,
            description: self.description@,
            category: self.category@,
            image: self.image@,
        }
    }
}

impl Clone for Product {
    fn clone(&self) -> (res: Self)
        ensures
            res@ == self@,
    {
        Product {
            id: self.id,
            title: self.title.clone(),
            price: self.price,
            description: self.description.clone(),
            category: self.category.clone(),
            image: self.image.clone(),
        }
    }
}

/// One cart line: a copy of the product it was added from, and a quantity.
pub struct CartItem {
    pub product: Product,
    pub quantity: u32,
}

/// Mathematical value of a [`CartItem`]. The quantity is unbounded here; the
/// executable type bounds it at `u32::MAX`.
#[verifier::ext_equal]
pub ghost struct CartItemView {
    pub product: ProductView,
    pub quantity: nat,
}

impl View for CartItem {
    type V = CartItemView;

    open spec fn view(&self) -> CartItemView {
        CartItemView { product: self.product@, quantity: self.quantity as nat }
    }
}

impl Clone for CartItem {
    fn clone(&self) -> (res: Self)
        ensures
            res@ == self@,
    {
        CartItem { product: self.product.clone(), quantity: self.quantity }
    }
}

/// Request body of the edit operation: which line, and the quantity to set.
pub struct EditCartItemPayload {
    pub product_id: u32,
    pub quantity: u32,
}

/// Request body of the delete operation: which line to remove.
pub struct DeleteCartItemPayload {
    pub product_id: u32,
}

/// The cart's one failure condition: the targeted product id has no line.
/// The HTTP layer reports it as a soft error inside a successful response.
#[derive(Clone, Copy, PartialEq, Eq, Structural, Debug)]
pub enum CartError {
    NotFound,
}

} // verus!
