//! The cart store: an insertion-ordered sequence of cart lines, at most one
//! line per product id, mutated only through `add`, `edit` and `delete` and
//! read through `list` and `total`.
//!
//! The abstract model is a `Seq<CartItemView>`; the spec functions
//! [`spec_add`], [`spec_edit`] and [`spec_delete`] say exactly what each
//! operation does to it.

use vstd::prelude::*;
use vstd::arithmetic::mul::{lemma_mul_nonnegative, lemma_mul_upper_bound};
use crate::models::{CartError, CartItem, CartItemView, Product, ProductView};

verus! {

/// The abstract content of a sequence of cart lines: their views, in order.
pub open spec fn views_of(lines: Seq<CartItem>) -> Seq<CartItemView> {
    lines.map_values(|it: CartItem| it@)
}

/// Whether some line of `s` carries product id `id`.
pub open spec fn has_line(s: Seq<CartItemView>, id: u32) -> bool {
    exists|i: int| 0 <= i < s.len() && s[i].product.id == id
}

/// An index of a line carrying `id`. Meaningful only when [`has_line`]
/// holds; when ids are distinct it is the one such index.
pub open spec fn line_at(s: Seq<CartItemView>, id: u32) -> int {
    choose|i: int| 0 <= i < s.len() && s[i].product.id == id
}

/// The cart invariant: at most one line per product id.
pub open spec fn distinct_ids(s: Seq<CartItemView>) -> bool {
    forall|i: int, j: int| 0 <= i < j < s.len() ==> s[i].product.id != s[j].product.id
}

/// Whether an add of a product with id `id` can be performed on `s`: the
/// stored quantity must be below the executable bound, so that the
/// increment cannot overflow.
pub open spec fn may_add(s: Seq<CartItemView>, id: u32) -> bool {
    has_line(s, id) ==> s[line_at(s, id)].quantity < u32::MAX
}

/// What `add` does to the cart: if a line with the product's id exists, its
/// quantity rises by one and nothing else changes (in particular the stored
/// product is not refreshed from the new payload); otherwise a new line
/// with quantity one is appended.
pub open spec fn spec_add(s: Seq<CartItemView>, p: ProductView) -> Seq<CartItemView> {
    if has_line(s, p.id) {
        let i = line_at(s, p.id);
        s.update(i, CartItemView { product: s[i].product, quantity: s[i].quantity + 1 })
    } else {
        s.push(CartItemView { product: p, quantity: 1 })
    }
}

/// What `edit` does to the cart: if a line with `id` exists, its quantity
/// becomes `q` (zero included; the line stays) and nothing else changes;
/// otherwise the cart is left as it was.
pub open spec fn spec_edit(s: Seq<CartItemView>, id: u32, q: u32) -> Seq<CartItemView> {
    if has_line(s, id) {
        let i = line_at(s, id);
        s.update(i, CartItemView { product: s[i].product, quantity: q as nat })
    } else {
        s
    }
}

/// What `delete` does to the cart: if a line with `id` exists it is removed
/// and the remaining lines keep their relative order; otherwise the cart is
/// left as it was.
pub open spec fn spec_delete(s: Seq<CartItemView>, id: u32) -> Seq<CartItemView> {
    if has_line(s, id) {
        s.remove(line_at(s, id))
    } else {
        s
    }
}

/// The price of one line: unit price times quantity, in minor units.
pub open spec fn line_total(l: CartItemView) -> int {
    l.product.price * l.quantity
}

/// The price of a whole cart: the sum of its line totals, in minor units.
pub open spec fn total_of(s: Seq<CartItemView>) -> int
    decreases s.len(),
{
    if s.len() == 0 {
        0
    } else {
        total_of(s.drop_last()) + line_total(s.last())
    }
}

/// The displayed price of one line: unit price times quantity, in minor
/// units; `None` exactly when it does not fit in a `u64`.
pub fn item_line_total(item: &CartItem) -> (r: Option<u64>)
    ensures
        match r {
            Some(t) => t == line_total(item@),
            None => line_total(item@) > u64::MAX,
        },
{
    proof {
        lemma_mul_upper_bound(item.product.price as int, u64::MAX as int,
            item.quantity as int, u32::MAX as int);
    }
    let t = (item.product.price as u128) * (item.quantity as u128);
    if t > u64::MAX as u128 {
        None
    } else {
        Some(t as u64)
    }
}

/// A line total is never negative.
proof fn lemma_line_total_nonneg(l: CartItemView)
    ensures
        line_total(l) >= 0,
{
    lemma_mul_nonnegative(l.product.price as int, l.quantity as int);
}

/// Summing one more line extends the prefix total by that line's total.
proof fn lemma_total_of_take_step(s: Seq<CartItemView>, i: int)
    requires
        0 <= i < s.len(),
    ensures
        total_of(s.take(i + 1)) == total_of(s.take(i)) + line_total(s[i]),
{
    assert(s.take(i + 1).drop_last() =~= s.take(i));
    assert(s.take(i + 1).last() == s[i]);
}

/// A prefix of a cart never totals more than the whole cart.
proof fn lemma_total_of_prefix(s: Seq<CartItemView>, i: int)
    requires
        0 <= i <= s.len(),
    ensures
        total_of(s.take(i)) <= total_of(s),
    decreases s.len(),
{
    if i == s.len() {
        assert(s.take(i) =~= s);
    } else {
        lemma_line_total_nonneg(s.last());
        lemma_total_of_prefix(s.drop_last(), i);
        assert(s.drop_last().take(i) =~= s.take(i));
    }
}

/// The process-wide cart: created empty, mutated only through the
/// operations below. The HTTP layer holds it behind an exclusive-access
/// gate, so every call sees and leaves a consistent sequence.
pub struct CartStore {
    lines: Vec<CartItem>,
}

impl View for CartStore {
    type V = Seq<CartItemView>;

    closed spec fn view(&self) -> Seq<CartItemView> {
        views_of(self.lines@)
    }
}

impl CartStore {
    /// The invariant every operation establishes and preserves.
    pub open spec fn wf(&self) -> bool {
        distinct_ids(self@)
    }

    /// Creates an empty cart.
    pub fn new() -> (store: CartStore)
        ensures
            store@ == Seq::<CartItemView>::empty(),
            store.wf(),
    {
        let store = CartStore { lines: Vec::new() };
        proof {
            assert(store@ =~= Seq::<CartItemView>::empty());
        }
        store
    }

    /// The number of lines in the cart.
    pub fn len(&self) -> (n: usize)
        ensures
            n == self@.len(),
    {
        self.lines.len()
    }

    /// The index of the line carrying `product_id`, by linear scan;
    /// `None` when no line carries it.
    fn find_index(&self, product_id: u32) -> (r: Option<usize>)
        ensures
            match r {
                Some(i) => 0 <= i < self@.len() && self@[i as int].product.id == product_id,
                None => !has_line(self@, product_id),
            },
    {
        let n = self.lines.len();
        let mut i: usize = 0;
        while i < n
            invariant
                n == self.lines@.len(),
                i <= n,
                forall|j: int| 0 <= j < i ==> self@[j].product.id != product_id,
            decreases n - i,
        {
            if self.lines[i].product.id == product_id {
                return Some(i);
            }
            i = i + 1;
        }
        None
    }

    /// Under the invariant, any found index is the one [`line_at`] names.
    proof fn lemma_found_is_line_at(&self, product_id: u32, i: int)
        requires
            self.wf(),
            0 <= i < self@.len(),
            self@[i].product.id == product_id,
        ensures
            has_line(self@, product_id),
            line_at(self@, product_id) == i,
    {
        assert(has_line(self@, product_id));
        let k = line_at(self@, product_id);
        assert(0 <= k < self@.len() && self@[k].product.id == product_id);
    }

    /// Returns a snapshot copy of the current lines, in insertion order.
    /// Never fails.
    pub fn list(&self) -> (r: Vec<CartItem>)
        ensures
            views_of(r@) == self@,
    {
        let n = self.lines.len();
        let mut out: Vec<CartItem> = Vec::new();
        let mut i: usize = 0;
        while i < n
            invariant
                n == self.lines@.len(),
                i <= n,
                out@.len() == i,
                forall|j: int| 0 <= j < i ==> out@[j]@ == self@[j],
            decreases n - i,
        {
            out.push(self.lines[i].clone());
            i = i + 1;
        }
        proof {
            assert(views_of(out@) =~= self@);
        }
        out
    }

    /// Whether `add` may be called for `product_id`: true unless that
    /// line's quantity has reached the executable bound.
    pub fn can_add(&self, product_id: u32) -> (r: bool)
        requires
            self.wf(),
        ensures
            r == may_add(self@, product_id),
    {
        match self.find_index(product_id) {
            Some(i) => {
                proof {
                    self.lemma_found_is_line_at(product_id, i as int);
                }
                self.lines[i].quantity < u32::MAX
            }
            None => true,
        }
    }

    /// Adds a product: increments the quantity of its existing line, or
    /// appends a new line with quantity one. Always succeeds.
    pub fn add(&mut self, product: Product)
        requires
            old(self).wf(),
            may_add(old(self)@, product.id),
        ensures
            final(self).wf(),
            final(self)@ == spec_add(old(self)@, product@),
    {
        match self.find_index(product.id) {
            Some(i) => {
                proof {
                    self.lemma_found_is_line_at(product.id, i as int);
                }
                let q = self.lines[i].quantity;
                let p = self.lines[i].product.clone();
                self.lines[i] = CartItem { product: p, quantity: q + 1 };
                proof {
                    assert(final(self)@ =~= spec_add(old(self)@, product@));
                }
            }
            None => {
                self.lines.push(CartItem { product, quantity: 1 });
                proof {
                    assert(final(self)@ =~= spec_add(old(self)@, product@));
                    assert forall|a: int, b: int|
                        0 <= a < b < final(self)@.len() implies final(self)@[a].product.id
                        != final(self)@[b].product.id by {
                        if b < old(self)@.len() {
                        } else {
                            assert(!has_line(old(self)@, product.id));
                        }
                    }
                }
            }
        }
    }

    /// Sets the quantity of the line carrying `product_id` (zero included;
    /// the line stays), touching nothing else; reports `NotFound` and
    /// leaves the cart unchanged when no line carries it.
    pub fn edit(&mut self, product_id: u32, quantity: u32) -> (r: Result<(), CartError>)
        requires
            old(self).wf(),
        ensures
            final(self).wf(),
            final(self)@ == spec_edit(old(self)@, product_id, quantity),
            !has_line(old(self)@, product_id) ==> final(self)@ == old(self)@,
            r == (if has_line(old(self)@, product_id) {
                Ok::<(), CartError>(())
            } else {
                Err::<(), CartError>(CartError::NotFound)
            }),
    {
        match self.find_index(product_id) {
            Some(i) => {
                proof {
                    self.lemma_found_is_line_at(product_id, i as int);
                }
                let p = self.lines[i].product.clone();
                self.lines[i] = CartItem { product: p, quantity };
                proof {
                    assert(final(self)@ =~= spec_edit(old(self)@, product_id, quantity));
                }
                Ok(())
            }
            None => Err(CartError::NotFound),
        }
    }

    /// Removes the line carrying `product_id`, preserving the relative
    /// order of the remaining lines; reports `NotFound` and leaves the
    /// cart unchanged when no line carries it.
    pub fn delete(&mut self, product_id: u32) -> (r: Result<(), CartError>)
        requires
            old(self).wf(),
        ensures
            final(self).wf(),
            final(self)@ == spec_delete(old(self)@, product_id),
            !has_line(old(self)@, product_id) ==> final(self)@ == old(self)@,
            r == (if has_line(old(self)@, product_id) {
                Ok::<(), CartError>(())
            } else {
                Err::<(), CartError>(CartError::NotFound)
            }),
    {
        match self.find_index(product_id) {
            Some(i) => {
                proof {
                    self.lemma_found_is_line_at(product_id, i as int);
                }
                self.lines.remove(i);
                proof {
                    assert(final(self)@ =~= spec_delete(old(self)@, product_id));
                    assert forall|a: int, b: int|
                        0 <= a < b < final(self)@.len() implies final(self)@[a].product.id
                        != final(self)@[b].product.id by {
                        let ai = if a < i as int { a } else { a + 1 };
                        let bi = if b < i as int { b } else { b + 1 };
                        assert(old(self)@[ai].product.id != old(self)@[bi].product.id);
                    }
                }
                Ok(())
            }
            None => Err(CartError::NotFound),
        }
    }

    /// The cart's total price in minor units: the sum over all lines of
    /// unit price times quantity. `None` exactly when that sum does not
    /// fit in a `u64`.
    pub fn total(&self) -> (r: Option<u64>)
        ensures
            match r {
                Some(t) => t == total_of(self@),
                None => total_of(self@) > u64::MAX,
            },
    {
        let n = self.lines.len();
        let mut acc: u64 = 0;
        let mut i: usize = 0;
        while i < n
            invariant
                n == self.lines@.len(),
                i <= n,
                acc == total_of(self@.take(i as int)),
            decreases n - i,
        {
            let price = self.lines[i].product.price;
            let quantity = self.lines[i].quantity;
            proof {
                lemma_mul_upper_bound(price as int, u64::MAX as int, quantity as int,
                    u32::MAX as int);
                lemma_total_of_take_step(self@, i as int);
                assert(self@[i as int] == self.lines@[i as int]@);
            }
            let term = (price as u128) * (quantity as u128);
            let room = (u64::MAX as u128) - (acc as u128);
            if term > room {
                proof {
                    lemma_total_of_prefix(self@, i as int + 1);
                }
                return None;
            }
            acc = ((acc as u128) + term) as u64;
            i = i + 1;
        }
        proof {
            assert(self@.take(n as int) =~= self@);
        }
        Some(acc)
    }
}

} // verus!
