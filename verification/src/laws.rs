//! Laws of the cart: proved statements that relate several operations,
//! stated over the abstract model of `cart`.

use vstd::prelude::*;
use crate::cart::{distinct_ids, has_line, line_at, spec_add, spec_delete, spec_edit};
use crate::models::{CartItemView, ProductView};

verus! {

/// The product ids of a cart's lines, in order.
pub open spec fn ids_of(s: Seq<CartItemView>) -> Seq<u32> {
    s.map_values(|l: CartItemView| l.product.id)
}

/// The distinct ids of a sequence of added products, in first-add order.
pub open spec fn first_ids(ps: Seq<ProductView>) -> Seq<u32>
    decreases ps.len(),
{
    if ps.len() == 0 {
        Seq::empty()
    } else {
        let pre = first_ids(ps.drop_last());
        if pre.contains(ps.last().id) {
            pre
        } else {
            pre.push(ps.last().id)
        }
    }
}

/// The cart after adding each product of `ps` in turn, starting from `s`.
pub open spec fn spec_add_all(s: Seq<CartItemView>, ps: Seq<ProductView>) -> Seq<CartItemView>
    decreases ps.len(),
{
    if ps.len() == 0 {
        s
    } else {
        spec_add_all(spec_add(s, ps.first()), ps.drop_first())
    }
}

/// A cart holds a line for `id` exactly when `id` is among its ids.
pub proof fn lemma_has_line_ids(s: Seq<CartItemView>, id: u32)
    ensures
        has_line(s, id) <==> ids_of(s).contains(id),
{
    if has_line(s, id) {
        let i = choose|i: int| 0 <= i < s.len() && s[i].product.id == id;
        assert(ids_of(s)[i] == id);
    }
    if ids_of(s).contains(id) {
        let i = choose|i: int| 0 <= i < ids_of(s).len() && ids_of(s)[i] == id;
        assert(s[i].product.id == id);
    }
}

/// One add preserves the invariant; it keeps the ids as they were when the
/// product's id was already present, and appends it otherwise.
pub proof fn lemma_spec_add_effect(s: Seq<CartItemView>, p: ProductView)
    requires
        distinct_ids(s),
    ensures
        distinct_ids(spec_add(s, p)),
        has_line(s, p.id) ==> ids_of(spec_add(s, p)) == ids_of(s),
        !has_line(s, p.id) ==> ids_of(spec_add(s, p)) == ids_of(s).push(p.id),
        spec_add(s, p).len() == (if has_line(s, p.id) {
            s.len()
        } else {
            s.len() + 1
        }),
{
    let t = spec_add(s, p);
    if has_line(s, p.id) {
        let i = line_at(s, p.id);
        assert(0 <= i < s.len() && s[i].product.id == p.id);
        assert(ids_of(t) =~= ids_of(s));
        assert forall|a: int, b: int| 0 <= a < b < t.len() implies t[a].product.id
            != t[b].product.id by {
            assert(t[a].product.id == ids_of(t)[a]);
            assert(t[b].product.id == ids_of(t)[b]);
        }
    } else {
        assert(ids_of(t) =~= ids_of(s).push(p.id));
        assert forall|a: int, b: int| 0 <= a < b < t.len() implies t[a].product.id
            != t[b].product.id by {
            if b < s.len() {
            } else {
                assert(!has_line(s, p.id));
            }
        }
    }
}

/// Duplicate adds collapse into one line: adding a product whose id is
/// already carted leaves the length unchanged, and adding the same id
/// twice to a cart that did not hold it yields exactly one new line,
/// carrying the first payload's product with quantity two.
pub proof fn lemma_duplicate_add(s: Seq<CartItemView>, p1: ProductView, p2: ProductView)
    requires
        distinct_ids(s),
        p1.id == p2.id,
    ensures
        spec_add(spec_add(s, p1), p2).len() == spec_add(s, p1).len(),
        distinct_ids(spec_add(spec_add(s, p1), p2)),
        !has_line(s, p1.id) ==> ({
            let t = spec_add(spec_add(s, p1), p2);
            &&& t.len() == s.len() + 1
            &&& t[s.len() as int] == (CartItemView { product: p1, quantity: 2 })
            &&& forall|j: int| 0 <= j < s.len() ==> t[j] == s[j]
        }),
{
    lemma_spec_add_effect(s, p1);
    let s1 = spec_add(s, p1);
    lemma_spec_add_effect(s1, p2);
    lemma_has_line_ids(s, p1.id);
    lemma_has_line_ids(s1, p2.id);
    if !has_line(s, p1.id) {
        assert(s1[s.len() as int].product.id == p2.id);
        assert(has_line(s1, p2.id));
        let i = line_at(s1, p2.id);
        assert(0 <= i < s1.len() && s1[i].product.id == p2.id);
        assert(i == s.len() as int);
    } else {
        assert(ids_of(s).contains(p2.id));
        assert(has_line(s1, p2.id));
    }
}

/// Folding over `ps.push(p)` is folding over `ps`, then adding `p`.
pub proof fn lemma_add_all_snoc(s: Seq<CartItemView>, ps: Seq<ProductView>, p: ProductView)
    ensures
        spec_add_all(s, ps.push(p)) == spec_add(spec_add_all(s, ps), p),
    decreases ps.len(),
{
    let e = ps.push(p);
    if ps.len() == 0 {
        assert(e.drop_first() =~= Seq::<ProductView>::empty());
        assert(e.first() == p);
        assert(spec_add_all(s, e) == spec_add_all(spec_add(s, p), e.drop_first()));
        assert(spec_add_all(spec_add(s, p), e.drop_first()) == spec_add(s, p));
        assert(spec_add_all(s, ps) == s);
    } else {
        assert(e.first() == ps.first());
        assert(e.drop_first() =~= ps.drop_first().push(p));
        assert(spec_add_all(s, e) == spec_add_all(spec_add(s, ps.first()), e.drop_first()));
        lemma_add_all_snoc(spec_add(s, ps.first()), ps.drop_first(), p);
        assert(spec_add_all(s, ps) == spec_add_all(spec_add(s, ps.first()), ps.drop_first()));
    }
}

/// `add` then `list`: starting from an empty cart, adding any sequence of
/// products yields one line per distinct product id, in first-add order.
pub proof fn lemma_adds_keep_first_add_order(ps: Seq<ProductView>)
    ensures
        distinct_ids(spec_add_all(Seq::empty(), ps)),
        ids_of(spec_add_all(Seq::empty(), ps)) == first_ids(ps),
        spec_add_all(Seq::empty(), ps).len() == first_ids(ps).len(),
    decreases ps.len(),
{
    if ps.len() == 0 {
        assert(ids_of(spec_add_all(Seq::empty(), ps)) =~= first_ids(ps));
    } else {
        let pre = ps.drop_last();
        let p = ps.last();
        lemma_adds_keep_first_add_order(pre);
        assert(pre.push(p) =~= ps);
        lemma_add_all_snoc(Seq::empty(), pre, p);
        let c = spec_add_all(Seq::empty(), pre);
        lemma_spec_add_effect(c, p);
        lemma_has_line_ids(c, p.id);
    }
}

/// Adding products with pairwise distinct ids, none of them already
/// carted, appends one line per product with quantity one, in add order.
pub proof fn lemma_fresh_adds_append(s: Seq<CartItemView>, ps: Seq<ProductView>)
    requires
        distinct_ids(s),
        forall|i: int, j: int| 0 <= i < j < ps.len() ==> ps[i].id != ps[j].id,
        forall|i: int| 0 <= i < ps.len() ==> !has_line(s, #[trigger] ps[i].id),
    ensures
        spec_add_all(s, ps) == s + ps.map_values(
            |p: ProductView| CartItemView { product: p, quantity: 1 },
        ),
    decreases ps.len(),
{
    let f = |p: ProductView| CartItemView { product: p, quantity: 1 };
    if ps.len() == 0 {
        assert(spec_add_all(s, ps) =~= s + ps.map_values(f));
    } else {
        let p = ps.first();
        assert(!has_line(s, ps[0].id));
        let s1 = spec_add(s, p);
        lemma_spec_add_effect(s, p);
        let rest = ps.drop_first();
        assert forall|i: int| 0 <= i < rest.len() implies !has_line(
            s1,
            #[trigger] rest[i].id,
        ) by {
            assert(rest[i] == ps[i + 1]);
            assert(!has_line(s, ps[i + 1].id));
            assert(ps[0].id != ps[i + 1].id);
            if has_line(s1, rest[i].id) {
                let k = choose|k: int| 0 <= k < s1.len() && s1[k].product.id == rest[i].id;
                if k < s.len() {
                    assert(s[k].product.id == rest[i].id);
                } else {
                    assert(s1[k].product == p);
                }
            }
        }
        lemma_fresh_adds_append(s1, rest);
        assert(spec_add_all(s, ps) == spec_add_all(s1, rest));
        assert(s1 + rest.map_values(f) =~= s + ps.map_values(f));
    }
}

/// Adds of pairwise distinct product ids, serialized through the cart's
/// exclusive-access gate in any order, leave one line per product with
/// quantity one: no lost updates and no duplicate lines.
pub proof fn lemma_distinct_adds_once_each(ps: Seq<ProductView>)
    requires
        forall|i: int, j: int| 0 <= i < j < ps.len() ==> ps[i].id != ps[j].id,
    ensures
        spec_add_all(Seq::empty(), ps).len() == ps.len(),
        forall|i: int| 0 <= i < ps.len() ==> #[trigger] spec_add_all(Seq::empty(), ps)[i]
            == (CartItemView { product: ps[i], quantity: 1 }),
{
    assert forall|i: int| 0 <= i < ps.len() implies !has_line(
        Seq::empty(),
        #[trigger] ps[i].id,
    ) by {}
    lemma_fresh_adds_append(Seq::<CartItemView>::empty(), ps);
    let f = |p: ProductView| CartItemView { product: p, quantity: 1 };
    assert(spec_add_all(Seq::empty(), ps) =~= ps.map_values(f));
}

/// `edit` of a carted id updates only that line's quantity: the line keeps
/// its product, and every other line is unchanged in content and position.
pub proof fn lemma_edit_updates_only_target(s: Seq<CartItemView>, id: u32, q: u32)
    requires
        distinct_ids(s),
        has_line(s, id),
    ensures
        ({
            let i = line_at(s, id);
            let t = spec_edit(s, id, q);
            &&& t.len() == s.len()
            &&& t[i].product == s[i].product
            &&& t[i].quantity == q as nat
            &&& forall|j: int| 0 <= j < s.len() && j != i ==> t[j] == s[j]
            &&& distinct_ids(t)
        }),
{
    let i = line_at(s, id);
    assert(0 <= i < s.len() && s[i].product.id == id);
    let t = spec_edit(s, id, q);
    assert forall|a: int, b: int| 0 <= a < b < t.len() implies t[a].product.id
        != t[b].product.id by {
        assert(t[a].product == s[a].product);
        assert(t[b].product == s[b].product);
    }
}

/// `delete` of a carted id removes exactly that line; the remaining lines
/// keep their relative order, and no line for the id remains.
pub proof fn lemma_delete_removes_one(s: Seq<CartItemView>, id: u32)
    requires
        distinct_ids(s),
        has_line(s, id),
    ensures
        ({
            let i = line_at(s, id);
            let t = spec_delete(s, id);
            &&& t.len() == s.len() - 1
            &&& forall|j: int| 0 <= j < i ==> t[j] == s[j]
            &&& forall|j: int| i <= j < t.len() ==> t[j] == s[j + 1]
            &&& !has_line(t, id)
            &&& distinct_ids(t)
        }),
{
    let i = line_at(s, id);
    assert(0 <= i < s.len() && s[i].product.id == id);
    let t = spec_delete(s, id);
    s.remove_ensures(i);
    assert forall|k: int| 0 <= k < t.len() implies t[k].product.id != id by {
        let orig = if k < i {
            k
        } else {
            k + 1
        };
        assert(t[k] == s[orig]);
        assert(s[orig].product.id != s[i].product.id);
    }
    assert(!has_line(t, id));
    assert forall|a: int, b: int| 0 <= a < b < t.len() implies t[a].product.id
        != t[b].product.id by {
        let ai = if a < i {
            a
        } else {
            a + 1
        };
        let bi = if b < i {
            b
        } else {
            b + 1
        };
        assert(t[a] == s[ai]);
        assert(t[b] == s[bi]);
        assert(s[ai].product.id != s[bi].product.id);
    }
}

} // verus!
