//! Shopping carts: their lines, and the totals recomputed after each change
//! (subtotal, tax at a given rate, flat shipping below a threshold, line
//! discounts).
use vstd::prelude::*;
use crate::decimal::{add_fits, dec_add, dec_gt, decimal_difference, decimal_minus, decimal_plus, decimal_product, decimal_sum, decimal_times, lemma_spec_add_wf, max_value, mul_fits, p10, spec_add, spec_mul, DecimalValue};
use crate::text::{owned, str_eq};

verus! {

/// Whether a cart can still change.
#[derive(Debug, Clone, Copy, PartialEq, Eq, Structural)]
pub enum CartStatus {
    Active,
    Abandoned,
    /// Checked out into an order.
    Converted,
}

/// A line of a cart: a quantity of one variant.
#[derive(Debug, Clone)]
pub struct CartItem {
    pub id: String,
    pub cart_id: String,
    pub variant_id: String,
    pub quantity: i32,
    pub unit_price: DecimalValue,
    pub line_total: DecimalValue,
    pub discount_amount: DecimalValue,
}

/// The amounts of a cart.
#[derive(Debug, Clone, Copy)]
pub struct CartTotals {
    pub subtotal: DecimalValue,
    pub tax_total: DecimalValue,
    pub shipping_total: DecimalValue,
    pub discount_total: DecimalValue,
    pub total: DecimalValue,
}

/// A cart with its lines and totals.
#[derive(Debug, Clone)]
pub struct Cart {
    pub id: String,
    pub status: CartStatus,
    pub currency: String,
    pub items: Vec<CartItem>,
    pub totals: CartTotals,
}

/// Why a cart change was refused.
#[derive(Debug, Clone)]
pub enum CartError {
    NotFound(String),
    InvalidOperation(String),
}

pub open spec fn dzero() -> DecimalValue {
    DecimalValue { mantissa: 0, scale: 0 }
}

/// The sum of the lines' totals, added up from zero.
pub open spec fn line_sum(items: Seq<CartItem>) -> DecimalValue
    decreases items.len(),
{
    if items.len() == 0 {
        dzero()
    } else {
        spec_add(line_sum(items.drop_last()), items.last().line_total)
    }
}

/// The sum of the lines' discounts, added up from zero.
pub open spec fn discount_sum(items: Seq<CartItem>) -> DecimalValue
    decreases items.len(),
{
    if items.len() == 0 {
        dzero()
    } else {
        spec_add(discount_sum(items.drop_last()), items.last().discount_amount)
    }
}

/// Every running sum of line totals and of discounts is exact.
pub open spec fn sums_fit(items: Seq<CartItem>) -> bool
    decreases items.len(),
{
    if items.len() == 0 {
        true
    } else {
        let last = items.last();
        &&& sums_fit(items.drop_last())
        &&& last.line_total.wf() && last.discount_amount.wf()
        &&& add_fits(line_sum(items.drop_last()), last.line_total)
        &&& add_fits(discount_sum(items.drop_last()), last.discount_amount)
    }
}

/// Flat shipping of 10, free from a subtotal of 50 on, none on an empty
/// cart.
pub open spec fn shipping_for(subtotal: DecimalValue) -> DecimalValue {
    if subtotal.value() >= 50 * p10(28) {
        dzero()
    } else if subtotal.value() > 0 {
        DecimalValue { mantissa: 10, scale: 0 }
    } else {
        dzero()
    }
}

/// The amounts stay far below what a `Decimal` holds, and the rate is at
/// most one.
pub open spec fn amounts_small(items: Seq<CartItem>, rate: DecimalValue) -> bool {
    &&& rate.wf()
    &&& -p10(28) <= rate.value() <= p10(28)
    &&& -(max_value() / 8) <= line_sum(items).value() <= max_value() / 8
    &&& -(max_value() / 8) <= discount_sum(items).value() <= max_value() / 8
}

/// Whether `t` holds the totals of `items` at tax rate `rate`: subtotal and
/// discount are exact sums, shipping follows `shipping_for`, tax is the
/// subtotal times the rate, and the total is subtotal plus tax plus
/// shipping minus discount, each step as `Decimal` computes it.
pub open spec fn is_cart_totals(t: CartTotals, items: Seq<CartItem>, rate: DecimalValue) -> bool {
    let sub = line_sum(items);
    let disc = discount_sum(items);
    let ship = shipping_for(sub);
    &&& t.subtotal == sub
    &&& t.discount_total == disc
    &&& t.shipping_total == ship
    &&& t.tax_total == decimal_product(sub, rate)
    &&& (mul_fits(sub, rate) ==> t.tax_total == spec_mul(sub, rate))
    &&& t.total == decimal_difference(decimal_sum(decimal_sum(sub, t.tax_total), ship), disc)
    &&& t.tax_total.wf() && t.total.wf()
}

proof fn lemma_sums_wf(items: Seq<CartItem>)
    requires
        sums_fit(items),
    ensures
        line_sum(items).wf(),
        discount_sum(items).wf(),
    decreases items.len(),
{
    if items.len() > 0 {
        lemma_sums_wf(items.drop_last());
        lemma_spec_add_wf(line_sum(items.drop_last()), items.last().line_total);
        lemma_spec_add_wf(discount_sum(items.drop_last()), items.last().discount_amount);
    }
}

proof fn lemma_sums_prefix(items: Seq<CartItem>, n: int)
    requires
        sums_fit(items),
        0 <= n <= items.len(),
    ensures
        sums_fit(items.take(n)),
    decreases items.len() - n,
{
    if n < items.len() {
        lemma_sums_prefix(items.drop_last(), n);
        assert(items.drop_last().take(n) =~= items.take(n));
    } else {
        assert(items.take(n) =~= items);
    }
}

/// The exact sums of the line totals and of the discounts.
fn sum_lines(items: &Vec<CartItem>) -> (r: (DecimalValue, DecimalValue))
    requires
        sums_fit(items@),
    ensures
        r.0 == line_sum(items@),
        r.1 == discount_sum(items@),
{
    let mut total = DecimalValue::zero();
    let mut discount = DecimalValue::zero();
    let mut i: usize = 0;
    assert(items@.take(0) =~= Seq::<CartItem>::empty());
    while i < items.len()
        invariant
            i <= items.len(),
            sums_fit(items@),
            total == line_sum(items@.take(i as int)),
            discount == discount_sum(items@.take(i as int)),
        decreases items.len() - i,
    {
        proof {
            lemma_sums_prefix(items@, i + 1);
            assert(items@.take(i + 1).drop_last() =~= items@.take(i as int));
            assert(items@.take(i + 1).last() == items@[i as int]);
            lemma_sums_wf(items@.take(i as int));
        }
        total = dec_add(&total, &items[i].line_total);
        discount = dec_add(&discount, &items[i].discount_amount);
        i = i + 1;
    }
    assert(items@.take(i as int) =~= items@);
    (total, discount)
}

/// Shipping for a subtotal (see `shipping_for`).
pub fn shipping_total_for(subtotal: &DecimalValue) -> (s: DecimalValue)
    requires
        subtotal.wf(),
    ensures
        s == shipping_for(*subtotal),
        subtotal.value() >= 50 * p10(28) ==> s.value() == 0,
        s.value() == 10 * p10(28) <==> 0 < subtotal.value() < 50 * p10(28),
{
    proof {
        law_shipping_free_from_fifty(*subtotal, *subtotal);
    }
    let fifty = DecimalValue { mantissa: 50, scale: 0 };
    let zero = DecimalValue::zero();
    proof {
        assert(p10(28) == p10((28 - 0) as nat));
    }
    if !dec_gt(&fifty, subtotal) {
        zero
    } else if dec_gt(subtotal, &zero) {
        DecimalValue { mantissa: 10, scale: 0 }
    } else {
        zero
    }
}

/// The tax stays within a quarter of the largest `Decimal`.
proof fn lemma_tax_bound(sv: int, rv: int, tv: int, m: int, q: int)
    requires
        -(m / 8) <= sv <= m / 8,
        -q <= rv <= q,
        q >= 1,
        m >= 8 * q,
        -(q * q) <= tv * q - sv * rv <= q * q,
    ensures
        -(m / 8) - q <= tv <= m / 8 + q,
        -(m / 8) * q <= sv * rv <= (m / 8) * q,
{
    assert(-(m / 8) * q <= sv * rv <= (m / 8) * q) by (nonlinear_arith)
        requires -(m / 8) <= sv <= m / 8, -q <= rv <= q, q >= 1, m >= 0;
    assert(-(m / 8) * q - q * q <= tv * q <= (m / 8) * q + q * q);
    assert(-(m / 8) - q <= tv <= m / 8 + q) by (nonlinear_arith)
        requires -(m / 8) * q - q * q <= tv * q <= (m / 8) * q + q * q, q >= 1;
}

/// The totals of a cart's lines at tax rate `rate` (see `is_cart_totals`).
pub fn cart_totals(items: &Vec<CartItem>, rate: &DecimalValue) -> (t: CartTotals)
    requires
        sums_fit(items@),
        amounts_small(items@, *rate),
    ensures
        is_cart_totals(t, items@, *rate),
{
    let (subtotal, discount) = sum_lines(items);
    let ghost m = max_value();
    let ghost q = p10(28);
    proof {
        lemma_sums_wf(items@);
        crate::decimal::lemma_p10_positive(28);
        crate::decimal::lemma_p10_adds(28, 28);
        assert(q == 10000000000000000000000000000) by {
            reveal_with_fuel(p10, 29);
        }
        assert(m >= 8 * q);
        let sv = subtotal.value();
        let rv = rate.value();
        assert(-(m / 8) * q <= sv * rv <= (m / 8) * q) by (nonlinear_arith)
            requires -(m / 8) <= sv <= m / 8, -q <= rv <= q, q >= 1, m >= 0;
        assert(-m * q <= sv * rv <= m * q) by (nonlinear_arith)
            requires -(m / 8) * q <= sv * rv <= (m / 8) * q, q >= 1, m >= 0;
    }
    let tax = decimal_times(&subtotal, rate);
    proof {
        lemma_tax_bound(subtotal.value(), rate.value(), tax.value(), m, q);
    }
    let shipping = shipping_total_for(&subtotal);
    proof {
        crate::decimal::lemma_zero_value(shipping);
        assert(shipping.value() == 0 || shipping.value() == 10 * q);
    }
    let with_tax = decimal_plus(&subtotal, &tax);
    let with_shipping = decimal_plus(&with_tax, &shipping);
    let total = decimal_minus(&with_shipping, &discount);
    CartTotals { subtotal, tax_total: tax, shipping_total: shipping, discount_total: discount, total }
}

/// The standard cart tax rate: 8%.
pub open spec fn standard_tax_rate() -> DecimalValue {
    DecimalValue { mantissa: 8, scale: 2 }
}

/// The standard cart tax rate, 8%.
pub fn cart_tax_rate() -> (r: DecimalValue)
    ensures
        r == standard_tax_rate(),
{
    DecimalValue { mantissa: 8, scale: 2 }
}

/// A cart's totals at the standard 8% tax rate: subtotal and discount are
/// the sums of the lines, shipping is flat 10 below a subtotal of 50 (free
/// from 50, none on an empty cart), tax is 8% of the subtotal, and the total
/// is subtotal plus tax plus shipping minus discount.
pub fn recalculate_cart_totals(items: &Vec<CartItem>) -> (t: CartTotals)
    requires
        sums_fit(items@),
        amounts_small(items@, standard_tax_rate()),
    ensures
        is_cart_totals(t, items@, standard_tax_rate()),
{
    let rate = cart_tax_rate();
    cart_totals(items, &rate)
}

/// A quantity as a decimal.
pub open spec fn qty(q: int) -> DecimalValue {
    DecimalValue { mantissa: q as i128, scale: 0 }
}

/// The index of the first line of `variant`, if any.
pub open spec fn line_of(items: Seq<CartItem>, variant: Seq<char>) -> Option<int>
    decreases items.len(),
{
    if items.len() == 0 {
        None
    } else if items[0].variant_id@ == variant {
        Some(0)
    } else {
        crate::text::shift(line_of(items.drop_first(), variant), 1)
    }
}

/// The index of the first line with id `id`, if any.
pub open spec fn line_with_id(items: Seq<CartItem>, id: Seq<char>) -> Option<int>
    decreases items.len(),
{
    if items.len() == 0 {
        None
    } else if items[0].id@ == id {
        Some(0)
    } else {
        crate::text::shift(line_with_id(items.drop_first(), id), 1)
    }
}

proof fn lemma_line_of_bounds(items: Seq<CartItem>, variant: Seq<char>)
    ensures
        line_of(items, variant) matches Some(i) ==> 0 <= i < items.len() && items[i].variant_id@ == variant,
        line_of(items, variant) is None ==> forall|k: int| 0 <= k < items.len() ==> (#[trigger] items[k]).variant_id@ != variant,
    decreases items.len(),
{
    if items.len() > 0 {
        lemma_line_of_bounds(items.drop_first(), variant);
        if line_of(items, variant) is None {
            assert forall|k: int| 0 <= k < items.len() implies (#[trigger] items[k]).variant_id@ != variant by {
                if k > 0 {
                    assert(items[k] == items.drop_first()[k - 1]);
                }
            }
        }
    }
}

proof fn lemma_line_with_id_bounds(items: Seq<CartItem>, id: Seq<char>)
    ensures
        line_with_id(items, id) matches Some(i) ==> 0 <= i < items.len() && items[i].id@ == id,
    decreases items.len(),
{
    if items.len() > 0 {
        lemma_line_with_id_bounds(items.drop_first(), id);
    }
}

/// A line after `quantity` more of its variant is added at `price`: the
/// quantities add up and the line total is the price times the new
/// quantity; the unit price stays as it was.
pub open spec fn merged_line(item: CartItem, quantity: i32, price: DecimalValue) -> CartItem {
    let q = item.quantity + quantity;
    CartItem { quantity: q as i32, line_total: spec_mul(price, qty(q)), ..item }
}

/// A new line of `quantity` of `variant` at `price`, without discount.
pub open spec fn new_line(
    id: Seq<char>,
    cart_id: Seq<char>,
    variant: Seq<char>,
    quantity: i32,
    price: DecimalValue,
    line: CartItem,
) -> bool {
    &&& line.id@ == id
    &&& line.cart_id@ == cart_id
    &&& line.variant_id@ == variant
    &&& line.quantity == quantity
    &&& line.unit_price == price
    &&& line.line_total == spec_mul(price, qty(quantity as int))
    &&& line.discount_amount == dzero()
}

/// The lines after adding `quantity` of `variant`: merged into its line
/// when the cart has one, else a new line at the end.
pub open spec fn is_added(
    before: Seq<CartItem>,
    after: Seq<CartItem>,
    cart_id: Seq<char>,
    variant: Seq<char>,
    quantity: i32,
    price: DecimalValue,
    new_id: Seq<char>,
) -> bool {
    match line_of(before, variant) {
        Some(i) => after == before.update(i, merged_line(before[i], quantity, price)),
        None => after.len() == before.len() + 1 && after.drop_last() == before && new_line(
            new_id,
            cart_id,
            variant,
            quantity,
            price,
            after.last(),
        ),
    }
}

/// The arithmetic of an addition stays exact and small.
pub open spec fn add_fits_cart(
    cart: Cart,
    variant: Seq<char>,
    quantity: i32,
    price: DecimalValue,
    new_id: Seq<char>,
    rate: DecimalValue,
) -> bool {
    &&& price.wf()
    &&& match line_of(cart.items@, variant) {
        Some(i) => {
            let q = cart.items@[i].quantity + quantity;
            &&& i32::MIN <= q <= i32::MAX
            &&& mul_fits(price, qty(q))
        },
        None => mul_fits(price, qty(quantity as int)),
    }
    &&& forall|after: Seq<CartItem>|
        #[trigger] is_added(cart.items@, after, cart.id@, variant, quantity, price, new_id) ==> sums_fit(after)
            && amounts_small(after, rate)
}

/// Totals of zero.
pub open spec fn is_zero_totals(t: CartTotals) -> bool {
    t.subtotal == dzero() && t.tax_total == dzero() && t.shipping_total == dzero() && t.discount_total == dzero()
        && t.total == dzero()
}

pub fn zero_totals() -> (t: CartTotals)
    ensures
        is_zero_totals(t),
{
    CartTotals {
        subtotal: DecimalValue::zero(),
        tax_total: DecimalValue::zero(),
        shipping_total: DecimalValue::zero(),
        discount_total: DecimalValue::zero(),
        total: DecimalValue::zero(),
    }
}

/// The first line of `variant`, if any.
fn find_variant(items: &Vec<CartItem>, variant: &str) -> (r: Option<usize>)
    ensures
        match r {
            Some(i) => line_of(items@, variant@) == Some(i as int),
            None => line_of(items@, variant@) is None,
        },
{
    let mut i: usize = 0;
    assert(items@.skip(0) =~= items@);
    while i < items.len()
        invariant
            i <= items.len(),
            line_of(items@, variant@) == crate::text::shift(line_of(items@.skip(i as int), variant@), i as int),
        decreases items.len() - i,
    {
        let ghost rest = items@.skip(i as int);
        assert(rest.drop_first() =~= items@.skip(i + 1));
        assert(rest[0] == items@[i as int]);
        if str_eq(items[i].variant_id.as_str(), variant) {
            return Some(i);
        }
        i = i + 1;
    }
    None
}

/// The first line with id `id`, if any.
fn find_line(items: &Vec<CartItem>, id: &str) -> (r: Option<usize>)
    ensures
        match r {
            Some(i) => line_with_id(items@, id@) == Some(i as int),
            None => line_with_id(items@, id@) is None,
        },
{
    let mut i: usize = 0;
    assert(items@.skip(0) =~= items@);
    while i < items.len()
        invariant
            i <= items.len(),
            line_with_id(items@, id@) == crate::text::shift(line_with_id(items@.skip(i as int), id@), i as int),
        decreases items.len() - i,
    {
        let ghost rest = items@.skip(i as int);
        assert(rest.drop_first() =~= items@.skip(i + 1));
        assert(rest[0] == items@[i as int]);
        if str_eq(items[i].id.as_str(), id) {
            return Some(i);
        }
        i = i + 1;
    }
    None
}

impl Cart {
    /// A new active cart without lines, in `currency` or USD.
    pub fn new(id: String, currency: Option<String>) -> (c: Cart)
        ensures
            c.id == id,
            c.status == CartStatus::Active,
            c.currency@ == match currency {
                Some(v) => v@,
                None => "USD"@,
            },
            c.items@.len() == 0,
            is_zero_totals(c.totals),
    {
        let currency = match currency {
            Some(v) => v,
            None => owned("USD"),
        };
        Cart { id, status: CartStatus::Active, currency, items: Vec::new(), totals: zero_totals() }
    }

    /// Adds `quantity` of `variant` at `price` (the variant's current
    /// price) to an active cart, then recomputes the totals at `rate`. A
    /// cart that is not active is refused and left as it was.
    pub fn add_item(&mut self, variant: &str, quantity: i32, price: DecimalValue, new_item_id: String, rate: &DecimalValue) -> (r: Result<(), CartError>)
        requires
            old(self).status == CartStatus::Active ==> add_fits_cart(*old(self), variant@, quantity, price, new_item_id@, *rate),
        ensures
            match r {
                Err(e) => old(self).status != CartStatus::Active && (e matches CartError::InvalidOperation(m) && m@
                    == "Cart is not active"@) && *final(self) == *old(self),
                Ok(_) => {
                    &&& old(self).status == CartStatus::Active
                    &&& is_added(old(self).items@, final(self).items@, old(self).id@, variant@, quantity, price, new_item_id@)
                    &&& is_cart_totals(final(self).totals, final(self).items@, *rate)
                    &&& final(self).id == old(self).id && final(self).status == old(self).status
                    &&& final(self).currency == old(self).currency
                },
            },
    {
        if self.status != CartStatus::Active {
            return Err(CartError::InvalidOperation(owned("Cart is not active")));
        }
        let ghost before = self.items@;
        proof {
            lemma_line_of_bounds(before, variant@);
        }
        match find_variant(&self.items, variant) {
            Some(i) => {
                let q = self.items[i].quantity + quantity;
                let total = crate::decimal::dec_mul(&price, &DecimalValue { mantissa: q as i128, scale: 0 });
                let line = CartItem {
                    id: self.items[i].id.clone(),
                    cart_id: self.items[i].cart_id.clone(),
                    variant_id: self.items[i].variant_id.clone(),
                    quantity: q,
                    unit_price: self.items[i].unit_price,
                    line_total: total,
                    discount_amount: self.items[i].discount_amount,
                };
                self.items.set(i, line);
                assert(self.items@ =~= before.update(i as int, merged_line(before[i as int], quantity, price)));
            },
            None => {
                let total = crate::decimal::dec_mul(&price, &DecimalValue { mantissa: quantity as i128, scale: 0 });
                self.items.push(
                    CartItem {
                        id: new_item_id,
                        cart_id: self.id.clone(),
                        variant_id: owned(variant),
                        quantity,
                        unit_price: price,
                        line_total: total,
                        discount_amount: DecimalValue::zero(),
                    },
                );
                assert(self.items@.drop_last() =~= before);
            },
        }
        assert(is_added(before, self.items@, self.id@, variant@, quantity, price, new_item_id@));
        self.totals = cart_totals(&self.items, rate);
        Ok(())
    }

    /// Sets the quantity of line `item_id`, then recomputes the totals at
    /// `rate`. `owner` is the cart the store files that line under (none
    /// when there is no such line). A line filed under another cart is
    /// refused, whatever the quantity. A quantity of zero or less removes the
    /// line; otherwise the line must exist in this cart, and its total
    /// becomes its unit price times the new quantity.
    pub fn update_item_quantity(&mut self, item_id: &str, owner: Option<&str>, quantity: i32, rate: &DecimalValue) -> (r: Result<(), CartError>)
        requires
            update_fits(*old(self), item_id@, owner, quantity, *rate),
        ensures
            match r {
                Err(e) => *final(self) == *old(self) && match e {
                    CartError::NotFound(m) => quantity > 0 && m@ == "Cart item "@ + item_id@ + " not found"@ && (owner is None || ((owner matches Some(
                        o) && o@ == old(self).id@) && line_with_id(old(self).items@, item_id@) is None)),
                    CartError::InvalidOperation(m) => m@ == "Item does not belong to this cart"@ && (owner matches Some(
                        o,
                    ) && o@ != old(self).id@),
                },
                Ok(_) => {
                    &&& final(self).items@ == (if quantity <= 0 {
                        without_line(old(self).items@, item_id@)
                    } else {
                        requantified(old(self).items@, line_with_id(old(self).items@, item_id@).unwrap(), quantity)
                    })
                    &&& owner matches Some(o) ==> o@ == old(self).id@
                    &&& quantity > 0 ==> owner is Some
                    &&& is_cart_totals(final(self).totals, final(self).items@, *rate)
                    &&& final(self).id == old(self).id && final(self).status == old(self).status
                    &&& final(self).currency == old(self).currency
                },
            },
    {
        let ghost before = self.items@;
        proof {
            lemma_line_with_id_bounds(before, item_id@);
        }
        if let Some(o) = owner {
            if !str_eq(o, self.id.as_str()) {
                return Err(CartError::InvalidOperation(owned("Item does not belong to this cart")));
            }
        }
        if quantity <= 0 {
            match find_line(&self.items, item_id) {
                Some(i) => {
                    self.items.remove(i);
                },
                None => {},
            }
            assert(self.items@ =~= without_line(before, item_id@));
            self.totals = cart_totals(&self.items, rate);
            return Ok(());
        }
        if owner.is_none() {
            return Err(CartError::NotFound(crate::text::concat3("Cart item ", item_id, " not found")));
        }
        match find_line(&self.items, item_id) {
            None => Err(CartError::NotFound(crate::text::concat3("Cart item ", item_id, " not found"))),
            Some(i) => {
                let total = crate::decimal::dec_mul(
                    &self.items[i].unit_price,
                    &DecimalValue { mantissa: quantity as i128, scale: 0 },
                );
                let line = CartItem {
                    id: self.items[i].id.clone(),
                    cart_id: self.items[i].cart_id.clone(),
                    variant_id: self.items[i].variant_id.clone(),
                    quantity,
                    unit_price: self.items[i].unit_price,
                    line_total: total,
                    discount_amount: self.items[i].discount_amount,
                };
                self.items.set(i, line);
                assert(self.items@ =~= requantified(before, i as int, quantity));
                self.totals = cart_totals(&self.items, rate);
                Ok(())
            },
        }
    }

    /// Removes every line and zeroes the totals.
    pub fn clear(&mut self)
        ensures
            final(self).items@.len() == 0,
            is_zero_totals(final(self).totals),
            final(self).id == old(self).id && final(self).status == old(self).status,
            final(self).currency == old(self).currency,
    {
        self.items = Vec::new();
        self.totals = zero_totals();
    }

    /// Marks the cart abandoned.
    pub fn abandon(&mut self)
        ensures
            *final(self) == (Cart { status: CartStatus::Abandoned, ..*old(self) }),
    {
        self.status = CartStatus::Abandoned;
    }
}

/// The lines without line `id`, if there is one.
pub open spec fn without_line(items: Seq<CartItem>, id: Seq<char>) -> Seq<CartItem> {
    match line_with_id(items, id) {
        Some(i) => items.remove(i),
        None => items,
    }
}

/// The lines with line `i` set to `quantity`, its total the unit price
/// times the quantity.
pub open spec fn requantified(items: Seq<CartItem>, i: int, quantity: i32) -> Seq<CartItem> {
    items.update(
        i,
        CartItem { quantity, line_total: spec_mul(items[i].unit_price, qty(quantity as int)), ..items[i] },
    )
}

/// The arithmetic of a quantity change stays exact and small; a change that
/// is refused before any arithmetic (a line of another cart, or a missing
/// line) asks for nothing.
pub open spec fn update_fits(cart: Cart, id: Seq<char>, owner: Option<&str>, quantity: i32, rate: DecimalValue) -> bool {
    if (match owner {
        Some(o) => o@ != cart.id@,
        None => false,
    }) {
        true
    } else if quantity <= 0 {
        sums_fit(without_line(cart.items@, id)) && amounts_small(without_line(cart.items@, id), rate)
    } else if owner is None {
        true
    } else {
        match line_with_id(cart.items@, id) {
            Some(i) => {
                &&& cart.items@[i].unit_price.wf()
                &&& mul_fits(cart.items@[i].unit_price, qty(quantity as int))
                &&& sums_fit(requantified(cart.items@, i, quantity))
                &&& amounts_small(requantified(cart.items@, i, quantity), rate)
            },
            None => true,
        }
    }
}

/// No two lines are of the same variant.
pub open spec fn distinct_variants(items: Seq<CartItem>) -> bool {
    forall|i: int, j: int| 0 <= i < j < items.len() ==> (#[trigger] items[i]).variant_id@ != (#[trigger] items[j]).variant_id@
}

/// Adding to a cart keeps one line per variant: a variant already in the
/// cart is merged into its line, and a new one gets a line of its own.
pub proof fn law_one_line_per_variant(
    before: Seq<CartItem>,
    after: Seq<CartItem>,
    cart_id: Seq<char>,
    variant: Seq<char>,
    quantity: i32,
    price: DecimalValue,
    new_id: Seq<char>,
)
    requires
        distinct_variants(before),
        is_added(before, after, cart_id, variant, quantity, price, new_id),
    ensures
        distinct_variants(after),
{
    lemma_line_of_bounds(before, variant);
    match line_of(before, variant) {
        Some(i) => {
            assert forall|a: int, b: int| 0 <= a < b < after.len() implies (#[trigger] after[a]).variant_id@ != (
            #[trigger] after[b]).variant_id@ by {
                assert(after[a].variant_id == before[a].variant_id);
                assert(after[b].variant_id == before[b].variant_id);
            }
        },
        None => {
            assert forall|a: int, b: int| 0 <= a < b < after.len() implies (#[trigger] after[a]).variant_id@ != (
            #[trigger] after[b]).variant_id@ by {
                assert(after[a] == before[a]);
                if b < before.len() {
                    assert(after[b] == before[b]);
                } else {
                    assert(before[a].variant_id@ != variant);
                }
            }
        },
    }
}

/// Adding a variant that is already in the cart does not add a line; its
/// line's quantity grows by the quantity added.
pub proof fn law_adding_again_increments(
    before: Seq<CartItem>,
    after: Seq<CartItem>,
    cart_id: Seq<char>,
    variant: Seq<char>,
    quantity: i32,
    price: DecimalValue,
    new_id: Seq<char>,
)
    requires
        line_of(before, variant) is Some,
        is_added(before, after, cart_id, variant, quantity, price, new_id),
        i32::MIN <= before[line_of(before, variant).unwrap()].quantity + quantity <= i32::MAX,
    ensures
        after.len() == before.len(),
        line_of(after, variant) == line_of(before, variant),
        after[line_of(before, variant).unwrap()].quantity == before[line_of(before, variant).unwrap()].quantity
            + quantity,
{
    lemma_line_of_bounds(before, variant);
    let i = line_of(before, variant).unwrap();
    lemma_line_of_same(before, after, variant);
}

/// `line_of` looks only at variants.
proof fn lemma_line_of_same(a: Seq<CartItem>, b: Seq<CartItem>, variant: Seq<char>)
    requires
        a.len() == b.len(),
        forall|k: int| 0 <= k < a.len() ==> (#[trigger] a[k]).variant_id == b[k].variant_id,
    ensures
        line_of(a, variant) == line_of(b, variant),
    decreases a.len(),
{
    if a.len() > 0 {
        assert forall|k: int| 0 <= k < a.drop_first().len() implies (#[trigger] a.drop_first()[k]).variant_id
            == b.drop_first()[k].variant_id by {
            assert(a.drop_first()[k] == a[k + 1]);
            assert(b.drop_first()[k] == b[k + 1]);
        }
        lemma_line_of_same(a.drop_first(), b.drop_first(), variant);
        assert(a[0].variant_id == b[0].variant_id);
    }
}

/// Shipping is free from a subtotal of 50 on, and costs 10 exactly when the
/// subtotal is above zero and below 50; so it never grows as the subtotal
/// grows.
pub proof fn law_shipping_free_from_fifty(a: DecimalValue, b: DecimalValue)
    ensures
        a.value() >= 50 * p10(28) ==> shipping_for(a).value() == 0,
        shipping_for(a).value() == 10 * p10(28) <==> 0 < a.value() < 50 * p10(28),
        shipping_for(a).value() == 0 || shipping_for(a).value() == 10 * p10(28),
        0 < a.value() <= b.value() ==> shipping_for(b).value() <= shipping_for(a).value(),
{
    crate::decimal::lemma_p10_positive(28);
    assert(p10(28) == p10((28 - 0) as nat));
}

} // verus!
