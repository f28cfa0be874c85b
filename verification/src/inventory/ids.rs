//! Identifiers under which stock movements are filed, and per-item totals.
use vstd::prelude::*;
use crate::decimal::{running_total, sum_amounts, sum_fits, DecimalValue};
use crate::inventory::balance::InventoryBalance;

verus! {

#[verifier::external_type_specification]
#[verifier::external_body]
pub struct ExUuid(uuid::Uuid);

/// The last `n` bytes of `x`, most significant first.
pub open spec fn be_tail(x: u64, n: nat) -> Seq<u8>
    decreases n,
{
    if n == 0 {
        Seq::empty()
    } else {
        be_tail(x / 256, (n - 1) as nat).push((x % 256) as u8)
    }
}

/// Sixteen bytes: eight zeros, then `x` big-endian.
pub open spec fn id_bytes(x: u64) -> Seq<u8> {
    Seq::new(8, |i: int| 0u8) + be_tail(x, 8)
}

/// The number a sequence of bytes writes, most significant first.
pub open spec fn be_value(s: Seq<u8>) -> int
    decreases s.len(),
{
    if s.len() == 0 {
        0
    } else {
        be_value(s.drop_last()) * 256 + s.last()
    }
}

pub open spec fn pow256(n: nat) -> int
    decreases n,
{
    if n == 0 {
        1
    } else {
        256 * pow256((n - 1) as nat)
    }
}

proof fn lemma_be_tail_value(x: u64, n: nat)
    ensures
        be_tail(x, n).len() == n,
        pow256(n) > 0,
        be_value(be_tail(x, n)) == (x as int) % pow256(n),
    decreases n,
{
    if n > 0 {
        lemma_be_tail_value(x / 256, (n - 1) as nat);
        let t = be_tail(x, n);
        assert(t.drop_last() == be_tail(x / 256, (n - 1) as nat));
        assert(t.last() == (x % 256) as u8);
        let p = pow256((n - 1) as nat);
        vstd::arithmetic::div_mod::lemma_mod_breakdown(x as int, 256, p);
        assert((x / 256) as int == (x as int) / 256);
        assert(256 * (((x as int) / 256) % p) + (x as int) % 256 == ((x as int) / 256 % p) * 256 + (x as int) % 256) by (nonlinear_arith);
    }
}

/// Different ids are filed under different bytes.
pub proof fn lemma_id_bytes_injective(x: u64, y: u64)
    ensures
        id_bytes(x) == id_bytes(y) ==> x == y,
{
    lemma_be_tail_value(x, 8);
    lemma_be_tail_value(y, 8);
    assert(pow256(8) == 0x1_0000_0000_0000_0000) by {
        reveal_with_fuel(pow256, 9);
    }
    if id_bytes(x) == id_bytes(y) {
        assert(be_tail(x, 8) =~= id_bytes(x).subrange(8, 16));
        assert(be_tail(y, 8) =~= id_bytes(y).subrange(8, 16));
    }
}

/// Two item ids stand for the same UUID exactly when they are the same id
/// (for UUIDs as `uuid_from_i64` returns them).
pub proof fn law_uuid_from_i64_injective(a: i64, b: i64, ua: uuid::Uuid, ub: uuid::Uuid)
    requires
        ua == uuid_of_bytes(id_bytes(a as u64)),
        uuid_bytes(ua) == id_bytes(a as u64),
        ub == uuid_of_bytes(id_bytes(b as u64)),
        uuid_bytes(ub) == id_bytes(b as u64),
    ensures
        ua == ub <==> a == b,
{
    lemma_id_bytes_injective(a as u64, b as u64);
    if ua == ub {
        assert((a as u64) == (b as u64));
        assert(a == b) by (bit_vector)
            requires (a as u64) == (b as u64);
    }
}

/// The sixteen zero bytes of the nil UUID.
pub open spec fn nil_bytes() -> Seq<u8> {
    Seq::new(16, |i: int| 0u8)
}

proof fn lemma_be_tail_zero(n: nat)
    ensures
        be_tail(0, n) == Seq::new(n, |i: int| 0u8),
    decreases n,
{
    if n > 0 {
        lemma_be_tail_zero((n - 1) as nat);
        assert(be_tail(0, n) =~= Seq::new(n, |i: int| 0u8));
    }
}

/// An item id stands for the nil UUID exactly when it is zero, so every
/// other id gets a UUID that is not nil.
pub proof fn law_uuid_from_i64_nil_only_for_zero(a: i64, ua: uuid::Uuid)
    requires
        uuid_bytes(ua) == id_bytes(a as u64),
    ensures
        uuid_bytes(ua) == nil_bytes() <==> a == 0,
{
    lemma_be_tail_zero(8);
    assert(id_bytes(0) =~= nil_bytes());
    lemma_id_bytes_injective(a as u64, 0);
    assert((a as u64) == 0 <==> a == 0) by (bit_vector);
}

fn id_bytes_of(x: u64) -> (b: [u8; 16])
    ensures
        b@ == id_bytes(x),
{
    let mut b = [0u8; 16];
    let mut y = x;
    let mut k: usize = 0;
    assert(b@.subrange(16, 16) =~= Seq::<u8>::empty());
    assert(be_tail(y, 8) + Seq::<u8>::empty() =~= be_tail(x, 8));
    while k < 8
        invariant
            k <= 8,
            b@.len() == 16,
            forall|i: int| 0 <= i < 16 - k ==> b@[i] == 0u8,
            be_tail(y, (8 - k) as nat) + b@.subrange(16 - k, 16) == be_tail(x, 8),
        decreases 8 - k,
    {
        let ghost before = b@;
        b.set(15 - k, (y % 256) as u8);
        proof {
            assert(be_tail(y, (8 - k) as nat) == be_tail(y / 256, (7 - k) as nat).push((y % 256) as u8));
            assert(b@.subrange(15 - k, 16) =~= seq![(y % 256) as u8] + before.subrange(16 - k, 16));
            assert(be_tail(y / 256, (7 - k) as nat) + b@.subrange(15 - k, 16) =~= be_tail(y, (8 - k) as nat)
                + before.subrange(16 - k, 16));
        }
        y = y / 256;
        k = k + 1;
    }
    assert(be_tail(y, 0) =~= Seq::<u8>::empty());
    assert(b@ =~= id_bytes(x));
    b
}

/// The UUID `uuid::Uuid::from_bytes` makes of these sixteen bytes.
pub uninterp spec fn uuid_of_bytes(bytes: Seq<u8>) -> uuid::Uuid;

/// The bytes `Uuid::as_bytes` gives back for a UUID.
pub uninterp spec fn uuid_bytes(u: uuid::Uuid) -> Seq<u8>;

/// `uuid::Uuid::from_bytes`: a `const fn` that wraps the bytes as they are
/// (`Uuid(bytes)`), so the same bytes give the same UUID, and `as_bytes`
/// (`&self.0`) gives those bytes back. The UUID itself is opaque here.
#[verifier::external_body]
fn uuid_from_bytes(b: [u8; 16]) -> (u: uuid::Uuid)
    ensures
        u == uuid_of_bytes(b@),
        uuid_bytes(u) == b@,
{
    uuid::Uuid::from_bytes(b)
}

/// The bytes of the UUID that stands for an item id.
pub fn uuid_bytes_from_i64(id: i64) -> (b: [u8; 16])
    ensures
        b@ == id_bytes(id as u64),
{
    id_bytes_of(id as u64)
}

/// The bytes of the UUID that stands for a location id.
pub fn uuid_bytes_from_i32(id: i32) -> (b: [u8; 16])
    ensures
        b@ == id_bytes((id as u32) as u64),
{
    id_bytes_of((id as u32) as u64)
}

/// The UUID standing for an item id: eight zero bytes, then the id.
pub fn uuid_from_i64(id: i64) -> (u: uuid::Uuid)
    ensures
        u == uuid_of_bytes(id_bytes(id as u64)),
        uuid_bytes(u) == id_bytes(id as u64),
{
    uuid_from_bytes(uuid_bytes_from_i64(id))
}

/// The UUID standing for a location id: twelve zero bytes, then the id.
pub fn uuid_from_i32(id: i32) -> (u: uuid::Uuid)
    ensures
        u == uuid_of_bytes(id_bytes((id as u32) as u64)),
        uuid_bytes(u) == id_bytes((id as u32) as u64),
{
    uuid_from_bytes(uuid_bytes_from_i32(id))
}

pub open spec fn on_hands(bs: Seq<InventoryBalance>) -> Seq<DecimalValue> {
    Seq::new(bs.len(), |i: int| bs[i].quantity_on_hand)
}

pub open spec fn allocateds(bs: Seq<InventoryBalance>) -> Seq<DecimalValue> {
    Seq::new(bs.len(), |i: int| bs[i].quantity_allocated)
}

pub open spec fn availables(bs: Seq<InventoryBalance>) -> Seq<DecimalValue> {
    Seq::new(bs.len(), |i: int| bs[i].quantity_available)
}

/// Totals on hand, allocated and available over an item's balances, each
/// added up from zero as `Decimal` adds.
pub fn snapshot_totals(balances: &Vec<InventoryBalance>) -> (r: (DecimalValue, DecimalValue, DecimalValue))
    requires
        sum_fits(on_hands(balances@)),
        sum_fits(allocateds(balances@)),
        sum_fits(availables(balances@)),
    ensures
        r.0 == running_total(on_hands(balances@)),
        r.1 == running_total(allocateds(balances@)),
        r.2 == running_total(availables(balances@)),
{
    let mut a: Vec<DecimalValue> = Vec::new();
    let mut b: Vec<DecimalValue> = Vec::new();
    let mut c: Vec<DecimalValue> = Vec::new();
    let mut i: usize = 0;
    while i < balances.len()
        invariant
            i <= balances.len(),
            a@ == on_hands(balances@).take(i as int),
            b@ == allocateds(balances@).take(i as int),
            c@ == availables(balances@).take(i as int),
        decreases balances.len() - i,
    {
        a.push(balances[i].quantity_on_hand);
        b.push(balances[i].quantity_allocated);
        c.push(balances[i].quantity_available);
        i = i + 1;
        assert(a@ =~= on_hands(balances@).take(i as int));
        assert(b@ =~= allocateds(balances@).take(i as int));
        assert(c@ =~= availables(balances@).take(i as int));
    }
    assert(a@ =~= on_hands(balances@));
    assert(b@ =~= allocateds(balances@));
    assert(c@ =~= availables(balances@));
    (sum_amounts(&a), sum_amounts(&b), sum_amounts(&c))
}

} // verus!
