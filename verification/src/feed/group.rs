//! How the store's rows become catalog groups: each product with its
//! images and its variants, each variant with its images and its stock.
use vstd::prelude::*;
use crate::feed::catalog::{CatalogImage, CatalogProduct, CatalogVariant};
use crate::feed::select::{CatalogEntry, CatalogGroup};
use crate::text::str_eq;

verus! {

/// An image row of the store, with the id of the product or variant it
/// belongs to.
pub struct ImageRow {
    pub owner_id: String,
    pub image: CatalogImage,
}

/// A catalog variant row as the store returns it, with its product's id.
pub struct CatalogVariantRow {
    pub product_id: String,
    pub variant: CatalogVariant,
}

/// The stock available under a SKU.
pub struct StockRow {
    pub sku: String,
    pub available: i32,
}

/// The images of the rows owned by `owner`, in the rows' order.
pub open spec fn images_of(rows: Seq<ImageRow>, owner: Seq<char>) -> Seq<CatalogImage>
    decreases rows.len(),
{
    if rows.len() == 0 {
        Seq::empty()
    } else if rows.last().owner_id@ == owner {
        images_of(rows.drop_last(), owner).push(rows.last().image)
    } else {
        images_of(rows.drop_last(), owner)
    }
}

/// The stock of `sku`: that of its last row, if it has one.
pub open spec fn stock_of(rows: Seq<StockRow>, sku: Seq<char>) -> Option<i32>
    decreases rows.len(),
{
    if rows.len() == 0 {
        None
    } else if rows.last().sku@ == sku {
        Some(rows.last().available)
    } else {
        stock_of(rows.drop_last(), sku)
    }
}

/// The position of the first product with id `id`.
pub open spec fn product_index(ps: Seq<CatalogProduct>, id: Seq<char>) -> Option<int>
    decreases ps.len(),
{
    if ps.len() == 0 {
        None
    } else if ps[0].id@ == id {
        Some(0)
    } else {
        crate::text::shift(product_index(ps.drop_first(), id), 1)
    }
}

/// The variant rows that go to product `p`: those naming its id, when it
/// is the first product with that id, in the rows' order.
pub open spec fn rows_of(rows: Seq<CatalogVariantRow>, ps: Seq<CatalogProduct>, p: int) -> Seq<CatalogVariantRow>
    decreases rows.len(),
{
    if rows.len() == 0 {
        Seq::empty()
    } else if product_index(ps, rows.last().product_id@) == Some(p) {
        rows_of(rows.drop_last(), ps, p).push(rows.last())
    } else {
        rows_of(rows.drop_last(), ps, p)
    }
}

/// An entry made of a variant row: the variant, its images and its stock.
pub open spec fn entry_of(e: CatalogEntry, row: CatalogVariantRow, images: Seq<ImageRow>, stock: Seq<StockRow>) -> bool {
    &&& e.variant == row.variant
    &&& e.images@ == images_of(images, row.variant.id@)
    &&& e.available == stock_of(stock, row.variant.sku@)
}

/// Entries made of the rows, one for one.
pub open spec fn entries_of(es: Seq<CatalogEntry>, rows: Seq<CatalogVariantRow>, images: Seq<ImageRow>, stock: Seq<StockRow>) -> bool {
    &&& es.len() == rows.len()
    &&& forall|k: int| 0 <= k < es.len() ==> entry_of(#[trigger] es[k], rows[k], images, stock)
}

proof fn lemma_product_index_bounds(ps: Seq<CatalogProduct>, id: Seq<char>)
    ensures
        product_index(ps, id) matches Some(i) ==> 0 <= i < ps.len() && ps[i].id@ == id,
    decreases ps.len(),
{
    if ps.len() > 0 {
        lemma_product_index_bounds(ps.drop_first(), id);
    }
}

fn copy_image(i: &CatalogImage) -> (r: CatalogImage)
    ensures
        r == *i,
{
    CatalogImage { url: i.url.clone(), is_primary: i.is_primary }
}

/// The images of the rows owned by `owner`, in the rows' order.
pub fn images_for(rows: &Vec<ImageRow>, owner: &str) -> (r: Vec<CatalogImage>)
    ensures
        r@ == images_of(rows@, owner@),
{
    let mut r: Vec<CatalogImage> = Vec::new();
    let mut i: usize = 0;
    while i < rows.len()
        invariant
            i <= rows.len(),
            r@ == images_of(rows@.take(i as int), owner@),
        decreases rows.len() - i,
    {
        proof {
            assert(rows@.take(i + 1).drop_last() =~= rows@.take(i as int));
            assert(rows@.take(i + 1).last() == rows@[i as int]);
        }
        if str_eq(rows[i].owner_id.as_str(), owner) {
            r.push(copy_image(&rows[i].image));
        }
        i = i + 1;
    }
    assert(rows@.take(i as int) =~= rows@);
    r
}

/// The stock of `sku`: that of its last row, if it has one.
pub fn stock_for(rows: &Vec<StockRow>, sku: &str) -> (r: Option<i32>)
    ensures
        r == stock_of(rows@, sku@),
{
    let mut r: Option<i32> = None;
    let mut i: usize = 0;
    while i < rows.len()
        invariant
            i <= rows.len(),
            r == stock_of(rows@.take(i as int), sku@),
        decreases rows.len() - i,
    {
        proof {
            assert(rows@.take(i + 1).drop_last() =~= rows@.take(i as int));
            assert(rows@.take(i + 1).last() == rows@[i as int]);
        }
        if str_eq(rows[i].sku.as_str(), sku) {
            r = Some(rows[i].available);
        }
        i = i + 1;
    }
    assert(rows@.take(i as int) =~= rows@);
    r
}

fn find_product(ps: &Vec<CatalogProduct>, id: &str) -> (r: Option<usize>)
    ensures
        match r {
            Some(i) => product_index(ps@, id@) == Some(i as int),
            None => product_index(ps@, id@) is None,
        },
{
    let n = ps.len();
    let mut i: usize = 0;
    assert(ps@.skip(0) =~= ps@);
    while i < n
        invariant
            i <= n == ps.len(),
            product_index(ps@, id@) == crate::text::shift(product_index(ps@.skip(i as int), id@), i as int),
        decreases n - i,
    {
        let ghost rest = ps@.skip(i as int);
        assert(rest.drop_first() =~= ps@.skip(i + 1));
        assert(rest[0] == ps@[i as int]);
        if str_eq(ps[i].id.as_str(), id) {
            return Some(i);
        }
        i = i + 1;
    }
    None
}

/// Groups the store's rows by product, in the products' order: each product
/// with its own images, and with an entry for each variant row naming it (in
/// the rows' order; the first product of an id takes that id's rows), each
/// entry with the variant's images and the stock of its SKU.
pub fn group_catalog(
    products: Vec<CatalogProduct>,
    product_images: &Vec<ImageRow>,
    variants: Vec<CatalogVariantRow>,
    variant_images: &Vec<ImageRow>,
    stock: &Vec<StockRow>,
) -> (groups: Vec<CatalogGroup>)
    ensures
        groups@.len() == products@.len(),
        forall|p: int| 0 <= p < groups@.len() ==> {
            &&& (#[trigger] groups@[p]).product == products@[p]
            &&& groups@[p].images@ == images_of(product_images@, products@[p].id@)
            &&& entries_of(groups@[p].entries@, rows_of(variants@, products@, p), variant_images@, stock@)
        },
{
    let ghost ps = products@;
    let ghost vs = variants@;
    let n = products.len();
    let mut buckets: Vec<Vec<CatalogEntry>> = Vec::new();
    let mut b: usize = 0;
    while b < n
        invariant
            b <= n == ps.len(),
            buckets@.len() == b,
            forall|p: int| 0 <= p < b ==> (#[trigger] buckets@[p])@.len() == 0,
        decreases n - b,
    {
        buckets.push(Vec::new());
        b = b + 1;
    }
    let mut variants = variants;
    let total = variants.len();
    let mut j: usize = 0;
    assert(vs.skip(0) =~= vs);
    while variants.len() > 0
        invariant
            products@ == ps,
            buckets@.len() == ps.len(),
            vs.len() == total,
            j + variants@.len() == vs.len(),
            variants@ == vs.skip(j as int),
            forall|p: int|
                0 <= p < ps.len() ==> entries_of(
                    (#[trigger] buckets@[p])@,
                    rows_of(vs.take(j as int), ps, p),
                    variant_images@,
                    stock@,
                ),
        decreases variants.len(),
    {
        let ghost before = buckets@;
        let row = variants.remove(0);
        proof {
            assert(row == vs[j as int]);
            assert(vs.take(j + 1).drop_last() =~= vs.take(j as int));
            assert(vs.take(j + 1).last() == vs[j as int]);
            assert(variants@ =~= vs.skip(j + 1));
        }
        let found = find_product(&products, row.product_id.as_str());
        match found {
            Some(i) => {
                proof {
                    lemma_product_index_bounds(ps, row.product_id@);
                }
                let images = images_for(variant_images, row.variant.id.as_str());
                let available = stock_for(stock, row.variant.sku.as_str());
                let entry = CatalogEntry { variant: row.variant, images, available };
                let mut bucket = buckets.remove(i);
                assert(bucket == before[i as int]);
                bucket.push(entry);
                let ghost after_bucket = bucket;
                buckets.insert(i, bucket);
                proof {
                    assert(buckets@ =~= before.update(i as int, after_bucket));
                    assert forall|p: int| 0 <= p < ps.len() implies entries_of(
                        (#[trigger] buckets@[p])@,
                        rows_of(vs.take(j + 1), ps, p),
                        variant_images@,
                        stock@,
                    ) by {
                        if p == i as int {
                            let es = buckets@[p]@;
                            let rs = rows_of(vs.take(j + 1), ps, p);
                            assert(es =~= before[p]@.push(entry));
                            assert(rs == rows_of(vs.take(j as int), ps, p).push(vs[j as int]));
                            assert forall|k: int| 0 <= k < es.len() implies entry_of(
                                #[trigger] es[k],
                                rs[k],
                                variant_images@,
                                stock@,
                            ) by {
                                if k < es.len() - 1 {
                                    assert(es[k] == before[p]@[k]);
                                    assert(entry_of(before[p]@[k], rows_of(vs.take(j as int), ps, p)[k], variant_images@, stock@));
                                }
                            }
                        } else {
                            assert(buckets@[p] == before[p]);
                        }
                    }
                }
            },
            None => {
                proof {
                    assert forall|p: int| 0 <= p < ps.len() implies entries_of(
                        (#[trigger] buckets@[p])@,
                        rows_of(vs.take(j + 1), ps, p),
                        variant_images@,
                        stock@,
                    ) by {
                        assert(rows_of(vs.take(j + 1), ps, p) == rows_of(vs.take(j as int), ps, p));
                    }
                }
            },
        }
        j = j + 1;
    }
    assert(vs.take(j as int) =~= vs);
    let mut groups: Vec<CatalogGroup> = Vec::new();
    let mut products = products;
    let mut k: usize = 0;
    assert(ps.skip(0) =~= ps);
    while products.len() > 0
        invariant
            ps.len() == n,
            k + products@.len() == ps.len(),
            products@ == ps.skip(k as int),
            buckets@.len() == products@.len(),
            forall|q: int|
                0 <= q < buckets@.len() ==> entries_of(
                    (#[trigger] buckets@[q])@,
                    rows_of(vs, ps, k + q),
                    variant_images@,
                    stock@,
                ),
            groups@.len() == k,
            forall|p: int|
                0 <= p < k ==> {
                    &&& (#[trigger] groups@[p]).product == ps[p]
                    &&& groups@[p].images@ == images_of(product_images@, ps[p].id@)
                    &&& entries_of(groups@[p].entries@, rows_of(vs, ps, p), variant_images@, stock@)
                },
        decreases products.len(),
    {
        let ghost before = buckets@;
        let product = products.remove(0);
        let entries = buckets.remove(0);
        proof {
            assert(product == ps[k as int]);
            assert(products@ =~= ps.skip(k + 1));
            assert(entries == before[0]);
            assert forall|q: int| 0 <= q < buckets@.len() implies entries_of(
                (#[trigger] buckets@[q])@,
                rows_of(vs, ps, k + 1 + q),
                variant_images@,
                stock@,
            ) by {
                assert(buckets@[q] == before[q + 1]);
            }
        }
        let images = images_for(product_images, product.id.as_str());
        groups.push(CatalogGroup { product, images, entries });
        k = k + 1;
    }
    groups
}

} // verus!
