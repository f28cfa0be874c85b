//! Which variants make up a feed: every variant of every product, in order,
//! up to the number of entries a request asks for.
use vstd::prelude::*;
use crate::feed::catalog::{is_catalog_item, transform_catalog_variant, CatalogImage, CatalogProduct, CatalogVariant};
use crate::feed::options::NormalizedFeedOptions;
use crate::feed::shopify::{is_shopify_item, transform_shopify_variant, ProductFeedItem, ShopifyProduct, ShopifyVariant};

verus! {

/// The (product, variant) pairs of a product list, product by product.
pub open spec fn variant_pairs(ps: Seq<ShopifyProduct>) -> Seq<(ShopifyProduct, ShopifyVariant)>
    decreases ps.len(),
{
    if ps.len() == 0 {
        Seq::empty()
    } else {
        let last = ps.last();
        variant_pairs(ps.drop_last()) + last.variants@.map_values(|v: ShopifyVariant| (last, v))
    }
}

/// How many entries a feed of `total` candidates holds: all of them, or as
/// many as the maximum asked for. The maximum is checked only once an entry
/// has been added, so a maximum of zero still yields one entry.
pub open spec fn feed_size(total: nat, max: Option<usize>) -> nat {
    match max {
        None => total,
        Some(m) => if total == 0 {
            0
        } else if m <= 1 {
            1
        } else if total < m {
            total
        } else {
            m as nat
        },
    }
}

proof fn lemma_pairs_prefix(ps: Seq<ShopifyProduct>, p: int)
    requires
        0 <= p <= ps.len(),
    ensures
        variant_pairs(ps.take(p)).len() <= variant_pairs(ps).len(),
        forall|k: int| 0 <= k < variant_pairs(ps.take(p)).len() ==> variant_pairs(ps.take(p))[k] == variant_pairs(ps)[k],
    decreases ps.len() - p,
{
    if p < ps.len() {
        lemma_pairs_prefix(ps, p + 1);
        assert(ps.take(p + 1).drop_last() =~= ps.take(p));
        assert(ps.take(p + 1).last() == ps[p]);
    } else {
        assert(ps.take(p) =~= ps);
    }
}

/// The feed entries of the Shopify products' variants, in order, up to
/// `max_products` entries (see `feed_size`).
pub fn collect_shopify_items(
    products: &Vec<ShopifyProduct>,
    options: &NormalizedFeedOptions,
    max_products: Option<usize>,
) -> (items: Vec<ProductFeedItem>)
    ensures
        items@.len() == feed_size(variant_pairs(products@).len(), max_products),
        forall|k: int| 0 <= k < items@.len() ==> is_shopify_item(
            #[trigger] items@[k],
            variant_pairs(products@)[k].0,
            variant_pairs(products@)[k].1,
            *options,
        ),
{
    let ghost all = variant_pairs(products@);
    let mut items: Vec<ProductFeedItem> = Vec::new();
    let mut done = false;
    let mut p: usize = 0;
    assert(products@.take(0) =~= Seq::<ShopifyProduct>::empty());
    while p < products.len() && !done
        invariant
            p <= products.len(),
            all == variant_pairs(products@),
            items@.len() <= all.len(),
            forall|k: int| 0 <= k < items@.len() ==> is_shopify_item(#[trigger] items@[k], all[k].0, all[k].1, *options),
            !done ==> items@.len() == variant_pairs(products@.take(p as int)).len(),
            !done ==> (max_products matches Some(m) ==> items@.len() == 0 || items@.len() < m),
            done ==> items@.len() == feed_size(all.len(), max_products),
        decreases products.len() - p,
    {
        let product = &products[p];
        proof {
            lemma_pairs_prefix(products@, p + 1);
            assert(products@.take(p + 1).drop_last() =~= products@.take(p as int));
            assert(products@.take(p + 1).last() == products@[p as int]);
        }
        let ghost before = variant_pairs(products@.take(p as int)).len();
        let ghost upto = variant_pairs(products@.take(p + 1));
        let mut v: usize = 0;
        while v < product.variants.len()
            invariant_except_break
                !done,
                max_products matches Some(m) ==> items@.len() == 0 || items@.len() < m,
            invariant
                p < products.len(),
                product == products@[p as int],
                all == variant_pairs(products@),
                upto == variant_pairs(products@.take(p + 1)),
                upto.len() == before + product.variants@.len(),
                upto.len() <= all.len(),
                forall|k: int| 0 <= k < upto.len() ==> upto[k] == all[k],
                forall|j: int| 0 <= j < product.variants@.len() ==> upto[before + j] == (*product, product.variants@[j]),
                v <= product.variants.len(),
                items@.len() == before + v,
                forall|k: int| 0 <= k < items@.len() ==> is_shopify_item(#[trigger] items@[k], all[k].0, all[k].1, *options),
            ensures
                done ==> items@.len() == feed_size(all.len(), max_products),
                !done ==> v == product.variants.len() && (max_products matches Some(m) ==> items@.len() == 0
                    || items@.len() < m),
            decreases product.variants.len() - v,
        {
            let item = transform_shopify_variant(product, &product.variants[v], options);
            assert(upto[before + v] == all[before + v]);
            items.push(item);
            v = v + 1;
            if let Some(m) = max_products {
                if items.len() >= m {
                    assert(items@.len() == feed_size(all.len(), max_products));
                    done = true;
                    break;
                }
            }
        }
        if !done {
            proof {
                lemma_pairs_prefix(products@, p + 1);
            }
        }
        p = p + 1;
    }
    if !done {
        assert(products@.take(p as int) =~= products@);
    }
    items
}

/// A catalog variant with what its entry needs: its own images and the
/// stock available for its SKU, when the SKU is stocked.
#[derive(Debug, Clone)]
pub struct CatalogEntry {
    pub variant: CatalogVariant,
    pub images: Vec<CatalogImage>,
    pub available: Option<i32>,
}

/// A catalog product with its images and all its variants.
#[derive(Debug, Clone)]
pub struct CatalogGroup {
    pub product: CatalogProduct,
    pub images: Vec<CatalogImage>,
    pub entries: Vec<CatalogEntry>,
}

/// The (group, variant entry) pairs of the groups, group by group.
pub open spec fn entry_pairs(gs: Seq<CatalogGroup>) -> Seq<(CatalogGroup, CatalogEntry)>
    decreases gs.len(),
{
    if gs.len() == 0 {
        Seq::empty()
    } else {
        let last = gs.last();
        entry_pairs(gs.drop_last()) + last.entries@.map_values(|e: CatalogEntry| (last, e))
    }
}

/// The decimals of every product and variant are within range.
pub open spec fn groups_wf(gs: Seq<CatalogGroup>) -> bool {
    forall|g: int, e: int|
        0 <= g < gs.len() && 0 <= e < gs[g].entries@.len() ==> {
            let v = (#[trigger] gs[g].entries@[e]).variant;
            &&& v.price.wf()
            &&& v.compare_at_price matches Some(c) ==> c.wf()
            &&& gs[g].product.weight_kg matches Some(w) ==> w.wf()
        }
}

/// Whether `item` is the entry of `entry` of group `g`.
pub open spec fn is_group_item(item: ProductFeedItem, g: CatalogGroup, entry: CatalogEntry, o: NormalizedFeedOptions) -> bool {
    is_catalog_item(item, g.product, entry.variant, entry.images@, g.images@, entry.available, g.entries@.len() as usize, o)
}

proof fn lemma_entries_prefix(gs: Seq<CatalogGroup>, p: int)
    requires
        0 <= p <= gs.len(),
    ensures
        entry_pairs(gs.take(p)).len() <= entry_pairs(gs).len(),
        forall|k: int| 0 <= k < entry_pairs(gs.take(p)).len() ==> entry_pairs(gs.take(p))[k] == entry_pairs(gs)[k],
    decreases gs.len() - p,
{
    if p < gs.len() {
        lemma_entries_prefix(gs, p + 1);
        assert(gs.take(p + 1).drop_last() =~= gs.take(p));
        assert(gs.take(p + 1).last() == gs[p]);
    } else {
        assert(gs.take(p) =~= gs);
    }
}

/// The feed entries of the catalog's variants, product by product, up to
/// `max_products` entries (see `feed_size`).
pub fn collect_catalog_items(
    groups: &Vec<CatalogGroup>,
    options: &NormalizedFeedOptions,
    max_products: Option<usize>,
) -> (items: Vec<ProductFeedItem>)
    requires
        groups_wf(groups@),
    ensures
        items@.len() == feed_size(entry_pairs(groups@).len(), max_products),
        forall|k: int| 0 <= k < items@.len() ==> is_group_item(
            #[trigger] items@[k],
            entry_pairs(groups@)[k].0,
            entry_pairs(groups@)[k].1,
            *options,
        ),
{
    let ghost all = entry_pairs(groups@);
    let mut items: Vec<ProductFeedItem> = Vec::new();
    let mut done = false;
    let mut p: usize = 0;
    assert(groups@.take(0) =~= Seq::<CatalogGroup>::empty());
    while p < groups.len() && !done
        invariant
            p <= groups.len(),
            groups_wf(groups@),
            all == entry_pairs(groups@),
            items@.len() <= all.len(),
            forall|k: int| 0 <= k < items@.len() ==> is_group_item(#[trigger] items@[k], all[k].0, all[k].1, *options),
            !done ==> items@.len() == entry_pairs(groups@.take(p as int)).len(),
            !done ==> (max_products matches Some(m) ==> items@.len() == 0 || items@.len() < m),
            done ==> items@.len() == feed_size(all.len(), max_products),
        decreases groups.len() - p,
    {
        let group = &groups[p];
        proof {
            lemma_entries_prefix(groups@, p + 1);
            assert(groups@.take(p + 1).drop_last() =~= groups@.take(p as int));
            assert(groups@.take(p + 1).last() == groups@[p as int]);
        }
        let ghost before = entry_pairs(groups@.take(p as int)).len();
        let ghost upto = entry_pairs(groups@.take(p + 1));
        let count = group.entries.len();
        let mut v: usize = 0;
        while v < group.entries.len()
            invariant_except_break
                !done,
                max_products matches Some(m) ==> items@.len() == 0 || items@.len() < m,
            invariant
                p < groups.len(),
                group == groups@[p as int],
                count == group.entries@.len(),
                groups_wf(groups@),
                all == entry_pairs(groups@),
                upto == entry_pairs(groups@.take(p + 1)),
                upto.len() == before + group.entries@.len(),
                upto.len() <= all.len(),
                forall|k: int| 0 <= k < upto.len() ==> upto[k] == all[k],
                forall|j: int| 0 <= j < group.entries@.len() ==> upto[before + j] == (*group, group.entries@[j]),
                v <= group.entries.len(),
                items@.len() == before + v,
                forall|k: int| 0 <= k < items@.len() ==> is_group_item(#[trigger] items@[k], all[k].0, all[k].1, *options),
            ensures
                done ==> items@.len() == feed_size(all.len(), max_products),
                !done ==> v == group.entries.len() && (max_products matches Some(m) ==> items@.len() == 0
                    || items@.len() < m),
            decreases group.entries.len() - v,
        {
            let entry = &group.entries[v];
            assert(groups@[p as int].entries@[v as int] == *entry);
            let item = transform_catalog_variant(
                &group.product,
                &entry.variant,
                &group.images,
                &entry.images,
                entry.available,
                count,
                options,
            );
            assert(upto[before + v] == all[before + v]);
            items.push(item);
            v = v + 1;
            if let Some(m) = max_products {
                if items.len() >= m {
                    assert(items@.len() == feed_size(all.len(), max_products));
                    done = true;
                    break;
                }
            }
        }
        if !done {
            proof {
                lemma_entries_prefix(groups@, p + 1);
            }
        }
        p = p + 1;
    }
    if !done {
        assert(groups@.take(p as int) =~= groups@);
    }
    items
}

} // verus!
