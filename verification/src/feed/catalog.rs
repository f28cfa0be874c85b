//! How a variant of the internal catalog becomes a feed item.
use vstd::prelude::*;
use crate::agentic::model::clone_opt;
use crate::agentic::validate::{eq_ignore_ascii_case, eq_ignore_case};
use crate::decimal::{dec_gt, round2_text, rounded_text, DecimalValue};
use crate::feed::markup::{generate_product_handle, product_handle, strip_html, strip_tags};
use crate::feed::options::{build_product_links, lower_case, product_links, to_lowercase, NormalizedFeedOptions};
use crate::feed::shopify::{first_chars, join, money, ProductFeedItem};
use crate::text::{chars_of, concat, concat3, first_occ, owned, push_str, str_eq, trim, trim_string};

verus! {

/// A rounded amount shown with two decimals.
pub open spec fn two_decimals(s: Seq<char>) -> Seq<char> {
    match first_occ(s, "."@) {
        Some(dot) => {
            let decimals = s.len() - dot - 1;
            if decimals == 0 {
                s + "00"@
            } else if decimals == 1 {
                s + "0"@
            } else {
                s
            }
        },
        None => s + ".00"@,
    }
}

/// The text of a decimal amount, rounded to cents, with two decimals.
pub open spec fn decimal_text(d: DecimalValue) -> Seq<char> {
    two_decimals(rounded_text(d.mantissa as int, d.scale as nat))
}

pub fn decimal_to_string(value: &DecimalValue) -> (s: String)
    requires
        value.wf(),
    ensures
        s@ == decimal_text(*value),
{
    let mut s = round2_text(value);
    let v = chars_of(s.as_str());
    let dot = chars_of(".");
    proof {
        reveal_strlit(".");
        reveal_strlit("00");
        reveal_strlit("0");
        reveal_strlit(".00");
    }
    match crate::text::find_str(&v, &dot) {
        Some(d) => {
            proof {
                crate::feed::options::lemma_first_occ_fits(v@, dot@);
            }
            let decimals = v.len() - d - 1;
            if decimals == 0 {
                push_str(&mut s, "00");
            } else if decimals == 1 {
                push_str(&mut s, "0");
            }
        },
        None => {
            push_str(&mut s, ".00");
        },
    }
    s
}

/// An amount followed by the currency.
pub fn format_decimal_money(value: &DecimalValue, currency: &str) -> (s: String)
    requires
        value.wf(),
    ensures
        s@ == money(decimal_text(*value), currency@),
{
    let t = decimal_to_string(value);
    concat3(t.as_str(), " ", currency)
}

/// An image of a product or variant.
#[derive(Debug, Clone)]
pub struct CatalogImage {
    pub url: String,
    pub is_primary: bool,
}

/// A catalog product: its id in text, name, description, weight in kg,
/// tags, brand, whether it is digital, and its RFC 3339 timestamps.
#[derive(Debug, Clone)]
pub struct CatalogProduct {
    pub id: String,
    pub name: String,
    pub description: Option<String>,
    pub weight_kg: Option<DecimalValue>,
    pub tags: Option<String>,
    pub brand: Option<String>,
    pub is_digital: bool,
    pub created_at: String,
    pub updated_at: Option<String>,
}

/// A catalog variant; its own weight comes as a label (`<kg to two
/// decimals> kg`) when it is positive, and its options as the key/value
/// pairs of its option map, in the map's order.
#[derive(Debug, Clone)]
pub struct CatalogVariant {
    pub id: String,
    pub name: String,
    pub sku: String,
    pub price: DecimalValue,
    pub compare_at_price: Option<DecimalValue>,
    pub weight_label: Option<String>,
    pub inventory_tracking: bool,
    pub options: Vec<(String, String)>,
}

/// Colour, size, and a custom category with its option, from option pairs:
/// the first `color` and `size` keys (in any case) give colour and size;
/// the first other key gives the custom category.
pub open spec fn option_scan(pairs: Seq<(String, String)>) -> (Option<String>, Option<String>, Option<String>, Option<String>)
    decreases pairs.len(),
{
    if pairs.len() == 0 {
        (None, None, None, None)
    } else {
        let (color, size, cat, opt) = option_scan(pairs.drop_last());
        let (k, v) = pairs.last();
        let key = lower_case(k@);
        if key == "color"@ && color is None {
            (Some(v), size, cat, opt)
        } else if key == "size"@ && size is None {
            (color, Some(v), cat, opt)
        } else if cat is None {
            (color, size, Some(k), Some(v))
        } else {
            (color, size, cat, opt)
        }
    }
}

pub fn extract_option_attributes(pairs: &Vec<(String, String)>) -> (r: (Option<String>, Option<String>, Option<String>, Option<String>))
    ensures
        r == option_scan(pairs@),
{
    let mut color: Option<String> = None;
    let mut size: Option<String> = None;
    let mut cat: Option<String> = None;
    let mut opt: Option<String> = None;
    let mut i: usize = 0;
    while i < pairs.len()
        invariant
            i <= pairs.len(),
            (color, size, cat, opt) == option_scan(pairs@.take(i as int)),
        decreases pairs.len() - i,
    {
        assert(pairs@.take(i + 1).drop_last() =~= pairs@.take(i as int));
        let (k, v) = &pairs[i];
        let key = to_lowercase(k.as_str());
        if str_eq(key.as_str(), "color") && color.is_none() {
            color = Some(v.clone());
        } else if str_eq(key.as_str(), "size") && size.is_none() {
            size = Some(v.clone());
        } else if cat.is_none() {
            cat = Some(k.clone());
            opt = Some(v.clone());
        }
        i = i + 1;
    }
    assert(pairs@.take(i as int) =~= pairs@);
    (color, size, cat, opt)
}

/// The url of the first primary image.
pub open spec fn first_primary(imgs: Seq<CatalogImage>) -> Option<Seq<char>>
    decreases imgs.len(),
{
    if imgs.len() == 0 {
        None
    } else if imgs[0].is_primary {
        Some(imgs[0].url@)
    } else {
        first_primary(imgs.drop_first())
    }
}

fn first_primary_of(imgs: &Vec<CatalogImage>) -> (r: Option<String>)
    ensures
        match r {
            Some(u) => first_primary(imgs@) == Some(u@),
            None => first_primary(imgs@) is None,
        },
{
    let n = imgs.len();
    let mut i: usize = 0;
    assert(imgs@.subrange(0, n as int) =~= imgs@);
    while i < n
        invariant
            i <= n == imgs.len(),
            first_primary(imgs@) == first_primary(imgs@.subrange(i as int, n as int)),
        decreases n - i,
    {
        assert(imgs@.subrange(i as int, n as int).drop_first() =~= imgs@.subrange(i + 1, n as int));
        assert(imgs@.subrange(i as int, n as int)[0] == imgs@[i as int]);
        if imgs[i].is_primary {
            return Some(imgs[i].url.clone());
        }
        i = i + 1;
    }
    None
}

/// The primary image: a primary variant image, else the first variant
/// image, else a primary product image, else the first product image.
pub open spec fn primary_image(variant_images: Seq<CatalogImage>, product_images: Seq<CatalogImage>) -> Option<Seq<char>> {
    if first_primary(variant_images) is Some {
        first_primary(variant_images)
    } else if variant_images.len() > 0 {
        Some(variant_images[0].url@)
    } else if first_primary(product_images) is Some {
        first_primary(product_images)
    } else if product_images.len() > 0 {
        Some(product_images[0].url@)
    } else {
        None
    }
}

/// `urls` without repeats and without any of `seen`, first occurrences
/// kept in order.
pub open spec fn unseen(urls: Seq<Seq<char>>, seen: Seq<Seq<char>>) -> Seq<Seq<char>>
    decreases urls.len(),
{
    if urls.len() == 0 {
        Seq::empty()
    } else if seen.contains(urls[0]) {
        unseen(urls.drop_first(), seen)
    } else {
        seq![urls[0]] + unseen(urls.drop_first(), seen.push(urls[0]))
    }
}

pub open spec fn image_urls(imgs: Seq<CatalogImage>) -> Seq<Seq<char>> {
    Seq::new(imgs.len(), |i: int| imgs[i].url@)
}

/// Up to four further images, comma-separated: variant then product
/// images, without repeats and without the primary one.
pub open spec fn additional_images(variant_images: Seq<CatalogImage>, product_images: Seq<CatalogImage>) -> Option<Seq<char>> {
    let seen = match primary_image(variant_images, product_images) {
        Some(p) => seq![p],
        None => Seq::empty(),
    };
    let extras = unseen(image_urls(variant_images) + image_urls(product_images), seen);
    if extras.len() == 0 {
        None
    } else {
        Some(join(extras.take(if extras.len() < 4 { extras.len() as int } else { 4 }), ","@))
    }
}

fn contains_str(v: &Vec<String>, s: &str) -> (r: bool)
    ensures
        r == v.deep_view().contains(s@),
{
    let mut i: usize = 0;
    while i < v.len()
        invariant
            i <= v.len(),
            forall|k: int| 0 <= k < i ==> v@[k]@ != s@,
        decreases v.len() - i,
    {
        if str_eq(v[i].as_str(), s) {
            assert(v.deep_view()[i as int] == s@);
            return true;
        }
        i = i + 1;
    }
    proof {
        if v.deep_view().contains(s@) {
            let k = choose|k: int| 0 <= k < v.deep_view().len() && v.deep_view()[k] == s@;
            assert(v@[k]@ == s@);
        }
    }
    false
}

/// The urls of the images, in order.
fn urls_of(imgs: &Vec<CatalogImage>) -> (r: Vec<String>)
    ensures
        r.deep_view() == image_urls(imgs@),
{
    let mut r: Vec<String> = Vec::new();
    let mut i: usize = 0;
    while i < imgs.len()
        invariant
            i <= imgs.len(),
            r.len() == i,
            r.deep_view() == image_urls(imgs@.take(i as int)),
        decreases imgs.len() - i,
    {
        let ghost before = r.deep_view();
        r.push(imgs[i].url.clone());
        proof {
            assert forall|k: int| 0 <= k < i + 1 implies #[trigger] r.deep_view()[k] == image_urls(imgs@.take(i + 1))[k] by {
                if k < i {
                    assert(r.deep_view()[k] == before[k]);
                }
            }
        }
        i = i + 1;
        assert(r.deep_view() =~= image_urls(imgs@.take(i as int)));
    }
    assert(imgs@.take(i as int) =~= imgs@);
    r
}

/// The primary image and the further ones of a catalog variant.
pub fn resolve_catalog_images(variant_images: &Vec<CatalogImage>, product_images: &Vec<CatalogImage>) -> (r: (Option<String>, Option<String>))
    ensures
        match r.0 {
            Some(p) => primary_image(variant_images@, product_images@) == Some(p@),
            None => primary_image(variant_images@, product_images@) is None,
        },
        match r.1 {
            Some(a) => additional_images(variant_images@, product_images@) == Some(a@),
            None => additional_images(variant_images@, product_images@) is None,
        },
{
    let primary: Option<String> = match first_primary_of(variant_images) {
        Some(u) => Some(u),
        None => if variant_images.len() > 0 {
            Some(variant_images[0].url.clone())
        } else {
            match first_primary_of(product_images) {
                Some(u) => Some(u),
                None => if product_images.len() > 0 {
                    Some(product_images[0].url.clone())
                } else {
                    None
                },
            }
        },
    };
    let mut seen: Vec<String> = Vec::new();
    if let Some(p) = &primary {
        seen.push(p.clone());
    }
    let ghost seen0 = seen.deep_view();
    assert(seen0 =~= match primary_image(variant_images@, product_images@) {
        Some(p) => seq![p],
        None => Seq::<Seq<char>>::empty(),
    });
    let mut urls = urls_of(variant_images);
    let mut more = urls_of(product_images);
    let ghost all = urls.deep_view() + more.deep_view();
    urls.append(&mut more);
    assert(urls.deep_view() =~= all);
    let mut extras: Vec<String> = Vec::new();
    let n = urls.len();
    let mut i: usize = 0;
    assert(all.skip(0) =~= all);
    while i < n
        invariant
            i <= n == urls.len(),
            urls.deep_view() == all,
            extras.deep_view() + unseen(all.skip(i as int), seen.deep_view()) == unseen(all, seen0),
        decreases n - i,
    {
        let ghost rest = all.skip(i as int);
        assert(rest.drop_first() =~= all.skip(i + 1));
        assert(rest[0] == urls@[i as int]@);
        if contains_str(&seen, urls[i].as_str()) {
        } else {
            let ghost e0 = extras.deep_view();
            let ghost s0 = seen.deep_view();
            extras.push(urls[i].clone());
            seen.push(urls[i].clone());
            assert(extras.deep_view() =~= e0.push(rest[0]));
            assert(seen.deep_view() =~= s0.push(rest[0]));
            assert(e0 + (seq![rest[0]] + unseen(rest.drop_first(), s0.push(rest[0]))) =~= extras.deep_view()
                + unseen(all.skip(i + 1), seen.deep_view()));
        }
        i = i + 1;
    }
    assert(extras.deep_view() + Seq::<Seq<char>>::empty() =~= extras.deep_view());
    assert(all.skip(n as int).len() == 0);
    let ghost ex = extras.deep_view();
    if extras.len() == 0 {
        return (primary, None);
    }
    let take: usize = if extras.len() < 4 { extras.len() } else { 4 };
    let mut out = String::new();
    let mut k: usize = 0;
    while k < take
        invariant
            k <= take <= extras.len(),
            take == (if extras.len() < 4 { extras.len() } else { 4 }),
            extras.deep_view() == ex,
            k > 0 ==> out@ == join(ex.take(k as int), ","@),
            k == 0 ==> out@.len() == 0,
        decreases take - k,
    {
        let ghost before = out@;
        if k > 0 {
            push_str(&mut out, ",");
        }
        push_str(&mut out, extras[k].as_str());
        proof {
            let t = ex.take(k + 1);
            assert(t.drop_last() =~= ex.take(k as int));
            assert(t.last() == extras@[k as int]@);
            if k == 0 {
                assert(out@ =~= t[0]);
            } else {
                assert(out@ =~= join(ex.take(k as int), ","@) + ","@ + t.last());
            }
        }
        k = k + 1;
    }
    (primary, Some(out))
}

/// The feed title of a catalog variant: the product's name for a default or
/// unnamed variant, the variant's name when it repeats the product's, else
/// both joined by ` - `.
pub open spec fn catalog_title(product: CatalogProduct, variant: CatalogVariant) -> Seq<char> {
    let vt = trim(variant.name@);
    if eq_ignore_ascii_case(vt, "default"@) || vt.len() == 0 {
        product.name@
    } else if vt == trim(product.name@) {
        variant.name@
    } else {
        product.name@ + " - "@ + variant.name@
    }
}

/// The description: the product's, without tags and cut to 5000
/// characters, unless that leaves nothing; else the product's name.
pub open spec fn catalog_description(product: CatalogProduct) -> Seq<char> {
    match product.description {
        Some(d) => if first_chars(strip_tags(d@), 5000).len() > 0 {
            first_chars(strip_tags(d@), 5000)
        } else {
            product.name@
        },
        None => product.name@,
    }
}

/// Whether `item` is the feed entry of a catalog variant under `o`.
pub open spec fn is_catalog_item(
    item: ProductFeedItem,
    product: CatalogProduct,
    variant: CatalogVariant,
    variant_images: Seq<CatalogImage>,
    product_images: Seq<CatalogImage>,
    available: Option<i32>,
    variants_in_group: usize,
    o: NormalizedFeedOptions,
) -> bool {
    let handle = product_handle(product.name@, product.id@);
    let links = product_links(handle, variant.id@, o);
    let grouped = variants_in_group > 1;
    let (color, size, cat, opt) = option_scan(variant.options@);
    let in_stock = !variant.inventory_tracking || (available matches Some(a) && a > 0);
    let on_sale = variant.compare_at_price matches Some(c) && c.value() > variant.price.value();
    &&& item.enable_search == o.enable_search
    &&& item.enable_checkout == o.enable_checkout
    &&& item.id == variant.id
    &&& item.gtin is None
    &&& (if variant.sku@.len() == 0 { item.mpn is None } else { item.mpn == Some(variant.sku) })
    &&& item.title@ == catalog_title(product, variant)
    &&& item.description matches Some(d) && d@ == catalog_description(product)
    &&& item.link@ == (if grouped { links.1 } else { links.0 })
    &&& item.condition@ == "new"@
    &&& item.product_category is None
    &&& item.brand == product.brand
    &&& item.material is None
    &&& (match variant.weight_label {
        Some(w) => item.weight == Some(w),
        None => match product.weight_kg {
            Some(kg) => item.weight matches Some(w) && w@ == decimal_text(kg) + " kg"@,
            None => item.weight is None,
        },
    })
    &&& (match item.image_link {
        Some(p) => primary_image(variant_images, product_images) == Some(p@),
        None => primary_image(variant_images, product_images) is None,
    })
    &&& (match item.additional_image_link {
        Some(a) => additional_images(variant_images, product_images) == Some(a@),
        None => additional_images(variant_images, product_images) is None,
    })
    &&& (if on_sale {
        &&& item.price@ == money(decimal_text(variant.compare_at_price.unwrap()), o.currency@)
        &&& item.sale_price matches Some(s) && s@ == money(decimal_text(variant.price), o.currency@)
    } else {
        &&& item.price@ == money(decimal_text(variant.price), o.currency@)
        &&& item.sale_price is None
    })
    &&& item.availability@ == (if in_stock { "in_stock"@ } else { "out_of_stock"@ })
    &&& item.inventory_quantity == (if !variant.inventory_tracking {
        9999
    } else if in_stock {
        available.unwrap() as i64
    } else {
        0
    })
    &&& (if grouped { item.item_group_id == Some(product.id) } else { item.item_group_id is None })
    &&& (if grouped { item.item_group_title == Some(product.name) } else { item.item_group_title is None })
    &&& item.color == color
    &&& item.size == size
    &&& item.custom_variant1_category == cat
    &&& item.custom_variant1_option == opt
    &&& item.offer_id matches Some(x) && x@ == handle + "-"@ + (if variant.sku@.len() > 0 { variant.sku@ } else { variant.id@ })
    &&& (if product.is_digital {
        item.shipping is None
    } else {
        item.shipping matches Some(s) && s@ == "US::Standard:"@ + money(o.default_shipping_cost@, o.currency@)
    })
    &&& item.seller_name == o.seller_name
    &&& item.seller_url == o.seller_url
    &&& item.seller_privacy_policy == o.seller_privacy_policy
    &&& item.seller_tos == o.seller_tos
    &&& item.return_policy == o.return_policy
    &&& item.return_window == Some(o.return_window)
    &&& item.product_review_count is None
    &&& item.shopify_product_id == Some(product.id)
    &&& item.shopify_variant_id == Some(variant.id)
    &&& item.product_handle matches Some(h) && h@ == handle
    &&& item.tags == product.tags
    &&& item.created_at == Some(product.created_at)
    &&& item.updated_at == product.updated_at
}

fn catalog_title_of(product: &CatalogProduct, variant: &CatalogVariant) -> (s: String)
    ensures
        s@ == catalog_title(*product, *variant),
        trim(variant.name@).len() > 0 && !eq_ignore_ascii_case(trim(variant.name@), "default"@) && trim(variant.name@)
            != trim(product.name@) ==> s@ == product.name@ + " - "@ + variant.name@,
{
    let vt = trim_string(variant.name.as_str());
    if eq_ignore_case(vt.as_str(), "default") || chars_of(vt.as_str()).len() == 0 {
        product.name.clone()
    } else {
        let pt = trim_string(product.name.as_str());
        if str_eq(vt.as_str(), pt.as_str()) {
            variant.name.clone()
        } else {
            concat3(product.name.as_str(), " - ", variant.name.as_str())
        }
    }
}

fn catalog_description_of(product: &CatalogProduct) -> (s: String)
    ensures
        s@ == catalog_description(*product),
{
    match &product.description {
        Some(d) => {
            let text = strip_html(d.as_str());
            let v = chars_of(text.as_str());
            let cut = if v.len() <= 5000 {
                crate::text::string_from(&v)
            } else {
                let c = crate::text::string_of(&v, 0, 5000);
                assert(c@ =~= v@.take(5000));
                c
            };
            if chars_of(cut.as_str()).len() > 0 {
                cut
            } else {
                product.name.clone()
            }
        },
        None => product.name.clone(),
    }
}

/// The feed entry of a catalog variant, given its images, the stock
/// available for its SKU (if the SKU is stocked) and how many variants its
/// product has.
pub fn transform_catalog_variant(
    product: &CatalogProduct,
    variant: &CatalogVariant,
    product_images: &Vec<CatalogImage>,
    variant_images: &Vec<CatalogImage>,
    available: Option<i32>,
    variants_in_group: usize,
    options: &NormalizedFeedOptions,
) -> (item: ProductFeedItem)
    requires
        variant.price.wf(),
        variant.compare_at_price matches Some(c) ==> c.wf(),
        product.weight_kg matches Some(w) ==> w.wf(),
    ensures
        is_catalog_item(item, *product, *variant, variant_images@, product_images@, available, variants_in_group, *options),
{
    let handle = generate_product_handle(product.name.as_str(), product.id.as_str());
    let (product_url, variant_url) = build_product_links(handle.as_str(), variant.id.as_str(), options);
    let (availability, inventory_quantity): (String, i64) = if !variant.inventory_tracking {
        (owned("in_stock"), 9999)
    } else {
        match available {
            Some(a) => if a > 0 {
                (owned("in_stock"), a as i64)
            } else {
                (owned("out_of_stock"), 0)
            },
            None => (owned("out_of_stock"), 0),
        }
    };
    let (color, size, cat, opt) = extract_option_attributes(&variant.options);
    let (image_link, additional_image_link) = resolve_catalog_images(variant_images, product_images);
    let on_sale = match &variant.compare_at_price {
        Some(c) => dec_gt(c, &variant.price),
        None => false,
    };
    let (price, sale_price) = if on_sale {
        let c = variant.compare_at_price.unwrap();
        (
            format_decimal_money(&c, options.currency.as_str()),
            Some(format_decimal_money(&variant.price, options.currency.as_str())),
        )
    } else {
        (format_decimal_money(&variant.price, options.currency.as_str()), None)
    };
    let grouped = variants_in_group > 1;
    let weight = match &variant.weight_label {
        Some(w) => Some(w.clone()),
        None => match &product.weight_kg {
            Some(kg) => {
                let t = decimal_to_string(kg);
                Some(concat(t.as_str(), " kg"))
            },
            None => None,
        },
    };
    let shipping = if product.is_digital {
        None
    } else {
        let mut s = concat("US::Standard:", options.default_shipping_cost.as_str());
        push_str(&mut s, " ");
        push_str(&mut s, options.currency.as_str());
        assert(s@ =~= "US::Standard:"@ + money(options.default_shipping_cost@, options.currency@));
        Some(s)
    };
    let sku_len = chars_of(variant.sku.as_str()).len();
    let offer_id = if sku_len > 0 {
        concat3(handle.as_str(), "-", variant.sku.as_str())
    } else {
        concat3(handle.as_str(), "-", variant.id.as_str())
    };
    ProductFeedItem {
        enable_search: options.enable_search,
        enable_checkout: options.enable_checkout,
        id: variant.id.clone(),
        gtin: None,
        mpn: if sku_len == 0 { None } else { Some(variant.sku.clone()) },
        title: catalog_title_of(product, variant),
        description: Some(catalog_description_of(product)),
        link: if grouped { variant_url } else { product_url },
        condition: owned("new"),
        product_category: None,
        brand: clone_opt(&product.brand),
        material: None,
        weight,
        image_link,
        additional_image_link,
        price,
        sale_price,
        availability,
        inventory_quantity,
        item_group_id: if grouped { Some(product.id.clone()) } else { None },
        item_group_title: if grouped { Some(product.name.clone()) } else { None },
        color,
        size,
        offer_id: Some(offer_id),
        custom_variant1_category: cat,
        custom_variant1_option: opt,
        shipping,
        seller_name: options.seller_name.clone(),
        seller_url: options.seller_url.clone(),
        seller_privacy_policy: clone_opt(&options.seller_privacy_policy),
        seller_tos: clone_opt(&options.seller_tos),
        return_policy: clone_opt(&options.return_policy),
        return_window: Some(options.return_window),
        product_review_count: None,
        shopify_product_id: Some(product.id.clone()),
        shopify_variant_id: Some(variant.id.clone()),
        product_handle: Some(handle),
        tags: clone_opt(&product.tags),
        created_at: Some(product.created_at.clone()),
        updated_at: clone_opt(&product.updated_at),
    }
}

/// A variant with a name of its own (not blank, not `default` in any case,
/// and not the product's name again) is listed as the product's name, ` - `,
/// and the variant's name; so the feed title ends with the variant's name,
/// and two such variants of one product with different names get different
/// titles.
pub proof fn law_named_catalog_variant_title_joins_names(
    product: CatalogProduct,
    variant: CatalogVariant,
    other: CatalogVariant,
)
    ensures
        trim(variant.name@).len() > 0 && !eq_ignore_ascii_case(trim(variant.name@), "default"@) && trim(variant.name@)
            != trim(product.name@) ==> catalog_title(product, variant) == product.name@ + " - "@ + variant.name@,
        trim(variant.name@).len() > 0 && !eq_ignore_ascii_case(trim(variant.name@), "default"@) && trim(variant.name@)
            != trim(product.name@) && trim(other.name@).len() > 0 && !eq_ignore_ascii_case(trim(other.name@), "default"@)
            && trim(other.name@) != trim(product.name@) && variant.name@ != other.name@ ==> catalog_title(product, variant)
            != catalog_title(product, other),
{
    let head = product.name@ + " - "@;
    let a = head + variant.name@;
    let b = head + other.name@;
    if a == b {
        assert(a.skip(head.len() as int) =~= variant.name@);
        assert(b.skip(head.len() as int) =~= other.name@);
    }
}

} // verus!
