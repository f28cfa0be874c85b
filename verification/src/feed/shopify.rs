//! Feed items, and how a Shopify product variant becomes one.
use vstd::prelude::*;
use crate::agentic::model::clone_opt;
use crate::feed::markup::strip_html;
use crate::feed::markup::strip_tags;
use crate::feed::options::{build_product_links, lower_case, product_links, to_lowercase, NormalizedFeedOptions};
use crate::num::{int_str, push_i128};
use crate::text::{concat, concat3, owned, push_str, str_eq};

verus! {

/// One variant's entry in an agentic commerce feed.
#[derive(Debug, Clone)]
pub struct ProductFeedItem {
    pub enable_search: bool,
    pub enable_checkout: bool,
    pub id: String,
    pub gtin: Option<String>,
    pub mpn: Option<String>,
    pub title: String,
    pub description: Option<String>,
    pub link: String,
    pub condition: String,
    pub product_category: Option<String>,
    pub brand: Option<String>,
    pub material: Option<String>,
    pub weight: Option<String>,
    pub image_link: Option<String>,
    pub additional_image_link: Option<String>,
    pub price: String,
    pub sale_price: Option<String>,
    pub availability: String,
    pub inventory_quantity: i64,
    pub item_group_id: Option<String>,
    pub item_group_title: Option<String>,
    pub color: Option<String>,
    pub size: Option<String>,
    pub offer_id: Option<String>,
    pub custom_variant1_category: Option<String>,
    pub custom_variant1_option: Option<String>,
    pub shipping: Option<String>,
    pub seller_name: String,
    pub seller_url: String,
    pub seller_privacy_policy: Option<String>,
    pub seller_tos: Option<String>,
    pub return_policy: Option<String>,
    pub return_window: Option<u32>,
    pub product_review_count: Option<u32>,
    pub shopify_product_id: Option<String>,
    pub shopify_variant_id: Option<String>,
    pub product_handle: Option<String>,
    pub tags: Option<String>,
    pub created_at: Option<String>,
    pub updated_at: Option<String>,
}

#[derive(Debug, Clone)]
pub struct ShopifyImage {
    pub id: Option<i64>,
    pub src: Option<String>,
}

#[derive(Debug, Clone)]
pub struct ShopifyOption {
    pub name: Option<String>,
}

/// A Shopify variant; its weight comes as a label (`<weight> <unit>`) when
/// it has a positive weight and a unit.
#[derive(Debug, Clone)]
pub struct ShopifyVariant {
    pub id: Option<i64>,
    pub title: Option<String>,
    pub price: Option<String>,
    pub compare_at_price: Option<String>,
    pub weight_label: Option<String>,
    pub sku: Option<String>,
    pub barcode: Option<String>,
    pub inventory_quantity: Option<i64>,
    pub option1: Option<String>,
    pub option2: Option<String>,
    pub option3: Option<String>,
    pub requires_shipping: Option<bool>,
    pub image_id: Option<i64>,
}

#[derive(Debug, Clone)]
pub struct ShopifyProduct {
    pub id: Option<i64>,
    pub title: Option<String>,
    pub handle: Option<String>,
    pub body_html: Option<String>,
    pub product_type: Option<String>,
    pub vendor: Option<String>,
    pub tags: Option<String>,
    pub created_at: Option<String>,
    pub updated_at: Option<String>,
    pub variants: Vec<ShopifyVariant>,
    pub options: Vec<ShopifyOption>,
    pub images: Vec<ShopifyImage>,
    pub image: Option<ShopifyImage>,
}

/// An identifier's text, or `fallback` when there is none.
pub open spec fn id_text(id: Option<i64>, fallback: Seq<char>) -> Seq<char> {
    match id {
        Some(x) => int_str(x as int),
        None => fallback,
    }
}

fn id_string(id: Option<i64>, fallback: &str) -> (s: String)
    ensures
        s@ == id_text(id, fallback@),
{
    match id {
        Some(x) => {
            let mut s = String::new();
            push_i128(&mut s, x as i128);
            assert(s@ =~= int_str(x as int));
            s
        },
        None => owned(fallback),
    }
}

/// The lower-cased names of the options that have one, in order.
pub open spec fn option_names(opts: Seq<ShopifyOption>) -> Seq<Seq<char>>
    decreases opts.len(),
{
    if opts.len() == 0 {
        Seq::empty()
    } else {
        let rest = option_names(opts.drop_last());
        match opts.last().name {
            Some(n) => rest.push(lower_case(n@)),
            None => rest,
        }
    }
}

fn option_names_of(opts: &Vec<ShopifyOption>) -> (r: Vec<String>)
    ensures
        r.deep_view() == option_names(opts@),
{
    let mut r: Vec<String> = Vec::new();
    let mut i: usize = 0;
    while i < opts.len()
        invariant
            i <= opts.len(),
            r.deep_view() == option_names(opts@.take(i as int)),
        decreases opts.len() - i,
    {
        assert(opts@.take(i + 1).drop_last() =~= opts@.take(i as int));
        match &opts[i].name {
            Some(n) => {
                let ghost before = r.deep_view();
                let l = to_lowercase(n.as_str());
                r.push(l);
                assert(r.deep_view() =~= before.push(lower_case(n@)));
            },
            None => {},
        }
        i = i + 1;
    }
    assert(opts@.take(i as int) =~= opts@);
    r
}

/// The first image with the given id.
pub open spec fn image_with_id(imgs: Seq<ShopifyImage>, id: i64) -> Option<ShopifyImage>
    decreases imgs.len(),
{
    if imgs.len() == 0 {
        None
    } else if imgs[0].id == Some(id) {
        Some(imgs[0])
    } else {
        image_with_id(imgs.drop_first(), id)
    }
}

fn find_image(imgs: &Vec<ShopifyImage>, id: i64) -> (r: Option<usize>)
    ensures
        match r {
            Some(i) => i < imgs.len() && image_with_id(imgs@, id) == Some(imgs@[i as int]),
            None => image_with_id(imgs@, id) is None,
        },
{
    let n = imgs.len();
    let mut i: usize = 0;
    assert(imgs@.subrange(0, n as int) =~= imgs@);
    while i < n
        invariant
            i <= n == imgs.len(),
            image_with_id(imgs@, id) == image_with_id(imgs@.subrange(i as int, n as int), id),
        decreases n - i,
    {
        assert(imgs@.subrange(i as int, n as int).drop_first() =~= imgs@.subrange(i + 1, n as int));
        assert(imgs@.subrange(i as int, n as int)[0] == imgs@[i as int]);
        if imgs[i].id == Some(id) {
            return Some(i);
        }
        i = i + 1;
    }
    None
}

pub open spec fn src_of(img: Option<ShopifyImage>) -> Option<String> {
    match img {
        Some(i) => i.src,
        None => None,
    }
}

/// The variant's own image, else the product's featured image, else its
/// first image; the first of these that has a source.
pub open spec fn shopify_image_link(product: ShopifyProduct, variant: ShopifyVariant) -> Option<String> {
    let own = match variant.image_id {
        Some(iid) => src_of(image_with_id(product.images@, iid)),
        None => None,
    };
    if own is Some {
        own
    } else if src_of(product.image) is Some {
        src_of(product.image)
    } else if product.images.len() > 0 {
        product.images@[0].src
    } else {
        None
    }
}

fn image_link_of(product: &ShopifyProduct, variant: &ShopifyVariant) -> (r: Option<String>)
    ensures
        r == shopify_image_link(*product, *variant),
{
    let own: Option<String> = match variant.image_id {
        Some(iid) => match find_image(&product.images, iid) {
            Some(i) => crate::agentic::model::clone_opt(&product.images[i].src),
            None => None,
        },
        None => None,
    };
    if own.is_some() {
        return own;
    }
    let featured: Option<String> = match &product.image {
        Some(img) => crate::agentic::model::clone_opt(&img.src),
        None => None,
    };
    if featured.is_some() {
        return featured;
    }
    if product.images.len() > 0 {
        crate::agentic::model::clone_opt(&product.images[0].src)
    } else {
        None
    }
}

/// The sources among `imgs`, in order.
pub open spec fn sources(imgs: Seq<ShopifyImage>) -> Seq<Seq<char>>
    decreases imgs.len(),
{
    if imgs.len() == 0 {
        Seq::empty()
    } else {
        let rest = sources(imgs.drop_last());
        match imgs.last().src {
            Some(s) => rest.push(s@),
            None => rest,
        }
    }
}

/// `parts` joined by `sep`.
pub open spec fn join(parts: Seq<Seq<char>>, sep: Seq<char>) -> Seq<char>
    decreases parts.len(),
{
    if parts.len() == 0 {
        Seq::empty()
    } else if parts.len() == 1 {
        parts[0]
    } else {
        join(parts.drop_last(), sep) + sep + parts.last()
    }
}

/// The sources of the second to fifth images, comma-separated, when there
/// is more than one image and any of those has a source.
pub open spec fn shopify_additional_images(product: ShopifyProduct) -> Option<Seq<char>> {
    if product.images.len() > 1 {
        let imgs = product.images@;
        let extra = sources(imgs.subrange(1, if imgs.len() < 5 { imgs.len() as int } else { 5 }));
        if extra.len() == 0 {
            None
        } else {
            Some(join(extra, ","@))
        }
    } else {
        None
    }
}

fn additional_images_of(product: &ShopifyProduct) -> (r: Option<String>)
    ensures
        match r {
            Some(s) => shopify_additional_images(*product) == Some(s@),
            None => shopify_additional_images(*product) is None,
        },
{
    let imgs = &product.images;
    if imgs.len() <= 1 {
        return None;
    }
    let end: usize = if imgs.len() < 5 { imgs.len() } else { 5 };
    let ghost range = imgs@.subrange(1, end as int);
    let mut out = String::new();
    let mut any = false;
    let mut i: usize = 1;
    while i < end
        invariant
            1 <= i <= end <= imgs.len(),
            end == (if imgs.len() < 5 { imgs.len() } else { 5 }),
            range == imgs@.subrange(1, end as int),
            any == (sources(range.take(i - 1)).len() > 0),
            out@ == join(sources(range.take(i - 1)), ","@),
        decreases end - i,
    {
        proof {
            assert(range.take(i as int).drop_last() =~= range.take(i - 1));
            assert(range.take(i as int).last() == imgs@[i as int]);
        }
        match &imgs[i].src {
            Some(s) => {
                let ghost before = sources(range.take(i - 1));
                if any {
                    push_str(&mut out, ",");
                }
                push_str(&mut out, s.as_str());
                any = true;
                proof {
                    let after = before.push(s@);
                    assert(after.drop_last() =~= before);
                    if before.len() == 0 {
                        assert(join(after, ","@) == after[0]);
                        assert(out@ =~= s@);
                    } else {
                        assert(out@ =~= join(before, ","@) + ","@ + s@);
                    }
                }
            },
            None => {},
        }
        i = i + 1;
    }
    assert(range.take(end - 1) =~= range);
    if !any {
        None
    } else {
        Some(out)
    }
}

/// The product's title, or `Untitled Product`.
pub open spec fn product_title(product: ShopifyProduct) -> Seq<char> {
    match product.title {
        Some(t) => t@,
        None => "Untitled Product"@,
    }
}

/// The variant's title: the product's, followed by ` - ` and the variant's
/// own unless that is absent or `Default Title`.
pub open spec fn shopify_title(product: ShopifyProduct, variant: ShopifyVariant) -> Seq<char> {
    match variant.title {
        None => product_title(product),
        Some(t) => if t@ == "Default Title"@ {
            product_title(product)
        } else {
            product_title(product) + " - "@ + t@
        },
    }
}

fn title_of(product: &ShopifyProduct, variant: &ShopifyVariant) -> (s: String)
    ensures
        s@ == shopify_title(*product, *variant),
        variant.title is Some && variant.title.unwrap()@ != "Default Title"@ ==> s@ == product_title(*product) + " - "@
            + variant.title.unwrap()@,
{
    let base = match &product.title {
        Some(t) => t.clone(),
        None => owned("Untitled Product"),
    };
    match &variant.title {
        None => base,
        Some(t) => {
            if str_eq(t.as_str(), "Default Title") {
                base
            } else {
                concat3(base.as_str(), " - ", t.as_str())
            }
        },
    }
}

/// An amount followed by a space and the currency.
pub open spec fn money(amount: Seq<char>, currency: Seq<char>) -> Seq<char> {
    amount + " "@ + currency
}

/// The first `n` characters of `s`.
pub open spec fn first_chars(s: Seq<char>, n: nat) -> Seq<char> {
    if s.len() <= n { s } else { s.take(n as int) }
}

fn take_chars(t: &str, n: usize) -> (s: String)
    ensures
        s@ == first_chars(t@, n as nat),
{
    let v = crate::text::chars_of(t);
    if v.len() <= n {
        crate::text::string_from(&v)
    } else {
        let s = crate::text::string_of(&v, 0, n);
        assert(s@ =~= v@.take(n as int));
        s
    }
}

/// Whether `item` is the feed entry of a Shopify variant under `o`.
pub open spec fn is_shopify_item(item: ProductFeedItem, product: ShopifyProduct, variant: ShopifyVariant, o: NormalizedFeedOptions) -> bool {
    let variant_id = id_text(variant.id, "unknown-variant"@);
    let product_id = id_text(product.id, "unknown-product"@);
    let handle = match product.handle {
        Some(h) => h@,
        None => "product"@,
    };
    let links = product_links(handle, variant_id, o);
    let qty = match variant.inventory_quantity {
        Some(q) => q,
        None => 0,
    };
    let names = option_names(product.options@);
    let price = match variant.price {
        Some(p) => p@,
        None => "0.00"@,
    };
    let grouped = product.variants.len() > 1;
    &&& item.enable_search == o.enable_search
    &&& item.enable_checkout == o.enable_checkout
    &&& item.id@ == variant_id
    &&& item.gtin == variant.barcode
    &&& item.mpn == variant.sku
    &&& item.title@ == shopify_title(product, variant)
    &&& (match product.body_html {
        Some(b) => item.description matches Some(d) && d@ == first_chars(strip_tags(b@), 5000),
        None => item.description is None,
    })
    &&& item.link@ == (if grouped { links.1 } else { links.0 })
    &&& item.condition@ == "new"@
    &&& item.product_category == product.product_type
    &&& item.brand == product.vendor
    &&& item.material is None
    &&& item.weight == variant.weight_label
    &&& item.image_link == shopify_image_link(product, variant)
    &&& (match item.additional_image_link {
        Some(a) => shopify_additional_images(product) == Some(a@),
        None => shopify_additional_images(product) is None,
    })
    &&& item.price@ == money(match variant.compare_at_price {
        Some(c) => c@,
        None => price,
    }, o.currency@)
    &&& (match variant.compare_at_price {
        Some(_) => item.sale_price matches Some(s) && s@ == money(price, o.currency@),
        None => item.sale_price is None,
    })
    &&& item.availability@ == (if qty > 0 { "in_stock"@ } else { "out_of_stock"@ })
    &&& item.inventory_quantity == qty
    &&& (match item.item_group_id {
        Some(g) => grouped && g@ == product_id,
        None => !grouped,
    })
    &&& item.item_group_title == (if grouped { product.title } else { None })
    &&& item.color == (if names.len() > 0 && names[0] == "color"@ { variant.option1 } else { None })
    &&& item.size == (if names.len() > 1 && names[1] == "size"@ { variant.option2 } else { None })
    &&& item.offer_id matches Some(x) && x@ == handle + "-"@ + variant_id
    &&& item.custom_variant1_category == (if product.options.len() > 2 { product.options@[2].name } else { None })
    &&& item.custom_variant1_option == variant.option3
    &&& (match item.shipping {
        Some(s) => variant.requires_shipping == Some(true) && s@ == "US::Standard:"@ + money(o.default_shipping_cost@, o.currency@),
        None => variant.requires_shipping != Some(true),
    })
    &&& item.seller_name == o.seller_name
    &&& item.seller_url == o.seller_url
    &&& item.seller_privacy_policy == o.seller_privacy_policy
    &&& item.seller_tos == o.seller_tos
    &&& item.return_policy == o.return_policy
    &&& item.return_window == Some(o.return_window)
    &&& item.product_review_count is None
    &&& item.shopify_product_id matches Some(x) && x@ == product_id
    &&& item.shopify_variant_id matches Some(x) && x@ == variant_id
    &&& item.product_handle matches Some(x) && x@ == handle
    &&& item.tags == product.tags
    &&& item.created_at == product.created_at
    &&& item.updated_at == product.updated_at
}

/// The feed entry of a Shopify variant. A variant with a compare-at price
/// is listed at that price, with its own price as the sale price.
pub fn transform_shopify_variant(product: &ShopifyProduct, variant: &ShopifyVariant, options: &NormalizedFeedOptions) -> (item: ProductFeedItem)
    ensures
        is_shopify_item(item, *product, *variant, *options),
{
    let variant_id = id_string(variant.id, "unknown-variant");
    let product_id = id_string(product.id, "unknown-product");
    let handle = match &product.handle {
        Some(h) => h.clone(),
        None => owned("product"),
    };
    let (product_url, variant_url) = build_product_links(handle.as_str(), variant_id.as_str(), options);
    let qty: i64 = match variant.inventory_quantity {
        Some(q) => q,
        None => 0,
    };
    let availability = if qty > 0 {
        owned("in_stock")
    } else {
        owned("out_of_stock")
    };
    let names = option_names_of(&product.options);
    proof {
        if names.len() > 0 {
            assert(names.deep_view()[0] == names@[0]@);
        }
        if names.len() > 1 {
            assert(names.deep_view()[1] == names@[1]@);
        }
    }
    let color = if names.len() > 0 && str_eq(names[0].as_str(), "color") {
        clone_opt(&variant.option1)
    } else {
        None
    };
    let size = if names.len() > 1 && str_eq(names[1].as_str(), "size") {
        clone_opt(&variant.option2)
    } else {
        None
    };
    let custom_category = if product.options.len() > 2 {
        clone_opt(&product.options[2].name)
    } else {
        None
    };
    let description = match &product.body_html {
        Some(b) => {
            let stripped = strip_html(b.as_str());
            Some(take_chars(stripped.as_str(), 5000))
        },
        None => None,
    };
    let grouped = product.variants.len() > 1;
    let price = match &variant.price {
        Some(p) => p.clone(),
        None => owned("0.00"),
    };
    let (listed, sale_price) = match &variant.compare_at_price {
        Some(c) => (
            concat3(c.as_str(), " ", options.currency.as_str()),
            Some(concat3(price.as_str(), " ", options.currency.as_str())),
        ),
        None => (concat3(price.as_str(), " ", options.currency.as_str()), None),
    };
    let shipping = match variant.requires_shipping {
        Some(true) => {
            let mut s = concat("US::Standard:", options.default_shipping_cost.as_str());
            push_str(&mut s, " ");
            push_str(&mut s, options.currency.as_str());
            assert(s@ =~= "US::Standard:"@ + money(options.default_shipping_cost@, options.currency@));
            Some(s)
        },
        _ => None,
    };
    let offer_id = concat3(handle.as_str(), "-", variant_id.as_str());
    ProductFeedItem {
        enable_search: options.enable_search,
        enable_checkout: options.enable_checkout,
        id: variant_id.clone(),
        gtin: clone_opt(&variant.barcode),
        mpn: clone_opt(&variant.sku),
        title: title_of(product, variant),
        description,
        link: if grouped { variant_url } else { product_url },
        condition: owned("new"),
        product_category: clone_opt(&product.product_type),
        brand: clone_opt(&product.vendor),
        material: None,
        weight: clone_opt(&variant.weight_label),
        image_link: image_link_of(product, variant),
        additional_image_link: additional_images_of(product),
        price: listed,
        sale_price,
        availability,
        inventory_quantity: qty,
        item_group_id: if grouped { Some(product_id.clone()) } else { None },
        item_group_title: if grouped { clone_opt(&product.title) } else { None },
        color,
        size,
        offer_id: Some(offer_id),
        custom_variant1_category: custom_category,
        custom_variant1_option: clone_opt(&variant.option3),
        shipping,
        seller_name: options.seller_name.clone(),
        seller_url: options.seller_url.clone(),
        seller_privacy_policy: clone_opt(&options.seller_privacy_policy),
        seller_tos: clone_opt(&options.seller_tos),
        return_policy: clone_opt(&options.return_policy),
        return_window: Some(options.return_window),
        product_review_count: None,
        shopify_product_id: Some(product_id),
        shopify_variant_id: Some(variant_id),
        product_handle: Some(handle),
        tags: clone_opt(&product.tags),
        created_at: clone_opt(&product.created_at),
        updated_at: clone_opt(&product.updated_at),
    }
}

/// A variant with a title of its own (not `Default Title`) is listed as the
/// product's title, ` - `, and the variant's title; so two such variants of
/// one product with different titles get different feed titles.
pub proof fn law_named_variant_title_joins_product_title(
    product: ShopifyProduct,
    variant: ShopifyVariant,
    other: ShopifyVariant,
)
    ensures
        variant.title is Some && variant.title.unwrap()@ != "Default Title"@ ==> shopify_title(product, variant) == (match product.title {
            Some(p) => p@,
            None => "Untitled Product"@,
        }) + " - "@ + variant.title.unwrap()@,
        variant.title is Some && variant.title.unwrap()@ != "Default Title"@ && other.title is Some
            && other.title.unwrap()@ != "Default Title"@ && variant.title.unwrap()@ != other.title.unwrap()@ ==> shopify_title(product, variant) != shopify_title(
            product,
            other,
        ),
{
    if variant.title is Some && variant.title.unwrap()@ != "Default Title"@ && other.title is Some
        && other.title.unwrap()@ != "Default Title"@ && variant.title.unwrap()@ != other.title.unwrap()@ {
        let head = product_title(product) + " - "@;
        let a = head + variant.title.unwrap()@;
        let b = head + other.title.unwrap()@;
        if a == b {
            assert(a.skip(head.len() as int) =~= variant.title.unwrap()@);
            assert(b.skip(head.len() as int) =~= other.title.unwrap()@);
        }
    }
}

} // verus!
