//! The delimited (CSV or TSV) encoding of a feed: one column per field
//! that any item carries, in the order of the field names, and one row per
//! item.
use vstd::prelude::*;
use crate::feed::markup::{escape_field, escaped};
use crate::feed::shopify::{join, ProductFeedItem};
use crate::num::{dec_str, int_str, push_i128, push_u128};
use crate::text::{owned, push_char, push_str};

verus! {

/// The number of fields a feed item has.
pub const FIELD_COUNT: usize = 40;

/// The names of an item's fields, in byte order.
pub open spec fn field_names() -> Seq<Seq<char>> {
    seq![
        "additional_image_link"@,
        "availability"@,
        "brand"@,
        "color"@,
        "condition"@,
        "created_at"@,
        "custom_variant1_category"@,
        "custom_variant1_option"@,
        "description"@,
        "enable_checkout"@,
        "enable_search"@,
        "gtin"@,
        "id"@,
        "image_link"@,
        "inventory_quantity"@,
        "item_group_id"@,
        "item_group_title"@,
        "link"@,
        "material"@,
        "mpn"@,
        "offer_id"@,
        "price"@,
        "product_category"@,
        "product_handle"@,
        "product_review_count"@,
        "return_policy"@,
        "return_window"@,
        "sale_price"@,
        "seller_name"@,
        "seller_privacy_policy"@,
        "seller_tos"@,
        "seller_url"@,
        "shipping"@,
        "shopify_product_id"@,
        "shopify_variant_id"@,
        "size"@,
        "tags"@,
        "title"@,
        "updated_at"@,
        "weight"@
    ]
}

pub open spec fn opt_text(o: Option<String>) -> Option<Seq<char>> {
    match o {
        Some(s) => Some(s@),
        None => None,
    }
}

pub open spec fn opt_count(o: Option<u32>) -> Option<Seq<char>> {
    match o {
        Some(n) => Some(dec_str(n as nat)),
        None => None,
    }
}

pub open spec fn bool_text(b: bool) -> Seq<char> {
    if b {
        "true"@
    } else {
        "false"@
    }
}

/// The text of each field of an item, in the order of `field_names`: a
/// string as it is, a flag as `true` or `false`, a number in decimal; an
/// absent optional field has none.
pub open spec fn field_values(i: ProductFeedItem) -> Seq<Option<Seq<char>>> {
    seq![
        opt_text(i.additional_image_link),
        Some(i.availability@),
        opt_text(i.brand),
        opt_text(i.color),
        Some(i.condition@),
        opt_text(i.created_at),
        opt_text(i.custom_variant1_category),
        opt_text(i.custom_variant1_option),
        opt_text(i.description),
        Some(bool_text(i.enable_checkout)),
        Some(bool_text(i.enable_search)),
        opt_text(i.gtin),
        Some(i.id@),
        opt_text(i.image_link),
        Some(int_str(i.inventory_quantity as int)),
        opt_text(i.item_group_id),
        opt_text(i.item_group_title),
        Some(i.link@),
        opt_text(i.material),
        opt_text(i.mpn),
        opt_text(i.offer_id),
        Some(i.price@),
        opt_text(i.product_category),
        opt_text(i.product_handle),
        opt_count(i.product_review_count),
        opt_text(i.return_policy),
        opt_count(i.return_window),
        opt_text(i.sale_price),
        Some(i.seller_name@),
        opt_text(i.seller_privacy_policy),
        opt_text(i.seller_tos),
        Some(i.seller_url@),
        opt_text(i.shipping),
        opt_text(i.shopify_product_id),
        opt_text(i.shopify_variant_id),
        opt_text(i.size),
        opt_text(i.tags),
        Some(i.title@),
        opt_text(i.updated_at),
        opt_text(i.weight)
    ]
}

fn clone_text(o: &Option<String>) -> (r: Option<String>)
    ensures
        r.deep_view() == opt_text(*o),
{
    match o {
        Some(s) => Some(s.clone()),
        None => None,
    }
}

fn bool_string(b: bool) -> (s: String)
    ensures
        s@ == bool_text(b),
{
    if b {
        owned("true")
    } else {
        owned("false")
    }
}

fn i64_string(n: i64) -> (s: String)
    ensures
        s@ == int_str(n as int),
{
    let mut s = String::new();
    push_i128(&mut s, n as i128);
    assert(s@ =~= int_str(n as int));
    s
}

fn count_string(o: Option<u32>) -> (r: Option<String>)
    ensures
        r.deep_view() == opt_count(o),
{
    match o {
        Some(n) => {
            let mut s = String::new();
            push_u128(&mut s, n as u128);
            assert(s@ =~= dec_str(n as nat));
            Some(s)
        },
        None => None,
    }
}

/// The names of an item's fields, in byte order.
pub fn field_name_list() -> (v: Vec<String>)
    ensures
        v@.len() == FIELD_COUNT,
        v.deep_view() == field_names(),
{
    let mut v: Vec<String> = Vec::new();
    v.push(owned("additional_image_link"));
    v.push(owned("availability"));
    v.push(owned("brand"));
    v.push(owned("color"));
    v.push(owned("condition"));
    v.push(owned("created_at"));
    v.push(owned("custom_variant1_category"));
    v.push(owned("custom_variant1_option"));
    v.push(owned("description"));
    v.push(owned("enable_checkout"));
    v.push(owned("enable_search"));
    v.push(owned("gtin"));
    v.push(owned("id"));
    v.push(owned("image_link"));
    v.push(owned("inventory_quantity"));
    v.push(owned("item_group_id"));
    v.push(owned("item_group_title"));
    v.push(owned("link"));
    v.push(owned("material"));
    v.push(owned("mpn"));
    v.push(owned("offer_id"));
    v.push(owned("price"));
    v.push(owned("product_category"));
    v.push(owned("product_handle"));
    v.push(owned("product_review_count"));
    v.push(owned("return_policy"));
    v.push(owned("return_window"));
    v.push(owned("sale_price"));
    v.push(owned("seller_name"));
    v.push(owned("seller_privacy_policy"));
    v.push(owned("seller_tos"));
    v.push(owned("seller_url"));
    v.push(owned("shipping"));
    v.push(owned("shopify_product_id"));
    v.push(owned("shopify_variant_id"));
    v.push(owned("size"));
    v.push(owned("tags"));
    v.push(owned("title"));
    v.push(owned("updated_at"));
    v.push(owned("weight"));
    assert(v.deep_view() =~= field_names());
    v
}

/// The text of each field of an item (see `field_values`).
pub fn field_value_list(item: &ProductFeedItem) -> (v: Vec<Option<String>>)
    ensures
        v@.len() == FIELD_COUNT,
        v.deep_view() == field_values(*item),
{
    let mut v: Vec<Option<String>> = Vec::new();
    v.push(clone_text(&item.additional_image_link));
    v.push(Some(item.availability.clone()));
    v.push(clone_text(&item.brand));
    v.push(clone_text(&item.color));
    v.push(Some(item.condition.clone()));
    v.push(clone_text(&item.created_at));
    v.push(clone_text(&item.custom_variant1_category));
    v.push(clone_text(&item.custom_variant1_option));
    v.push(clone_text(&item.description));
    v.push(Some(bool_string(item.enable_checkout)));
    v.push(Some(bool_string(item.enable_search)));
    v.push(clone_text(&item.gtin));
    v.push(Some(item.id.clone()));
    v.push(clone_text(&item.image_link));
    v.push(Some(i64_string(item.inventory_quantity)));
    v.push(clone_text(&item.item_group_id));
    v.push(clone_text(&item.item_group_title));
    v.push(Some(item.link.clone()));
    v.push(clone_text(&item.material));
    v.push(clone_text(&item.mpn));
    v.push(clone_text(&item.offer_id));
    v.push(Some(item.price.clone()));
    v.push(clone_text(&item.product_category));
    v.push(clone_text(&item.product_handle));
    v.push(count_string(item.product_review_count));
    v.push(clone_text(&item.return_policy));
    v.push(count_string(item.return_window));
    v.push(clone_text(&item.sale_price));
    v.push(Some(item.seller_name.clone()));
    v.push(clone_text(&item.seller_privacy_policy));
    v.push(clone_text(&item.seller_tos));
    v.push(Some(item.seller_url.clone()));
    v.push(clone_text(&item.shipping));
    v.push(clone_text(&item.shopify_product_id));
    v.push(clone_text(&item.shopify_variant_id));
    v.push(clone_text(&item.size));
    v.push(clone_text(&item.tags));
    v.push(Some(item.title.clone()));
    v.push(clone_text(&item.updated_at));
    v.push(clone_text(&item.weight));
    assert(v.deep_view() =~= field_values(*item));
    v
}

/// The parts whose flag is set, in order.
pub open spec fn selected(flags: Seq<bool>, parts: Seq<Seq<char>>) -> Seq<Seq<char>>
    decreases parts.len(),
{
    if parts.len() == 0 {
        Seq::empty()
    } else {
        let rest = selected(flags, parts.drop_last());
        if flags[parts.len() - 1] {
            rest.push(parts.last())
        } else {
            rest
        }
    }
}

/// Whether item `items[i]`, for some `i < n`, carries field `k`.
pub open spec fn carries(item: ProductFeedItem, k: int) -> bool {
    field_values(item)[k] is Some
}

pub open spec fn carried_before(items: Seq<ProductFeedItem>, n: int, k: int) -> bool {
    exists|i: int| 0 <= i < n && #[trigger] carries(items[i], k)
}

/// Which fields get a column: those that some item carries.
pub open spec fn columns(items: Seq<ProductFeedItem>) -> Seq<bool> {
    Seq::new(FIELD_COUNT as nat, |k: int| carried_before(items, items.len() as int, k))
}

/// A cell: the field's text (empty when absent), escaped for the delimiter.
pub open spec fn cell(v: Option<Seq<char>>, d: char) -> Seq<char> {
    escaped(
        match v {
            Some(t) => t,
            None => Seq::empty(),
        },
        d,
    )
}

pub open spec fn cells(item: ProductFeedItem, d: char) -> Seq<Seq<char>> {
    field_values(item).map_values(|v: Option<Seq<char>>| cell(v, d))
}

pub open spec fn header_row(items: Seq<ProductFeedItem>, d: char) -> Seq<char> {
    join(selected(columns(items), field_names()), seq![d])
}

pub open spec fn item_row(items: Seq<ProductFeedItem>, item: ProductFeedItem, d: char) -> Seq<char> {
    join(selected(columns(items), cells(item, d)), seq![d])
}

/// The whole text: nothing for no items; otherwise the header row and one
/// row per item, separated by line breaks.
pub open spec fn delimited_body(items: Seq<ProductFeedItem>, d: char) -> Seq<char> {
    if items.len() == 0 {
        Seq::empty()
    } else {
        join(
            seq![header_row(items, d)] + items.map_values(|it: ProductFeedItem| item_row(items, it, d)),
            "\n"@,
        )
    }
}

/// The media type of a delimited feed.
pub open spec fn spec_content_type(d: char) -> Seq<char> {
    if d == ',' {
        "text/csv"@
    } else if d == '\t' {
        "text/tab-separated-values"@
    } else {
        "text/plain"@
    }
}

pub fn content_type_for(d: char) -> (t: &'static str)
    ensures
        t@ == spec_content_type(d),
{
    if d == ',' {
        "text/csv"
    } else if d == '\t' {
        "text/tab-separated-values"
    } else {
        "text/plain"
    }
}

proof fn lemma_join_push(s: Seq<Seq<char>>, x: Seq<char>, sep: Seq<char>)
    ensures
        join(s.push(x), sep) == if s.len() == 0 {
            x
        } else {
            join(s, sep) + sep + x
        },
{
    assert(s.push(x).drop_last() =~= s);
}

/// Appends the flagged parts, separated by `d`.
fn push_selected(out: &mut String, flags: &Vec<bool>, parts: &Vec<String>, d: char)
    requires
        flags@.len() == parts@.len(),
    ensures
        final(out)@ == old(out)@ + join(selected(flags@, parts.deep_view()), seq![d]),
{
    let ghost start = old(out)@;
    let ghost pv = parts.deep_view();
    let mut any = false;
    let mut k: usize = 0;
    assert(pv.take(0) =~= Seq::<Seq<char>>::empty());
    while k < parts.len()
        invariant
            k <= parts.len() == flags.len(),
            pv == parts.deep_view(),
            any == (selected(flags@, pv.take(k as int)).len() > 0),
            out@ == start + join(selected(flags@, pv.take(k as int)), seq![d]),
        decreases parts.len() - k,
    {
        let ghost before = selected(flags@, pv.take(k as int));
        assert(pv.take(k + 1).drop_last() =~= pv.take(k as int));
        assert(pv[k as int] == parts@[k as int]@);
        if flags[k] {
            proof {
                lemma_join_push(before, pv[k as int], seq![d]);
            }
            if any {
                push_char(out, d);
            }
            push_str(out, parts[k].as_str());
            any = true;
            assert(out@ =~= start + join(selected(flags@, pv.take(k + 1)), seq![d]));
        }
        k = k + 1;
    }
    assert(pv.take(k as int) =~= pv);
}

proof fn lemma_selected_len(flags: Seq<bool>, a: Seq<Seq<char>>, b: Seq<Seq<char>>)
    requires
        a.len() == b.len(),
    ensures
        selected(flags, a).len() == selected(flags, b).len(),
    decreases a.len(),
{
    if a.len() > 0 {
        lemma_selected_len(flags, a.drop_last(), b.drop_last());
    }
}

/// Every row of a delimited feed has one cell for each column its header
/// names.
pub proof fn law_rows_fill_every_column(items: Seq<ProductFeedItem>, item: ProductFeedItem, d: char)
    ensures
        selected(columns(items), cells(item, d)).len() == selected(columns(items), field_names()).len(),
{
    assert(field_values(item).len() == FIELD_COUNT);
    assert(field_names().len() == FIELD_COUNT);
    lemma_selected_len(columns(items), cells(item, d), field_names());
}

/// Which fields some item carries (see `columns`).
fn column_flags(items: &Vec<ProductFeedItem>) -> (flags: Vec<bool>)
    ensures
        flags@ == columns(items@),
{
    let mut flags: Vec<bool> = Vec::new();
    let mut k: usize = 0;
    while k < FIELD_COUNT
        invariant
            k <= FIELD_COUNT,
            flags@.len() == k,
            forall|j: int| 0 <= j < k ==> !(#[trigger] flags@[j]),
        decreases FIELD_COUNT - k,
    {
        flags.push(false);
        k = k + 1;
    }
    let mut i: usize = 0;
    while i < items.len()
        invariant
            i <= items.len(),
            flags@.len() == FIELD_COUNT,
            forall|j: int| 0 <= j < FIELD_COUNT ==> (#[trigger] flags@[j]) == carried_before(items@, i as int, j),
        decreases items.len() - i,
    {
        let values = field_value_list(&items[i]);
        let ghost fv = field_values(items@[i as int]);
        let mut k: usize = 0;
        while k < FIELD_COUNT
            invariant
                k <= FIELD_COUNT,
                i < items.len(),
                flags@.len() == FIELD_COUNT,
                values@.len() == FIELD_COUNT,
                values.deep_view() == fv,
                fv == field_values(items@[i as int]),
                forall|j: int| 0 <= j < k ==> (#[trigger] flags@[j]) == carried_before(items@, i + 1, j),
                forall|j: int| k <= j < FIELD_COUNT ==> (#[trigger] flags@[j]) == carried_before(items@, i as int, j),
            decreases FIELD_COUNT - k,
        {
            assert(values.deep_view()[k as int] == fv[k as int]);
            let has = values[k].is_some();
            assert(has == carries(items@[i as int], k as int));
            if has {
                flags.set(k, true);
            }
            assert(carried_before(items@, i + 1, k as int) == (carried_before(items@, i as int, k as int) || carries(
                items@[i as int],
                k as int,
            )));
            k = k + 1;
        }
        i = i + 1;
    }
    assert(flags@ =~= columns(items@));
    flags
}

/// The cells of an item's fields.
fn cell_list(item: &ProductFeedItem, d: char) -> (cs: Vec<String>)
    ensures
        cs@.len() == FIELD_COUNT,
        cs.deep_view() == cells(*item, d),
{
    let values = field_value_list(item);
    let ghost fv = field_values(*item);
    let mut cs: Vec<String> = Vec::new();
    let mut k: usize = 0;
    while k < values.len()
        invariant
            k <= values.len(),
            values@.len() == FIELD_COUNT,
            values.deep_view() == fv,
            fv == field_values(*item),
            cs@.len() == k,
            forall|j: int| 0 <= j < k ==> (#[trigger] cs@[j])@ == cell(fv[j], d),
        decreases values.len() - k,
    {
        assert(values.deep_view()[k as int] == fv[k as int]);
        let c = match &values[k] {
            Some(t) => escape_field(t.as_str(), d),
            None => escape_field("", d),
        };
        proof {
            reveal_strlit("");
        }
        cs.push(c);
        k = k + 1;
    }
    assert(cs.deep_view() =~= cells(*item, d));
    cs
}

/// The feed as delimited text with its media type: a header row naming the
/// fields some item carries, then a row per item.
pub fn delimited_payload(items: &Vec<ProductFeedItem>, delimiter: char) -> (r: (String, &'static str))
    ensures
        r.0@ == delimited_body(items@, delimiter),
        r.1@ == spec_content_type(delimiter),
{
    let content_type = content_type_for(delimiter);
    if items.len() == 0 {
        return (String::new(), content_type);
    }
    let flags = column_flags(items);
    let names = field_name_list();
    let mut body = String::new();
    push_selected(&mut body, &flags, &names, delimiter);
    let ghost header = header_row(items@, delimiter);
    let ghost rows = items@.map_values(|it: ProductFeedItem| item_row(items@, it, delimiter));
    assert(body@ =~= join(seq![header], "\n"@));
    let mut i: usize = 0;
    while i < items.len()
        invariant
            i <= items.len(),
            flags@ == columns(items@),
            header == header_row(items@, delimiter),
            rows == items@.map_values(|it: ProductFeedItem| item_row(items@, it, delimiter)),
            body@ == join(seq![header] + rows.take(i as int), "\n"@),
        decreases items.len() - i,
    {
        let cs = cell_list(&items[i], delimiter);
        let mut row = String::new();
        push_selected(&mut row, &flags, &cs, delimiter);
        assert(row@ =~= rows[i as int]);
        proof {
            lemma_join_push(seq![header] + rows.take(i as int), rows[i as int], "\n"@);
            assert(seq![header] + rows.take(i + 1) =~= (seq![header] + rows.take(i as int)).push(rows[i as int]));
        }
        push_char(&mut body, '\n');
        push_str(&mut body, row.as_str());
        proof {
            reveal_strlit("\n");
        }
        i = i + 1;
        assert(body@ =~= join(seq![header] + rows.take(i as int), "\n"@));
    }
    assert(rows.take(i as int) =~= rows);
    (body, content_type)
}

} // verus!
