//! Feed options: formats, defaults derived from the shop's domain, and the
//! links of products and variants.
use vstd::prelude::*;
use crate::text::{
    chars_of, concat, concat3, find_str, first_occ, owned, replace_char, replace_char_in, split,
    string_from, string_of, trim_end_char, trim_end_matches_char,
};

verus! {

/// Supported output encodings of a feed.
#[derive(Debug, Clone, Copy, PartialEq, Eq, Structural)]
pub enum ProductFeedFormat {
    Json,
    Csv,
    Tsv,
}

impl ProductFeedFormat {
    pub open spec fn spec_name(self) -> Seq<char> {
        match self {
            ProductFeedFormat::Json => "json"@,
            ProductFeedFormat::Csv => "csv"@,
            ProductFeedFormat::Tsv => "tsv"@,
        }
    }

    /// The format's name, as it is displayed.
    pub fn name(&self) -> (s: &'static str)
        ensures
            s@ == self.spec_name(),
    {
        match self {
            ProductFeedFormat::Json => "json",
            ProductFeedFormat::Csv => "csv",
            ProductFeedFormat::Tsv => "tsv",
        }
    }

    /// JSON unless asked otherwise.
    pub fn default_format() -> (f: ProductFeedFormat)
        ensures
            f == ProductFeedFormat::Json,
    {
        ProductFeedFormat::Json
    }

    /// The format named `s`, in any case; other names are refused with
    /// `unsupported product feed format: <name in lower case>`.
    pub fn from_name(s: &str) -> (r: Result<ProductFeedFormat, String>)
        ensures
            match r {
                Ok(f) => f.spec_name() == lower_case(s@),
                Err(m) => lower_case(s@) != "json"@ && lower_case(s@) != "csv"@ && lower_case(s@) != "tsv"@
                    && m@ == "unsupported product feed format: "@ + lower_case(s@),
            },
    {
        let l = to_lowercase(s);
        if crate::text::str_eq(l.as_str(), "json") {
            Ok(ProductFeedFormat::Json)
        } else if crate::text::str_eq(l.as_str(), "csv") {
            Ok(ProductFeedFormat::Csv)
        } else if crate::text::str_eq(l.as_str(), "tsv") {
            Ok(ProductFeedFormat::Tsv)
        } else {
            Err(concat("unsupported product feed format: ", l.as_str()))
        }
    }
}

impl Default for ProductFeedFormat {
    fn default() -> (f: ProductFeedFormat)
        ensures
            f == ProductFeedFormat::Json,
    {
        ProductFeedFormat::Json
    }
}

impl std::str::FromStr for ProductFeedFormat {
    type Err = String;

    /// The format named `s`, in any case, as `from_name` reads it.
    fn from_str(s: &str) -> (r: Result<ProductFeedFormat, String>)
        ensures
            match r {
                Ok(f) => f.spec_name() == lower_case(s@),
                Err(m) => lower_case(s@) != "json"@ && lower_case(s@) != "csv"@ && lower_case(s@) != "tsv"@
                    && m@ == "unsupported product feed format: "@ + lower_case(s@),
            },
    {
        ProductFeedFormat::from_name(s)
    }
}

/// What `str::to_lowercase` gives for `s`.
pub uninterp spec fn lower_case(s: Seq<char>) -> Seq<char>;

/// `str::to_lowercase`. Its documentation maps each character by Unicode's
/// lowercase mapping; on ASCII text that is the ASCII lower case.
#[verifier::external_body]
pub(crate) fn to_lowercase(s: &str) -> (r: String)
    ensures
        r@ == lower_case(s@),
        crate::agentic::validate::all_ascii(s@) ==> r@ == crate::agentic::validate::lower_seq(s@),
{
    s.to_lowercase()
}

/// Credentials of the Shopify Admin API.
#[derive(Debug, Clone, PartialEq, Eq)]
pub struct ShopifyCredentials {
    pub shop_domain: String,
    pub access_token: String,
}

/// Request-level feed flags; unset ones take defaults.
#[derive(Debug, Clone, Default)]
pub struct ProductFeedOptions {
    pub enable_search: Option<bool>,
    pub enable_checkout: Option<bool>,
    pub currency: Option<String>,
    pub default_shipping_cost: Option<String>,
    pub seller_name: Option<String>,
    pub seller_url: Option<String>,
    pub product_base_url: Option<String>,
    pub seller_privacy_policy: Option<String>,
    pub seller_tos: Option<String>,
    pub return_policy: Option<String>,
    pub return_window: Option<u32>,
}

/// Parameters of a feed request.
#[derive(Debug, Clone)]
pub struct ProductFeedRequest {
    pub format: ProductFeedFormat,
    pub options: ProductFeedOptions,
    pub max_products: Option<usize>,
    pub push_to_openai: bool,
    pub openai_endpoint: Option<String>,
    pub openai_api_key: Option<String>,
}

/// Feed options with every default applied.
#[derive(Debug, Clone)]
pub struct NormalizedFeedOptions {
    pub enable_search: bool,
    pub enable_checkout: bool,
    pub currency: String,
    pub default_shipping_cost: String,
    pub seller_name: String,
    pub seller_url: String,
    pub product_base_url: Option<String>,
    pub seller_privacy_policy: Option<String>,
    pub seller_tos: Option<String>,
    pub return_policy: Option<String>,
    pub return_window: u32,
}

/// The host part of a URL: what lies between the first `://` and the next
/// one (or the whole input when it has none), without trailing slashes.
pub open spec fn canonical_domain(s: Seq<char>) -> Seq<char> {
    let piece = match first_occ(s, "://"@) {
        None => s,
        Some(i) => {
            let rest = s.skip(i + 3);
            match first_occ(rest, "://"@) {
                None => rest,
                Some(j) => rest.take(j),
            }
        },
    };
    trim_end_char(piece, '/')
}

pub fn canonicalize_domain(input: &str) -> (s: String)
    ensures
        s@ == canonical_domain(input@),
{
    proof {
        reveal_strlit("://");
    }
    let v = chars_of(input);
    let sep = chars_of("://");
    let piece = match find_str(&v, &sep) {
        None => string_from(&v),
        Some(i) => {
            assert(i + 3 <= v.len()) by {
                crate::feed::options::lemma_first_occ_fits(v@, sep@);
            }
            let rest = string_of(&v, i + 3, v.len());
            assert(rest@ =~= v@.skip(i + 3));
            let rv = chars_of(rest.as_str());
            match find_str(&rv, &sep) {
                None => rest,
                Some(j) => {
                    proof {
                        crate::feed::options::lemma_first_occ_fits(rv@, sep@);
                    }
                    let r = string_of(&rv, 0, j);
                    assert(r@ =~= rv@.take(j as int));
                    r
                },
            }
        },
    };
    trim_end_matches_char(piece.as_str(), '/')
}

/// A found occurrence lies within the text.
pub proof fn lemma_first_occ_fits(s: Seq<char>, pat: Seq<char>)
    ensures
        first_occ(s, pat) matches Some(i) ==> 0 <= i && i + pat.len() <= s.len(),
    decreases s.len(),
{
    if s.len() >= pat.len() && s.take(pat.len() as int) != pat && s.len() > 0 {
        lemma_first_occ_fits(s.drop_first(), pat);
    }
}

/// A seller name from a domain: its first label, with `-` and `_` read as
/// spaces; `merchant` when that is empty.
pub open spec fn default_seller_name(domain: Seq<char>) -> Seq<char> {
    let first = split(canonical_domain(domain), '.')[0];
    let primary = replace_char(replace_char(first, '-', ' '), '_', ' ');
    if primary.len() == 0 {
        "merchant"@
    } else {
        primary
    }
}

pub fn derive_default_seller_name(domain_hint: &str) -> (s: String)
    ensures
        s@ == default_seller_name(domain_hint@),
{
    let base = canonicalize_domain(domain_hint);
    let bv = chars_of(base.as_str());
    let parts = crate::text::split_chars(&bv, '.');
    proof {
        crate::text::lemma_split_nonempty(bv@, '.');
        assert(parts.deep_view()[0] =~= parts@[0]@);
    }
    let first = string_from(&parts[0]);
    let a = replace_char_in(first.as_str(), '-', ' ');
    let primary = replace_char_in(a.as_str(), '_', ' ');
    if chars_of(primary.as_str()).len() == 0 {
        owned("merchant")
    } else {
        primary
    }
}

/// The options with defaults: search and checkout on, USD, free shipping,
/// seller name and URL from the domain, product pages under the seller's
/// `/products`, and a 30-day return window.
pub open spec fn is_normalized(o: NormalizedFeedOptions, opts: ProductFeedOptions, domain_hint: Option<Seq<char>>) -> bool {
    let domain = canonical_domain(match domain_hint {
        Some(d) => d,
        None => "merchant.local"@,
    });
    let seller_url = match opts.seller_url {
        Some(u) => u@,
        None => "https://"@ + domain,
    };
    &&& o.enable_search == (match opts.enable_search { Some(b) => b, None => true })
    &&& o.enable_checkout == (match opts.enable_checkout { Some(b) => b, None => true })
    &&& o.currency@ == (match opts.currency { Some(c) => c@, None => "USD"@ })
    &&& o.default_shipping_cost@ == (match opts.default_shipping_cost { Some(c) => c@, None => "0.00"@ })
    &&& o.seller_name@ == (match opts.seller_name { Some(n) => n@, None => default_seller_name(domain) })
    &&& o.seller_url@ == seller_url
    &&& o.product_base_url matches Some(b) && b@ == (match opts.product_base_url {
        Some(p) => p@,
        None => trim_end_char(seller_url, '/') + "/products"@,
    })
    &&& o.seller_privacy_policy == opts.seller_privacy_policy
    &&& o.seller_tos == opts.seller_tos
    &&& o.return_policy == opts.return_policy
    &&& o.return_window == (match opts.return_window { Some(w) => w, None => 30 })
}

impl ProductFeedOptions {
    /// The options with defaults applied, the shop's domain (or
    /// `merchant.local`) standing for the seller.
    pub fn normalize(self, domain_hint: Option<&str>) -> (o: NormalizedFeedOptions)
        ensures
            is_normalized(o, self, match domain_hint {
                Some(d) => Some(d@),
                None => None,
            }),
    {
        let enable_search = match self.enable_search {
            Some(b) => b,
            None => true,
        };
        let enable_checkout = match self.enable_checkout {
            Some(b) => b,
            None => true,
        };
        let currency = match self.currency {
            Some(c) => c,
            None => owned("USD"),
        };
        let default_shipping_cost = match self.default_shipping_cost {
            Some(c) => c,
            None => owned("0.00"),
        };
        let hint = match domain_hint {
            Some(d) => d,
            None => "merchant.local",
        };
        let canonical = canonicalize_domain(hint);
        let seller_url = match self.seller_url {
            Some(u) => u,
            None => concat("https://", canonical.as_str()),
        };
        let seller_name = match self.seller_name {
            Some(n) => n,
            None => derive_default_seller_name(canonical.as_str()),
        };
        let product_base_url = match self.product_base_url {
            Some(p) => Some(p),
            None => {
                let t = trim_end_matches_char(seller_url.as_str(), '/');
                Some(concat(t.as_str(), "/products"))
            },
        };
        let return_window = match self.return_window {
            Some(w) => w,
            None => 30,
        };
        NormalizedFeedOptions {
            enable_search,
            enable_checkout,
            currency,
            default_shipping_cost,
            seller_name,
            seller_url,
            product_base_url,
            seller_privacy_policy: self.seller_privacy_policy,
            seller_tos: self.seller_tos,
            return_policy: self.return_policy,
            return_window,
        }
    }
}

/// A product's page under the base, and the variant's page under that.
pub open spec fn product_links(handle: Seq<char>, variant_id: Seq<char>, o: NormalizedFeedOptions) -> (Seq<char>, Seq<char>) {
    let base = match o.product_base_url {
        Some(b) => trim_end_char(b@, '/'),
        None => trim_end_char(o.seller_url@, '/') + "/products"@,
    };
    let product = base + "/"@ + handle;
    (product, product + "?variant="@ + variant_id)
}

pub fn build_product_links(handle: &str, variant_id: &str, options: &NormalizedFeedOptions) -> (r: (String, String))
    ensures
        (r.0@, r.1@) == product_links(handle@, variant_id@, *options),
{
    let base = match &options.product_base_url {
        Some(b) => trim_end_matches_char(b.as_str(), '/'),
        None => {
            let t = trim_end_matches_char(options.seller_url.as_str(), '/');
            concat(t.as_str(), "/products")
        },
    };
    let product_url = concat3(base.as_str(), "/", handle);
    let variant_url = concat3(product_url.as_str(), "?variant=", variant_id);
    (product_url, variant_url)
}

/// A request that wants checkout must name the seller's privacy policy,
/// terms of service and return policy.
pub fn check_checkout_policies(o: &NormalizedFeedOptions) -> (r: Result<(), String>)
    ensures
        match r {
            Ok(_) => !o.enable_checkout || (o.seller_privacy_policy is Some && o.seller_tos is Some
                && o.return_policy is Some),
            Err(m) => o.enable_checkout && (o.seller_privacy_policy is None || o.seller_tos is None
                || o.return_policy is None)
                && m@ == "When enable_checkout is true, seller_privacy_policy, seller_tos, and return_policy must be provided"@,
        },
{
    if o.enable_checkout && (o.seller_privacy_policy.is_none() || o.seller_tos.is_none() || o.return_policy.is_none()) {
        return Err(owned("When enable_checkout is true, seller_privacy_policy, seller_tos, and return_policy must be provided"));
    }
    Ok(())
}

} // verus!
