//! Parsing of `path:limit:window_secs` and `key:limit:window_secs` policy
//! specifications.
use std::time::Duration;
use vstd::prelude::*;
use vstd::hash_map::StringHashMap;
use crate::clock::{duration_from_secs, duration_nanos, NANOS_PER_SEC};
use crate::num::{dec_str, parse_u32, parse_u64, parse_unsigned};
use crate::text::{chars_of, is_blank, push_str, split, split_chars, string_from, trim, trim_bounds, trim_string, string_of};

verus! {

/// A rate limit that applies to request paths starting with `prefix`.
#[derive(Clone, Debug)]
pub struct PathPolicy {
    pub prefix: String,
    pub requests_per_window: u32,
    pub window_duration: Duration,
}

/// Prefix, limit and window length in nanoseconds.
pub open spec fn path_policy_view(p: PathPolicy) -> (Seq<char>, u32, nat) {
    (p.prefix@, p.requests_per_window, duration_nanos(p.window_duration))
}

/// Why a policy specification was rejected.
#[derive(Debug)]
pub enum PolicyParseError {
    InvalidFormat { spec: String, parts: usize },
    InvalidLimit { spec: String, value: String, reason: String },
    InvalidWindow { spec: String, value: String, reason: String },
    EmptySpec,
    InvalidPathFormat { path: String },
    WindowTooSmall { window_secs: u64 },
    LimitTooSmall { limit: u32 },
}

/// `PolicyParseError` with its texts as character sequences.
pub enum PolicyErrorView {
    InvalidFormat { spec: Seq<char>, parts: nat },
    InvalidLimit { spec: Seq<char>, value: Seq<char>, reason: Seq<char> },
    InvalidWindow { spec: Seq<char>, value: Seq<char>, reason: Seq<char> },
    EmptySpec,
    InvalidPathFormat { path: Seq<char> },
    WindowTooSmall { window_secs: nat },
    LimitTooSmall { limit: nat },
}

impl PolicyParseError {
    pub open spec fn view_of(&self) -> PolicyErrorView {
        match self {
            PolicyParseError::InvalidFormat { spec, parts } => PolicyErrorView::InvalidFormat {
                spec: spec@,
                parts: *parts as nat,
            },
            PolicyParseError::InvalidLimit { spec, value, reason } => PolicyErrorView::InvalidLimit {
                spec: spec@,
                value: value@,
                reason: reason@,
            },
            PolicyParseError::InvalidWindow { spec, value, reason } =>
                PolicyErrorView::InvalidWindow { spec: spec@, value: value@, reason: reason@ },
            PolicyParseError::EmptySpec => PolicyErrorView::EmptySpec,
            PolicyParseError::InvalidPathFormat { path } => PolicyErrorView::InvalidPathFormat {
                path: path@,
            },
            PolicyParseError::WindowTooSmall { window_secs } => PolicyErrorView::WindowTooSmall {
                window_secs: *window_secs as nat,
            },
            PolicyParseError::LimitTooSmall { limit } => PolicyErrorView::LimitTooSmall {
                limit: *limit as nat,
            },
        }
    }

    /// The error's display text.
    pub fn message(&self) -> (s: String)
        ensures
            s@ == error_message(self.view_of()),
    {
        let mut s = String::new();
        match self {
            PolicyParseError::InvalidFormat { spec, parts } => {
                push_str(&mut s, "Invalid policy format for '");
                push_str(&mut s, spec.as_str());
                push_str(
                    &mut s,
                    "': expected 'path:limit:window_secs' or 'key:limit:window_secs', got ",
                );
                crate::num::push_u128(&mut s, *parts as u128);
                push_str(&mut s, " parts");
            },
            PolicyParseError::InvalidLimit { spec, value, reason } => {
                push_str(&mut s, "Invalid limit value '");
                push_str(&mut s, value.as_str());
                push_str(&mut s, "' in policy '");
                push_str(&mut s, spec.as_str());
                push_str(&mut s, "': ");
                push_str(&mut s, reason.as_str());
            },
            PolicyParseError::InvalidWindow { spec, value, reason } => {
                push_str(&mut s, "Invalid window duration '");
                push_str(&mut s, value.as_str());
                push_str(&mut s, "' in policy '");
                push_str(&mut s, spec.as_str());
                push_str(&mut s, "': ");
                push_str(&mut s, reason.as_str());
            },
            PolicyParseError::EmptySpec => {
                push_str(&mut s, "Empty policy specification");
            },
            PolicyParseError::InvalidPathFormat { path } => {
                push_str(&mut s, "Path policy must start with '/': got '");
                push_str(&mut s, path.as_str());
                push_str(&mut s, "'");
            },
            PolicyParseError::WindowTooSmall { window_secs } => {
                push_str(&mut s, "Window duration must be at least 1 second, got ");
                crate::num::push_u128(&mut s, *window_secs as u128);
            },
            PolicyParseError::LimitTooSmall { limit } => {
                push_str(&mut s, "Limit must be at least 1, got ");
                crate::num::push_u128(&mut s, *limit as u128);
            },
        }
        assert(s@ =~= error_message(self.view_of()));
        s
    }
}

/// The display text of a policy error.
pub open spec fn error_message(e: PolicyErrorView) -> Seq<char> {
    match e {
        PolicyErrorView::InvalidFormat { spec, parts } => "Invalid policy format for '"@ + spec
            + "': expected 'path:limit:window_secs' or 'key:limit:window_secs', got "@ + dec_str(
            parts,
        ) + " parts"@,
        PolicyErrorView::InvalidLimit { spec, value, reason } => "Invalid limit value '"@ + value
            + "' in policy '"@ + spec + "': "@ + reason,
        PolicyErrorView::InvalidWindow { spec, value, reason } => "Invalid window duration '"@
            + value + "' in policy '"@ + spec + "': "@ + reason,
        PolicyErrorView::EmptySpec => "Empty policy specification"@,
        PolicyErrorView::InvalidPathFormat { path } => "Path policy must start with '/': got '"@
            + path + "'"@,
        PolicyErrorView::WindowTooSmall { window_secs } =>
            "Window duration must be at least 1 second, got "@ + dec_str(window_secs),
        PolicyErrorView::LimitTooSmall { limit } => "Limit must be at least 1, got "@ + dec_str(
            limit,
        ),
    }
}

/// Limit and window (in whole seconds) read from the last two fields of a
/// trimmed specification `t` whose `:`-separated fields are `parts`.
pub open spec fn spec_limit_window(t: Seq<char>, parts: Seq<Seq<char>>) -> Result<
    (u32, u64),
    PolicyErrorView,
> {
    match parse_unsigned(trim(parts[1]), u32::MAX as int) {
        Err(k) => Err(
            PolicyErrorView::InvalidLimit { spec: t, value: parts[1], reason: k.spec_message() },
        ),
        Ok(limit) => if limit < 1 {
            Err(PolicyErrorView::LimitTooSmall { limit: limit as nat })
        } else {
            match parse_unsigned(trim(parts[2]), u64::MAX as int) {
                Err(k) => Err(
                    PolicyErrorView::InvalidWindow {
                        spec: t,
                        value: parts[2],
                        reason: k.spec_message(),
                    },
                ),
                Ok(w) => if w < 1 {
                    Err(PolicyErrorView::WindowTooSmall { window_secs: w as nat })
                } else {
                    Ok((limit as u32, w as u64))
                },
            }
        },
    }
}

/// The outcome of parsing `path:limit:window_secs`: prefix, limit and
/// window in whole seconds.
pub open spec fn spec_parse_path_policy(s: Seq<char>) -> Result<(Seq<char>, u32, u64), PolicyErrorView> {
    let t = trim(s);
    let parts = split(t, ':');
    if t.len() == 0 {
        Err(PolicyErrorView::EmptySpec)
    } else if parts.len() != 3 {
        Err(PolicyErrorView::InvalidFormat { spec: t, parts: parts.len() })
    } else if !(trim(parts[0]).len() > 0 && trim(parts[0])[0] == '/') {
        Err(PolicyErrorView::InvalidPathFormat { path: trim(parts[0]) })
    } else {
        match spec_limit_window(t, parts) {
            Err(e) => Err(e),
            Ok((limit, w)) => Ok((trim(parts[0]), limit, w)),
        }
    }
}

/// The outcome of parsing `key:limit:window_secs`: key, limit and window in
/// whole seconds.
pub open spec fn spec_parse_key_policy(s: Seq<char>) -> Result<(Seq<char>, u32, u64), PolicyErrorView> {
    let t = trim(s);
    let parts = split(t, ':');
    if t.len() == 0 {
        Err(PolicyErrorView::EmptySpec)
    } else if parts.len() != 3 {
        Err(PolicyErrorView::InvalidFormat { spec: t, parts: parts.len() })
    } else if trim(parts[0]).len() == 0 {
        Err(PolicyErrorView::EmptySpec)
    } else {
        match spec_limit_window(t, parts) {
            Err(e) => Err(e),
            Ok((limit, w)) => Ok((trim(parts[0]), limit, w)),
        }
    }
}

/// An accepted key policy has exactly three `:`-separated fields; its key
/// is the first field trimmed, is not empty, holds no `:` and has no
/// surrounding white space; its limit and window are at least one.
pub proof fn law_accepted_key_policy(s: Seq<char>)
    ensures
        spec_parse_key_policy(s) matches Ok((key, limit, w)) ==> {
            &&& split(trim(s), ':').len() == 3
            &&& key == trim(split(trim(s), ':')[0])
            &&& key.len() > 0
            &&& trim(key) == key
            &&& forall|j: int| 0 <= j < key.len() ==> #[trigger] key[j] != ':'
            &&& limit >= 1
            &&& w >= 1
        },
{
    if spec_parse_key_policy(s) is Ok {
        let parts = split(trim(s), ':');
        crate::text::lemma_split_pieces_free(trim(s), ':');
        crate::text::lemma_trim_chars(parts[0]);
        crate::text::lemma_trim_idempotent(parts[0]);
        let key = trim(parts[0]);
        assert forall|j: int| 0 <= j < key.len() implies #[trigger] key[j] != ':' by {
            let k = choose|k: int| 0 <= k < parts[0].len() && parts[0][k] == key[j];
            assert(parts[0][k] != ':');
        }
        let t = trim(s);
        let l1 = trim(parts[1]);
        let l2 = trim(parts[2]);
        crate::num::lemma_scan_bounds(l1, 0, u32::MAX as int);
        crate::num::lemma_scan_bounds(l1.drop_first(), 0, u32::MAX as int);
        crate::num::lemma_scan_bounds(l2, 0, u64::MAX as int);
        crate::num::lemma_scan_bounds(l2.drop_first(), 0, u64::MAX as int);
        assert(split(trim(s), ':').len() == 3);
        assert(key.len() > 0);
    }
}

/// Reads the limit and window fields of a specification already split into
/// three fields.
fn parse_limit_window(t: &String, parts: &Vec<Vec<char>>) -> (r: Result<(u32, u64), PolicyParseError>)
    requires
        parts.len() == 3,
    ensures
        match spec_limit_window(t@, parts.deep_view()) {
            Ok(v) => r matches Ok(x) && x == v,
            Err(e) => r matches Err(x) && x.view_of() == e,
        },
{
    let ghost pv = parts.deep_view();
    assert(pv[1] =~= parts@[1]@);
    assert(pv[2] =~= parts@[2]@);
    let (a1, b1) = trim_bounds(&parts[1]);
    let limit_text = string_of(&parts[1], a1, b1);
    let limit = match parse_u32(limit_text.as_str()) {
        Ok(v) => v,
        Err(k) => {
            return Err(PolicyParseError::InvalidLimit {
                spec: t.clone(),
                value: string_from(&parts[1]),
                reason: k.message(),
            });
        },
    };
    if limit < 1 {
        return Err(PolicyParseError::LimitTooSmall { limit });
    }
    let (a2, b2) = trim_bounds(&parts[2]);
    let window_text = string_of(&parts[2], a2, b2);
    let window_secs = match parse_u64(window_text.as_str()) {
        Ok(v) => v,
        Err(k) => {
            return Err(PolicyParseError::InvalidWindow {
                spec: t.clone(),
                value: string_from(&parts[2]),
                reason: k.message(),
            });
        },
    };
    if window_secs < 1 {
        return Err(PolicyParseError::WindowTooSmall { window_secs });
    }
    Ok((limit, window_secs))
}

/// Parses `path:limit:window_secs` (for example `/api/v1/orders:100:60`).
/// Surrounding white space is ignored, in the whole text and in each field.
pub fn parse_path_policy(spec: &str) -> (r: Result<PathPolicy, PolicyParseError>)
    ensures
        match spec_parse_path_policy(spec@) {
            Ok((prefix, limit, w)) => r matches Ok(p) && path_policy_view(p) == (
                prefix,
                limit,
                (w * NANOS_PER_SEC) as nat,
            ),
            Err(e) => r matches Err(x) && x.view_of() == e,
        },
{
    let t = trim_string(spec);
    if is_blank(t.as_str()) {
        proof { crate::text::lemma_trim_idempotent(spec@); }
        return Err(PolicyParseError::EmptySpec);
    }
    proof { crate::text::lemma_trim_idempotent(spec@); }
    let tv = chars_of(t.as_str());
    let parts = split_chars(&tv, ':');
    if parts.len() != 3 {
        return Err(PolicyParseError::InvalidFormat { spec: t, parts: parts.len() });
    }
    let ghost pv = parts.deep_view();
    assert(pv[0] =~= parts@[0]@);
    let (a0, b0) = trim_bounds(&parts[0]);
    let path = string_of(&parts[0], a0, b0);
    if !(b0 > a0 && parts[0][a0] == '/') {
        return Err(PolicyParseError::InvalidPathFormat { path });
    }
    match parse_limit_window(&t, &parts) {
        Err(e) => Err(e),
        Ok((limit, window_secs)) => Ok(
            PathPolicy {
                prefix: path,
                requests_per_window: limit,
                window_duration: duration_from_secs(window_secs),
            },
        ),
    }
}

/// Parses `key:limit:window_secs` (for example `sk_live_abc123:1000:60`)
/// into the key and its limit and window.
pub fn parse_key_policy(spec: &str) -> (r: Result<(String, (u32, Duration)), PolicyParseError>)
    ensures
        match spec_parse_key_policy(spec@) {
            Ok((key, limit, w)) => r matches Ok(p) && p.0@ == key && p.1.0 == limit
                && duration_nanos(p.1.1) == w * NANOS_PER_SEC,
            Err(e) => r matches Err(x) && x.view_of() == e,
        },
{
    let t = trim_string(spec);
    if is_blank(t.as_str()) {
        proof { crate::text::lemma_trim_idempotent(spec@); }
        return Err(PolicyParseError::EmptySpec);
    }
    proof { crate::text::lemma_trim_idempotent(spec@); }
    let tv = chars_of(t.as_str());
    let parts = split_chars(&tv, ':');
    if parts.len() != 3 {
        return Err(PolicyParseError::InvalidFormat { spec: t, parts: parts.len() });
    }
    let ghost pv = parts.deep_view();
    assert(pv[0] =~= parts@[0]@);
    let (a0, b0) = trim_bounds(&parts[0]);
    if a0 == b0 {
        return Err(PolicyParseError::EmptySpec);
    }
    let key = string_of(&parts[0], a0, b0);
    match parse_limit_window(&t, &parts) {
        Err(e) => Err(e),
        Ok((limit, window_secs)) => Ok((key, (limit, duration_from_secs(window_secs)))),
    }
}

/// The policies and warnings that `parse_path_policies` gives for the
/// comma-separated fields `ps`, processed in order: blank fields are
/// skipped, valid ones kept, invalid ones reported.
pub open spec fn fold_path_policies(ps: Seq<Seq<char>>) -> (Seq<(Seq<char>, u32, nat)>, Seq<Seq<char>>)
    decreases ps.len(),
{
    if ps.len() == 0 {
        (Seq::empty(), Seq::empty())
    } else {
        let (pol, warn) = fold_path_policies(ps.drop_last());
        let q = trim(ps.last());
        if q.len() == 0 {
            (pol, warn)
        } else {
            match spec_parse_path_policy(q) {
                Ok((prefix, limit, w)) => (pol.push((prefix, limit, (w * NANOS_PER_SEC) as nat)), warn),
                Err(e) => (pol, warn.push("Skipping invalid path policy '"@ + q + "': "@ + error_message(e))),
            }
        }
    }
}

/// How many of the fields are not blank.
pub open spec fn nonblank_fields(ps: Seq<Seq<char>>) -> nat
    decreases ps.len(),
{
    if ps.len() == 0 {
        0
    } else {
        nonblank_fields(ps.drop_last()) + if trim(ps.last()).len() > 0 { 1nat } else { 0nat }
    }
}

/// How many of the fields are not blank and parse as path policies.
pub open spec fn accepted_path_fields(ps: Seq<Seq<char>>) -> nat
    decreases ps.len(),
{
    if ps.len() == 0 {
        0
    } else {
        accepted_path_fields(ps.drop_last()) + if trim(ps.last()).len() > 0 && spec_parse_path_policy(trim(ps.last())) is Ok {
            1nat
        } else {
            0nat
        }
    }
}

/// Every non-blank field of a path-policy list is accounted for: each one
/// that parses gives one policy, each one that does not gives one warning,
/// so policies and warnings together number the non-blank fields.
pub proof fn law_path_fields_accounted_for(ps: Seq<Seq<char>>)
    ensures
        fold_path_policies(ps).0.len() == accepted_path_fields(ps),
        fold_path_policies(ps).1.len() == nonblank_fields(ps) - accepted_path_fields(ps),
        accepted_path_fields(ps) <= nonblank_fields(ps),
    decreases ps.len(),
{
    if ps.len() > 0 {
        law_path_fields_accounted_for(ps.drop_last());
    }
}

/// The map and warnings that `parse_key_policies` gives for the
/// comma-separated fields `ps`; a later entry for a key replaces an earlier
/// one and is reported.
pub open spec fn fold_key_policies(ps: Seq<Seq<char>>) -> (Map<Seq<char>, (u32, nat)>, Seq<Seq<char>>)
    decreases ps.len(),
{
    if ps.len() == 0 {
        (Map::empty(), Seq::empty())
    } else {
        let (m, warn) = fold_key_policies(ps.drop_last());
        let q = trim(ps.last());
        if q.len() == 0 {
            (m, warn)
        } else {
            match spec_parse_key_policy(q) {
                Ok((key, limit, w)) => (
                    m.insert(key, (limit, (w * NANOS_PER_SEC) as nat)),
                    if m.contains_key(key) {
                        warn.push("Duplicate key '"@ + key + "' in policies, using last value"@)
                    } else {
                        warn
                    },
                ),
                Err(e) => (m, warn.push("Skipping invalid key policy '"@ + q + "': "@ + error_message(e))),
            }
        }
    }
}

pub open spec fn policies_view(v: Seq<PathPolicy>) -> Seq<(Seq<char>, u32, nat)> {
    v.map_values(|p: PathPolicy| path_policy_view(p))
}

pub open spec fn strings_view(v: Seq<String>) -> Seq<Seq<char>> {
    v.map_values(|w: String| w@)
}

/// Limits and windows (in nanoseconds) of a key-policy map.
pub open spec fn key_map_view(m: Map<Seq<char>, (u32, Duration)>) -> Map<Seq<char>, (u32, nat)> {
    m.map_values(|v: (u32, Duration)| (v.0, duration_nanos(v.1)))
}

fn warning(lead: &str, field: &Vec<char>, tail: &str) -> (s: String)
    ensures
        s@ == lead@ + field@ + tail@,
{
    let mut s = String::new();
    push_str(&mut s, lead);
    let f = string_from(field);
    push_str(&mut s, f.as_str());
    push_str(&mut s, tail);
    assert(s@ =~= lead@ + field@ + tail@);
    s
}

/// Parses comma-separated path policies (for example
/// `/api/v1/orders:100:60,/api/v1/inventory:200:60`). Invalid entries are
/// skipped with a warning naming them.
pub fn parse_path_policies(policies_str: &str) -> (r: (Vec<PathPolicy>, Vec<String>))
    ensures
        (policies_view(r.0@), strings_view(r.1@)) == fold_path_policies(split(policies_str@, ',')),
{
    let sv = chars_of(policies_str);
    let fields = split_chars(&sv, ',');
    let ghost fv = fields.deep_view();
    let mut policies: Vec<PathPolicy> = Vec::new();
    let mut warnings: Vec<String> = Vec::new();
    let mut i: usize = 0;
    proof {
        assert(fv.take(0) =~= Seq::<Seq<char>>::empty());
        assert(policies_view(policies@) =~= Seq::<(Seq<char>, u32, nat)>::empty());
        assert(strings_view(warnings@) =~= Seq::<Seq<char>>::empty());
    }
    while i < fields.len()
        invariant
            i <= fields.len(),
            fv == fields.deep_view(),
            fv == split(policies_str@, ','),
            (policies_view(policies@), strings_view(warnings@)) == fold_path_policies(fv.take(i as int)),
        decreases fields.len() - i,
    {
        let ghost before = fv.take(i as int);
        let ghost pol0 = policies@;
        let ghost warn0 = warnings@;
        proof {
            assert(fv.take(i + 1).drop_last() =~= before);
            assert(fv.take(i + 1).last() == fv[i as int]);
            assert(fv[i as int] =~= fields@[i as int]@);
        }
        let (a, b) = trim_bounds(&fields[i]);
        if a < b {
            let piece = string_of(&fields[i], a, b);
            proof { crate::text::lemma_trim_idempotent(fields@[i as int]@); }
            match parse_path_policy(piece.as_str()) {
                Ok(p) => {
                    policies.push(p);
                    proof {
                        assert(policies_view(policies@) =~= policies_view(pol0).push(path_policy_view(policies@.last())));
                    }
                },
                Err(e) => {
                    let msg = e.message();
                    let pv = chars_of(piece.as_str());
                    let mut w = warning("Skipping invalid path policy '", &pv, "': ");
                    push_str(&mut w, msg.as_str());
                    warnings.push(w);
                    proof {
                        assert(strings_view(warnings@) =~= strings_view(warn0).push(warnings@.last()@));
                    }
                },
            }
        }
        i = i + 1;
    }
    proof {
        assert(fv.take(fields.len() as int) =~= fv);
    }
    (policies, warnings)
}

/// Parses comma-separated key policies (for example
/// `sk_live_abc:1000:60,sk_live_xyz:500:60`) into a map from key to limit
/// and window. A repeated key keeps its last value and is reported.
pub fn parse_key_policies(policies_str: &str) -> (r: (StringHashMap<(u32, Duration)>, Vec<String>))
    ensures
        (key_map_view(r.0@), strings_view(r.1@)) == fold_key_policies(split(policies_str@, ',')),
{
    let sv = chars_of(policies_str);
    let fields = split_chars(&sv, ',');
    let ghost fv = fields.deep_view();
    let mut policies: StringHashMap<(u32, Duration)> = StringHashMap::new();
    let mut warnings: Vec<String> = Vec::new();
    let mut i: usize = 0;
    proof {
        assert(fv.take(0) =~= Seq::<Seq<char>>::empty());
        assert(key_map_view(policies@) =~= Map::<Seq<char>, (u32, nat)>::empty());
        assert(strings_view(warnings@) =~= Seq::<Seq<char>>::empty());
    }
    while i < fields.len()
        invariant
            i <= fields.len(),
            fv == fields.deep_view(),
            fv == split(policies_str@, ','),
            (key_map_view(policies@), strings_view(warnings@)) == fold_key_policies(fv.take(i as int)),
        decreases fields.len() - i,
    {
        let ghost before = fv.take(i as int);
        let ghost map0 = policies@;
        let ghost warn0 = warnings@;
        proof {
            assert(fv.take(i + 1).drop_last() =~= before);
            assert(fv.take(i + 1).last() == fv[i as int]);
            assert(fv[i as int] =~= fields@[i as int]@);
        }
        let (a, b) = trim_bounds(&fields[i]);
        if a < b {
            let piece = string_of(&fields[i], a, b);
            proof { crate::text::lemma_trim_idempotent(fields@[i as int]@); }
            match parse_key_policy(piece.as_str()) {
                Ok((key, value)) => {
                    if policies.contains_key(key.as_str()) {
                        let kv = chars_of(key.as_str());
                        let w = warning("Duplicate key '", &kv, "' in policies, using last value");
                        warnings.push(w);
                        proof {
                            assert(strings_view(warnings@) =~= strings_view(warn0).push(warnings@.last()@));
                        }
                    }
                    let ghost kview = key@;
                    let ghost val = value;
                    policies.insert(key, value);
                    proof {
                        assert(key_map_view(policies@) =~= key_map_view(map0).insert(kview, (val.0, duration_nanos(val.1))));
                        assert(key_map_view(map0).contains_key(kview) == map0.contains_key(kview));
                    }
                },
                Err(e) => {
                    let msg = e.message();
                    let pv = chars_of(piece.as_str());
                    let mut w = warning("Skipping invalid key policy '", &pv, "': ");
                    push_str(&mut w, msg.as_str());
                    warnings.push(w);
                    proof {
                        assert(strings_view(warnings@) =~= strings_view(warn0).push(warnings@.last()@));
                    }
                },
            }
        }
        i = i + 1;
    }
    proof {
        assert(fv.take(fields.len() as int) =~= fv);
    }
    (policies, warnings)
}

/// Every policy read from configuration, with the warnings met on the way.
pub struct ParsedPolicies {
    pub path_policies: Vec<PathPolicy>,
    pub api_key_policies: StringHashMap<(u32, Duration)>,
    pub user_policies: StringHashMap<(u32, Duration)>,
    pub warnings: Vec<String>,
}

impl Default for ParsedPolicies {
    fn default() -> (r: ParsedPolicies)
        ensures
            r.path_policies@.len() == 0,
            r.api_key_policies@ == Map::<Seq<char>, (u32, Duration)>::empty(),
            r.user_policies@ == Map::<Seq<char>, (u32, Duration)>::empty(),
            r.warnings@.len() == 0,
    {
        ParsedPolicies {
            path_policies: Vec::new(),
            api_key_policies: StringHashMap::new(),
            user_policies: StringHashMap::new(),
            warnings: Vec::new(),
        }
    }
}

/// The warnings of one optional policy string, or none when it is absent.
pub open spec fn path_warnings(s: Option<Seq<char>>) -> Seq<Seq<char>> {
    match s {
        Some(t) => fold_path_policies(split(t, ',')).1,
        None => Seq::empty(),
    }
}

pub open spec fn key_warnings(s: Option<Seq<char>>) -> Seq<Seq<char>> {
    match s {
        Some(t) => fold_key_policies(split(t, ',')).1,
        None => Seq::empty(),
    }
}

pub open spec fn opt_view(s: Option<&str>) -> Option<Seq<char>> {
    match s {
        Some(t) => Some(t@),
        None => None,
    }
}

/// Parses the three optional policy strings of the configuration: path
/// policies, API-key policies and user policies. An absent string leaves its
/// part empty; the warnings of all three are kept in that order.
pub fn parse_all_policies(
    path_policies: Option<&str>,
    api_key_policies: Option<&str>,
    user_policies: Option<&str>,
) -> (r: ParsedPolicies)
    ensures
        policies_view(r.path_policies@) == match path_policies {
            Some(t) => fold_path_policies(split(t@, ',')).0,
            None => Seq::empty(),
        },
        key_map_view(r.api_key_policies@) == match api_key_policies {
            Some(t) => fold_key_policies(split(t@, ',')).0,
            None => Map::empty(),
        },
        key_map_view(r.user_policies@) == match user_policies {
            Some(t) => fold_key_policies(split(t@, ',')).0,
            None => Map::empty(),
        },
        strings_view(r.warnings@) == path_warnings(opt_view(path_policies)) + key_warnings(
            opt_view(api_key_policies),
        ) + key_warnings(opt_view(user_policies)),
{
    let mut result = ParsedPolicies::default();
    proof {
        assert(policies_view(result.path_policies@) =~= Seq::<(Seq<char>, u32, nat)>::empty());
        assert(key_map_view(result.api_key_policies@) =~= Map::<Seq<char>, (u32, nat)>::empty());
        assert(key_map_view(result.user_policies@) =~= Map::<Seq<char>, (u32, nat)>::empty());
        assert(strings_view(result.warnings@) =~= Seq::<Seq<char>>::empty());
    }
    if let Some(path_str) = path_policies {
        let (policies, mut warnings) = parse_path_policies(path_str);
        result.path_policies = policies;
        let ghost w0 = result.warnings@;
        let ghost w1 = warnings@;
        result.warnings.append(&mut warnings);
        proof { assert(strings_view(result.warnings@) =~= strings_view(w0) + strings_view(w1)); }
    }
    let ghost after_path = strings_view(result.warnings@);
    if let Some(api_key_str) = api_key_policies {
        let (policies, mut warnings) = parse_key_policies(api_key_str);
        result.api_key_policies = policies;
        let ghost w0 = result.warnings@;
        let ghost w1 = warnings@;
        result.warnings.append(&mut warnings);
        proof { assert(strings_view(result.warnings@) =~= strings_view(w0) + strings_view(w1)); }
    }
    let ghost after_key = strings_view(result.warnings@);
    if let Some(user_str) = user_policies {
        let (policies, mut warnings) = parse_key_policies(user_str);
        result.user_policies = policies;
        let ghost w0 = result.warnings@;
        let ghost w1 = warnings@;
        result.warnings.append(&mut warnings);
        proof { assert(strings_view(result.warnings@) =~= strings_view(w0) + strings_view(w1)); }
    }
    proof {
        assert(after_path =~= Seq::<Seq<char>>::empty() + path_warnings(opt_view(path_policies)));
        assert(after_key =~= after_path + key_warnings(opt_view(api_key_policies)));
        assert(strings_view(result.warnings@) =~= after_key + key_warnings(opt_view(user_policies)));
    }
    result
}

/// Parsing the three policy strings together gives what parsing each one
/// alone gives: the same path policies, the same two key maps, and the
/// three lists of warnings one after the other (path, API key, user).
pub proof fn law_combined_parse_is_separate_parses(
    path: Seq<char>,
    api: Seq<char>,
    user: Seq<char>,
    r: ParsedPolicies,
    p: (Vec<PathPolicy>, Vec<String>),
    a: (StringHashMap<(u32, Duration)>, Vec<String>),
    u: (StringHashMap<(u32, Duration)>, Vec<String>),
)
    requires
        (policies_view(p.0@), strings_view(p.1@)) == fold_path_policies(split(path, ',')),
        (key_map_view(a.0@), strings_view(a.1@)) == fold_key_policies(split(api, ',')),
        (key_map_view(u.0@), strings_view(u.1@)) == fold_key_policies(split(user, ',')),
        policies_view(r.path_policies@) == fold_path_policies(split(path, ',')).0,
        key_map_view(r.api_key_policies@) == fold_key_policies(split(api, ',')).0,
        key_map_view(r.user_policies@) == fold_key_policies(split(user, ',')).0,
        strings_view(r.warnings@) == path_warnings(Some(path)) + key_warnings(Some(api)) + key_warnings(Some(user)),
    ensures
        policies_view(r.path_policies@) == policies_view(p.0@),
        key_map_view(r.api_key_policies@) == key_map_view(a.0@),
        key_map_view(r.user_policies@) == key_map_view(u.0@),
        strings_view(r.warnings@) == strings_view(p.1@) + strings_view(a.1@) + strings_view(u.1@),
{
}

} // verus!
