//! Text shaping for feeds: tag stripping, handles, delimited fields and
//! pagination links.
use vstd::prelude::*;
use crate::feed::options::lemma_first_occ_fits;
use crate::text::{chars_of, first_occ, is_prefix, is_suffix, is_whitespace, is_ws, owned, push_char, split, split_chars, string_of, trim, trim_bounds, trim_end_char};

verus! {

/// A single `c` first occurs at `k` when it is there and not before.
pub proof fn lemma_first_occ_char(s: Seq<char>, c: char, k: int)
    requires
        0 <= k < s.len(),
        s[k] == c,
        forall|m: int| 0 <= m < k ==> s[m] != c,
    ensures
        first_occ(s, seq![c]) == Some(k),
    decreases k,
{
    if k == 0 {
        assert(s.take(1) =~= seq![c]);
    } else {
        assert(s.take(1) != seq![c]) by {
            assert(s.take(1)[0] == s[0]);
        }
        lemma_first_occ_char(s.drop_first(), c, k - 1);
    }
}

/// A character that is absent never occurs.
pub proof fn lemma_first_occ_char_none(s: Seq<char>, c: char)
    requires
        forall|m: int| 0 <= m < s.len() ==> s[m] != c,
    ensures
        first_occ(s, seq![c]) is None,
    decreases s.len(),
{
    if s.len() > 0 {
        assert(s.take(1) != seq![c]) by {
            assert(s.take(1)[0] == s[0]);
        }
        lemma_first_occ_char_none(s.drop_first(), c);
    }
}

/// `s` without its `<...>` tags: each `<` that has a `>` after it starts a
/// tag that ends at the first such `>` (the pattern `<[^>]*>`, replaced by
/// nothing).
pub open spec fn strip_tags(s: Seq<char>) -> Seq<char>
    decreases s.len(),
{
    if s.len() == 0 {
        s
    } else if s[0] == '<' && first_occ(s, seq!['>']) is Some {
        let j = first_occ(s, seq!['>']).unwrap();
        proof {
            lemma_first_occ_fits(s, seq!['>']);
            if j == 0 {
                assert(s.take(1)[0] == s[0]);
            }
        }
        if j >= 0 && j < s.len() {
            strip_tags(s.skip(j + 1))
        } else {
            s
        }
    } else {
        seq![s[0]] + strip_tags(s.drop_first())
    }
}

/// Removes HTML tags.
pub fn strip_html(input: &str) -> (s: String)
    ensures
        s@ == strip_tags(input@),
{
    let v = chars_of(input);
    let n = v.len();
    let mut out = String::new();
    let mut i: usize = 0;
    assert(v@.skip(0) =~= v@);
    while i < n
        invariant
            i <= n == v.len(),
            out@ + strip_tags(v@.skip(i as int)) == strip_tags(input@),
            v@ == input@,
        decreases n - i,
    {
        let ghost t = v@.skip(i as int);
        let c = v[i];
        if c == '<' {
            let mut j = i + 1;
            while j < n && v[j] != '>'
                invariant
                    i < j <= n == v.len(),
                    v@[i as int] == '<',
                    forall|m: int| i <= m < j ==> v@[m] != '>',
                decreases n - j,
            {
                j = j + 1;
            }
            if j < n {
                proof {
                    assert forall|m: int| 0 <= m < j - i implies t[m] != '>' by {
                        assert(t[m] == v@[i + m]);
                    }
                    lemma_first_occ_char(t, '>', j - i);
                    assert(t.skip(j - i + 1) =~= v@.skip(j + 1));
                }
                i = j + 1;
            } else {
                proof {
                    assert forall|m: int| 0 <= m < t.len() implies t[m] != '>' by {
                        assert(t[m] == v@[i + m]);
                    }
                    lemma_first_occ_char_none(t, '>');
                    assert(t.drop_first() =~= v@.skip(i + 1));
                }
                let ghost before = out@;
                push_char(&mut out, c);
                assert(before + (seq![c] + strip_tags(t.drop_first())) =~= out@ + strip_tags(v@.skip(i + 1)));
                i = i + 1;
            }
        } else {
            proof {
                assert(t.drop_first() =~= v@.skip(i + 1));
            }
            let ghost before = out@;
            push_char(&mut out, c);
            assert(before + (seq![c] + strip_tags(t.drop_first())) =~= out@ + strip_tags(v@.skip(i + 1)));
            i = i + 1;
        }
    }
    assert(strip_tags(v@.skip(n as int)) =~= Seq::<char>::empty()) by {
        assert(v@.skip(n as int).len() == 0);
    }
    assert(out@ + Seq::<char>::empty() =~= out@);
    out
}

/// Each `"` doubled.
pub open spec fn double_quotes(s: Seq<char>) -> Seq<char>
    decreases s.len(),
{
    if s.len() == 0 {
        s
    } else {
        double_quotes(s.drop_last()) + if s.last() == '"' { seq!['"', '"'] } else { seq![s.last()] }
    }
}

/// A field quoted as CSV wants it: fields holding the delimiter, a quote or
/// a line break are wrapped in quotes with their quotes doubled.
pub open spec fn escaped(value: Seq<char>, delimiter: char) -> Seq<char> {
    if crate::text::has_char(value, delimiter) || crate::text::has_char(value, '"') || crate::text::has_char(value, '\n') {
        seq!['"'] + double_quotes(value) + seq!['"']
    } else {
        value
    }
}

pub fn escape_field(value: &str, delimiter: char) -> (s: String)
    ensures
        s@ == escaped(value@, delimiter),
{
    let v = chars_of(value);
    if crate::text::contains_char(&v, delimiter) || crate::text::contains_char(&v, '"') || crate::text::contains_char(&v, '\n') {
        let mut s = String::new();
        push_char(&mut s, '"');
        let mut i: usize = 0;
        while i < v.len()
            invariant
                i <= v.len(),
                v@ == value@,
                s@ == seq!['"'] + double_quotes(v@.take(i as int)),
            decreases v.len() - i,
        {
            let ghost before = s@;
            if v[i] == '"' {
                push_char(&mut s, '"');
                push_char(&mut s, '"');
            } else {
                push_char(&mut s, v[i]);
            }
            assert(v@.take(i + 1).drop_last() =~= v@.take(i as int));
            i = i + 1;
            assert(s@ =~= seq!['"'] + double_quotes(v@.take(i as int)));
        }
        push_char(&mut s, '"');
        assert(v@.take(i as int) =~= v@);
        s
    } else {
        owned(value)
    }
}

/// The target of a `Link` header segment marked `rel="next"`: the part
/// before its first `;`, trimmed, between `<` and `>`.
pub open spec fn next_target(seg: Seq<char>) -> Option<Seq<char>> {
    let s = trim(seg);
    if is_suffix("rel=\"next\""@, s) {
        let part = trim(split(s, ';')[0]);
        if is_prefix("<"@, part) && part.len() >= 2 && part.last() == '>' {
            Some(part.subrange(1, part.len() - 1))
        } else {
            None
        }
    } else {
        None
    }
}

/// The first segment that yields a target.
pub open spec fn first_target(segs: Seq<Seq<char>>) -> Option<Seq<char>>
    decreases segs.len(),
{
    if segs.len() == 0 {
        None
    } else {
        match next_target(segs[0]) {
            Some(t) => Some(t),
            None => first_target(segs.drop_first()),
        }
    }
}

fn segment_target(seg: &Vec<char>) -> (r: Option<String>)
    ensures
        match r {
            Some(t) => next_target(seg@) == Some(t@),
            None => next_target(seg@) is None,
        },
{
    let (a, b) = trim_bounds(seg);
    let s = string_of(seg, a, b);
    let sv = chars_of(s.as_str());
    let marker = chars_of("rel=\"next\"");
    if !crate::text::ends_with(&sv, &marker) {
        return None;
    }
    let pieces = split_chars(&sv, ';');
    proof {
        crate::text::lemma_split_nonempty(sv@, ';');
        assert(pieces.deep_view()[0] =~= pieces@[0]@);
    }
    let (c, d) = trim_bounds(&pieces[0]);
    let part = string_of(&pieces[0], c, d);
    let pv = chars_of(part.as_str());
    proof {
        reveal_strlit("<");
    }
    if pv.len() >= 2 && pv[0] == '<' && pv[pv.len() - 1] == '>' {
        assert(pv@.subrange(0, 1) =~= "<"@);
        Some(string_of(&pv, 1, pv.len() - 1))
    } else {
        proof {
            if is_prefix("<"@, pv@) {
                assert(pv@.subrange(0, 1)[0] == pv@[0]);
            }
        }
        None
    }
}

/// The URL of the next page named by a `Link` header.
pub fn parse_next_link(link_header: &str) -> (r: Option<String>)
    ensures
        match r {
            Some(t) => first_target(split(link_header@, ',')) == Some(t@),
            None => first_target(split(link_header@, ',')) is None,
        },
{
    let v = chars_of(link_header);
    let segs = split_chars(&v, ',');
    let ghost all = split(link_header@, ',');
    let n = segs.len();
    let mut i: usize = 0;
    assert(all.subrange(0, n as int) =~= all);
    while i < n
        invariant
            i <= n == segs.len(),
            segs.deep_view() == all,
            all == split(link_header@, ','),
            first_target(all) == first_target(all.subrange(i as int, n as int)),
        decreases n - i,
    {
        assert(all.subrange(i as int, n as int).drop_first() =~= all.subrange(i + 1, n as int));
        assert(all.subrange(i as int, n as int)[0] == all[i as int]);
        assert(all[i as int] =~= segs@[i as int]@);
        let ghost sub = all.subrange(i as int, n as int);
        match segment_target(&segs[i]) {
            Some(t) => {
                assert(next_target(sub[0]) == Some(t@));
                assert(first_target(sub) == Some(t@));
                return Some(t);
            },
            None => {},
        }
        i = i + 1;
    }
    None
}

pub open spec fn is_ascii_alnum(c: char) -> bool {
    ('a' <= c <= 'z') || ('A' <= c <= 'Z') || ('0' <= c <= '9')
}

/// Building a handle: ASCII letters and digits kept in lower case; white
/// space, `-` and `_` become a single `-` after something has been kept;
/// anything else dropped. The flag says whether the last thing added was a
/// dash.
pub open spec fn handle_scan(s: Seq<char>) -> (Seq<char>, bool)
    decreases s.len(),
{
    if s.len() == 0 {
        (Seq::<char>::empty(), false)
    } else {
        let (h, dash) = handle_scan(s.drop_last());
        let c = s.last();
        if is_ascii_alnum(c) {
            (h.push(crate::agentic::validate::lower_ascii(c)), false)
        } else if is_ws(c) || c == '-' || c == '_' {
            if !dash && h.len() > 0 {
                (h.push('-'), true)
            } else {
                (h, dash)
            }
        } else {
            (h, dash)
        }
    }
}

/// `s` with every leading `c` removed.
pub open spec fn trim_start_char(s: Seq<char>, c: char) -> Seq<char>
    decreases s.len(),
{
    if s.len() > 0 && s[0] == c {
        trim_start_char(s.drop_first(), c)
    } else {
        s
    }
}

/// The URL handle of a product name; `fallback` (the product's id) when the
/// name yields nothing.
pub open spec fn product_handle(name: Seq<char>, fallback: Seq<char>) -> Seq<char> {
    let h = trim_start_char(trim_end_char(handle_scan(name).0, '-'), '-');
    if h.len() == 0 {
        fallback
    } else {
        h
    }
}

/// A character a handle may hold: a lower-case ASCII letter, a digit or
/// `-`.
pub open spec fn handle_char(c: char) -> bool {
    ('a' <= c <= 'z') || ('0' <= c <= '9') || c == '-'
}

/// A URL handle: non-empty, of handle characters only, with no `-` at
/// either end and no two `-` in a row.
pub open spec fn is_handle(h: Seq<char>) -> bool {
    &&& h.len() > 0
    &&& forall|i: int| 0 <= i < h.len() ==> handle_char(#[trigger] h[i])
    &&& h[0] != '-'
    &&& h.last() != '-'
    &&& forall|i: int| 0 <= i < h.len() - 1 ==> !(#[trigger] h[i] == '-' && h[i + 1] == '-')
}

/// What the scan builds: handle characters, no leading `-`, no two `-` in a
/// row, and the flag tells whether it ends with `-`.
pub open spec fn scan_shape(h: Seq<char>, dash: bool) -> bool {
    &&& forall|i: int| 0 <= i < h.len() ==> handle_char(#[trigger] h[i])
    &&& (h.len() > 0 ==> h[0] != '-')
    &&& forall|i: int| 0 <= i < h.len() - 1 ==> !(#[trigger] h[i] == '-' && h[i + 1] == '-')
    &&& dash == (h.len() > 0 && h.last() == '-')
}

proof fn lemma_scan_shape(s: Seq<char>)
    ensures
        scan_shape(handle_scan(s).0, handle_scan(s).1),
    decreases s.len(),
{
    if s.len() > 0 {
        lemma_scan_shape(s.drop_last());
        let (h, dash) = handle_scan(s.drop_last());
        let c = s.last();
        if is_ascii_alnum(c) {
            let l = crate::agentic::validate::lower_ascii(c);
            assert(('a' <= l <= 'z') || ('0' <= l <= '9')) by {
                if 'A' <= c <= 'Z' {
                    assert((c as u32) + 32 >= 97 && (c as u32) + 32 <= 122);
                }
            }
            let h2 = h.push(l);
            assert forall|i: int| 0 <= i < h2.len() - 1 implies !(#[trigger] h2[i] == '-' && h2[i + 1] == '-') by {
                if i < h.len() - 1 {
                    assert(h2[i] == h[i] && h2[i + 1] == h[i + 1]);
                }
            }
            assert forall|i: int| 0 <= i < h2.len() implies handle_char(#[trigger] h2[i]) by {
                if i < h.len() {
                    assert(h2[i] == h[i]);
                }
            }
        } else if is_ws(c) || c == '-' || c == '_' {
            if !dash && h.len() > 0 {
                let h2 = h.push('-');
                assert forall|i: int| 0 <= i < h2.len() - 1 implies !(#[trigger] h2[i] == '-' && h2[i + 1] == '-') by {
                    if i < h.len() - 1 {
                        assert(h2[i] == h[i] && h2[i + 1] == h[i + 1]);
                    } else {
                        assert(h2[i] == h.last());
                    }
                }
                assert forall|i: int| 0 <= i < h2.len() implies handle_char(#[trigger] h2[i]) by {
                    if i < h.len() {
                        assert(h2[i] == h[i]);
                    }
                }
            }
        }
    }
}

/// The scan of a handle gives the handle back, prefix by prefix.
proof fn lemma_scan_of_handle(h: Seq<char>, i: int)
    requires
        is_handle(h),
        0 <= i <= h.len(),
    ensures
        handle_scan(h.take(i)) == (h.take(i), i > 0 && h[i - 1] == '-'),
    decreases i,
{
    if i > 0 {
        lemma_scan_of_handle(h, i - 1);
        assert(h.take(i).drop_last() =~= h.take(i - 1));
        assert(h.take(i).last() == h[i - 1]);
        let c = h[i - 1];
        assert(handle_char(c));
        if c == '-' {
            assert(i - 1 > 0);
            assert(!(h[i - 2] == '-' && h[i - 1] == '-'));
            assert(h.take(i - 1).push('-') =~= h.take(i));
        } else {
            assert(is_ascii_alnum(c));
            assert(crate::agentic::validate::lower_ascii(c) == c);
            assert(h.take(i - 1).push(c) =~= h.take(i));
        }
    } else {
        assert(h.take(0) =~= Seq::<char>::empty());
    }
}

/// A product name's handle, when the name yields one, is a handle: lower-case
/// ASCII letters, digits and single inner dashes. A name that yields none
/// gets the fallback.
pub proof fn law_handle_shape(name: Seq<char>, fallback: Seq<char>)
    ensures
        ({
            let t = trim_start_char(trim_end_char(handle_scan(name).0, '-'), '-');
            &&& t.len() > 0 ==> product_handle(name, fallback) == t && is_handle(t)
            &&& t.len() == 0 ==> product_handle(name, fallback) == fallback
        }),
{
    lemma_scan_shape(name);
    let h = handle_scan(name).0;
    let e = trim_end_char(h, '-');
    if h.len() > 0 && h.last() == '-' {
        assert(h.len() >= 2);
        assert(!(h[h.len() - 2] == '-' && h[h.len() - 1] == '-'));
        assert(trim_end_char(h.drop_last(), '-') == h.drop_last());
        assert(e == h.drop_last());
    } else {
        assert(e == h);
    }
    if e.len() > 0 {
        assert(e[0] == h[0]);
        assert(trim_start_char(e, '-') == e);
        assert forall|i: int| 0 <= i < e.len() - 1 implies !(#[trigger] e[i] == '-' && e[i + 1] == '-') by {
            assert(e[i] == h[i] && e[i + 1] == h[i + 1]);
        }
        assert forall|i: int| 0 <= i < e.len() implies handle_char(#[trigger] e[i]) by {
            assert(e[i] == h[i]);
        }
    } else {
        assert(trim_start_char(e, '-') == e);
    }
}

/// Making a handle of a handle gives it back: the handle of a name is kept
/// as it is, whenever the name yields a handle or the fallback is itself a
/// handle. (A name that yields nothing with a fallback such as `Foo` gives
/// `Foo`, whose own handle is `foo`.)
pub proof fn law_handle_idempotent(name: Seq<char>, fallback: Seq<char>)
    requires
        trim_start_char(trim_end_char(handle_scan(name).0, '-'), '-').len() > 0 || is_handle(fallback),
    ensures
        product_handle(product_handle(name, fallback), fallback) == product_handle(name, fallback),
{
    law_handle_shape(name, fallback);
    let h = product_handle(name, fallback);
    assert(is_handle(h));
    lemma_scan_of_handle(h, h.len() as int);
    assert(h.take(h.len() as int) =~= h);
    assert(trim_end_char(h, '-') == h);
    assert(trim_start_char(h, '-') == h);
}

fn lower_alnum(c: char) -> (r: char)
    requires
        is_ascii_alnum(c),
    ensures
        r == crate::agentic::validate::lower_ascii(c),
{
    if 'A' <= c && c <= 'Z' {
        let u = (c as u32) + 32;
        let b = u as u8;
        b as char
    } else {
        c
    }
}

pub fn generate_product_handle(name: &str, fallback: &str) -> (s: String)
    ensures
        s@ == product_handle(name@, fallback@),
{
    let v = chars_of(name);
    let mut h: Vec<char> = Vec::new();
    let mut dash = false;
    let mut i: usize = 0;
    while i < v.len()
        invariant
            i <= v.len(),
            v@ == name@,
            (h@, dash) == handle_scan(v@.take(i as int)),
        decreases v.len() - i,
    {
        let c = v[i];
        assert(v@.take(i + 1).drop_last() =~= v@.take(i as int));
        if ('a' <= c && c <= 'z') || ('A' <= c && c <= 'Z') || ('0' <= c && c <= '9') {
            h.push(lower_alnum(c));
            dash = false;
        } else if is_whitespace(c) || c == '-' || c == '_' {
            if !dash && h.len() > 0 {
                h.push('-');
                dash = true;
            }
        }
        i = i + 1;
    }
    assert(v@.take(i as int) =~= v@);
    let mut b = h.len();
    assert(h@.take(b as int) =~= h@);
    while b > 0 && h[b - 1] == '-'
        invariant
            b <= h.len(),
            trim_end_char(h@, '-') == trim_end_char(h@.take(b as int), '-'),
        decreases b,
    {
        assert(h@.take(b as int).drop_last() =~= h@.take(b - 1));
        b = b - 1;
    }
    let ghost e = h@.take(b as int);
    let mut a: usize = 0;
    assert(e.skip(0) =~= e);
    while a < b && h[a] == '-'
        invariant
            a <= b <= h.len(),
            e == h@.take(b as int),
            trim_start_char(e, '-') == trim_start_char(e.skip(a as int), '-'),
        decreases b - a,
    {
        assert(e.skip(a as int).drop_first() =~= e.skip(a + 1));
        a = a + 1;
    }
    let t = string_of(&h, a, b);
    assert(t@ =~= e.skip(a as int));
    if a == b {
        owned(fallback)
    } else {
        t
    }
}

} // verus!
