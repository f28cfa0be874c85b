//! Character-level string utilities shared by the rest of the library.
use vstd::prelude::*;

verus! {

/// Unicode `White_Space` code points (the set `str::trim` removes).
pub open spec fn is_ws(c: char) -> bool {
    let u = c as u32;
    ||| 0x09 <= u && u <= 0x0D
    ||| u == 0x20
    ||| u == 0x85
    ||| u == 0xA0
    ||| u == 0x1680
    ||| 0x2000 <= u && u <= 0x200A
    ||| u == 0x2028
    ||| u == 0x2029
    ||| u == 0x202F
    ||| u == 0x205F
    ||| u == 0x3000
}

/// Leading white space removed.
pub open spec fn trim_start(s: Seq<char>) -> Seq<char>
    decreases s.len(),
{
    if s.len() > 0 && is_ws(s[0]) {
        trim_start(s.drop_first())
    } else {
        s
    }
}

/// Trailing white space removed.
pub open spec fn trim_end(s: Seq<char>) -> Seq<char>
    decreases s.len(),
{
    if s.len() > 0 && is_ws(s.last()) {
        trim_end(s.drop_last())
    } else {
        s
    }
}

/// Leading and trailing white space removed.
pub open spec fn trim(s: Seq<char>) -> Seq<char> {
    trim_end(trim_start(s))
}

pub fn is_whitespace(c: char) -> (b: bool)
    ensures
        b == is_ws(c),
{
    let u = c as u32;
    (0x09 <= u && u <= 0x0D) || u == 0x20 || u == 0x85 || u == 0xA0 || u == 0x1680 || (0x2000
        <= u && u <= 0x200A) || u == 0x2028 || u == 0x2029 || u == 0x202F || u == 0x205F || u
        == 0x3000
}

/// The characters of `s`, in order.
pub fn chars_of(s: &str) -> (v: Vec<char>)
    ensures
        v@ == s@,
{
    let mut v: Vec<char> = Vec::new();
    broadcast use vstd::string::group_string_axioms;
    for c in it: s.chars()
        invariant
            it.seq() == s@,
            v@ == it.seq().take(it.index() as int),
    {
        v.push(c);
    }
    v
}


/// Appends one character (`String::push`).
#[verifier::external_body]
pub(crate) fn push_char(s: &mut String, c: char)
    ensures
        final(s)@ == old(s)@.push(c),
{
    s.push(c);
}

/// Appends a string slice.
pub fn push_str(s: &mut String, t: &str)
    ensures
        final(s)@ == old(s)@ + t@,
{
    let v = chars_of(t);
    let ghost start = s@;
    let mut i: usize = 0;
    while i < v.len()
        invariant
            i <= v.len(),
            v@ == t@,
            s@ == start + v@.take(i as int),
        decreases v.len() - i,
    {
        push_char(s, v[i]);
        i = i + 1;
        assert(v@.take(i as int) =~= v@.take((i - 1) as int).push(v@[i - 1]));
    }
    assert(v@.take(i as int) =~= v@);
}

/// A new string holding `v[lo..hi]`.
pub fn string_of(v: &Vec<char>, lo: usize, hi: usize) -> (s: String)
    requires
        lo <= hi <= v.len(),
    ensures
        s@ == v@.subrange(lo as int, hi as int),
{
    let mut s = String::new();
    let mut i = lo;
    while i < hi
        invariant
            lo <= i <= hi <= v.len(),
            s@ == v@.subrange(lo as int, i as int),
        decreases hi - i,
    {
        push_char(&mut s, v[i]);
        i = i + 1;
        assert(s@ =~= v@.subrange(lo as int, i as int));
    }
    s
}

/// A new string holding all of `v`.
pub fn string_from(v: &Vec<char>) -> (s: String)
    ensures
        s@ == v@,
{
    let s = string_of(v, 0, v.len());
    assert(v@.subrange(0, v@.len() as int) =~= v@);
    s
}

/// A string holding the characters of a literal or slice.
pub fn owned(t: &str) -> (s: String)
    ensures
        s@ == t@,
{
    let mut s = String::new();
    push_str(&mut s, t);
    assert(s@ =~= t@);
    s
}

pub proof fn lemma_trim_start_skip(s: Seq<char>, i: int)
    requires
        0 <= i < s.len(),
        is_ws(s[i]),
    ensures
        trim_start(s.subrange(i, s.len() as int)) == trim_start(s.subrange(i + 1, s.len() as int)),
{
    let t = s.subrange(i, s.len() as int);
    assert(t.drop_first() =~= s.subrange(i + 1, s.len() as int));
}

pub proof fn lemma_trim_end_skip(s: Seq<char>, j: int)
    requires
        0 < j <= s.len(),
        is_ws(s[j - 1]),
    ensures
        trim_end(s.subrange(0, j)) == trim_end(s.subrange(0, j - 1)),
{
    let t = s.subrange(0, j);
    assert(t.drop_last() =~= s.subrange(0, j - 1));
}

/// Indices `(a, b)` such that `v[a..b]` is `v` trimmed.
pub fn trim_bounds(v: &Vec<char>) -> (r: (usize, usize))
    ensures
        r.0 <= r.1 <= v.len(),
        v@.subrange(r.0 as int, r.1 as int) == trim(v@),
{
    let n = v.len();
    let mut a: usize = 0;
    assert(v@.subrange(0, n as int) =~= v@);
    while a < n && is_whitespace(v[a])
        invariant
            a <= n == v.len(),
            trim_start(v@) == trim_start(v@.subrange(a as int, n as int)),
        decreases n - a,
    {
        proof {
            lemma_trim_start_skip(v@, a as int);
        }
        a = a + 1;
    }
    let ghost u = v@.subrange(a as int, n as int);
    assert(trim_start(u) == u);
    let mut b: usize = n;
    assert(u.subrange(0, (n - a) as int) =~= u);
    while b > a && is_whitespace(v[b - 1])
        invariant
            a <= b <= n == v.len(),
            u == v@.subrange(a as int, n as int),
            trim_end(u) == trim_end(u.subrange(0, (b - a) as int)),
        decreases b - a,
    {
        proof {
            assert(u[(b - a) - 1] == v@[b - 1]);
            lemma_trim_end_skip(u, (b - a) as int);
        }
        b = b - 1;
    }
    let ghost w = u.subrange(0, (b - a) as int);
    assert(trim_end(w) == w);
    assert(w =~= v@.subrange(a as int, b as int));
    (a, b)
}

/// `t` with leading and trailing white space removed (`str::trim`).
pub fn trim_string(t: &str) -> (s: String)
    ensures
        s@ == trim(t@),
{
    let v = chars_of(t);
    let (a, b) = trim_bounds(&v);
    string_of(&v, a, b)
}

/// Whether `t` is empty or white space only (`t.trim().is_empty()`).
pub fn is_blank(t: &str) -> (b: bool)
    ensures
        b == (trim(t@).len() == 0),
{
    let v = chars_of(t);
    let (a, b) = trim_bounds(&v);
    a == b
}

/// Element-wise equality of two character vectors.
pub fn seq_eq(a: &Vec<char>, b: &Vec<char>) -> (r: bool)
    ensures
        r == (a@ == b@),
{
    if a.len() != b.len() {
        return false;
    }
    let mut i: usize = 0;
    while i < a.len()
        invariant
            i <= a.len() == b.len(),
            forall|k: int| 0 <= k < i ==> a@[k] == b@[k],
        decreases a.len() - i,
    {
        if a[i] != b[i] {
            return false;
        }
        i = i + 1;
    }
    assert(a@ =~= b@);
    true
}

/// String equality by content.
pub fn str_eq(a: &str, b: &str) -> (r: bool)
    ensures
        r == (a@ == b@),
{
    let x = chars_of(a);
    let y = chars_of(b);
    seq_eq(&x, &y)
}

/// Whether `c` occurs in `s`.
pub open spec fn has_char(s: Seq<char>, c: char) -> bool {
    exists|i: int| 0 <= i < s.len() && s[i] == c
}

pub fn contains_char(v: &Vec<char>, c: char) -> (r: bool)
    ensures
        r == has_char(v@, c),
{
    let mut i: usize = 0;
    while i < v.len()
        invariant
            i <= v.len(),
            forall|k: int| 0 <= k < i ==> v@[k] != c,
        decreases v.len() - i,
    {
        if v[i] == c {
            return true;
        }
        i = i + 1;
    }
    false
}

/// Whether `p` is a prefix of `s`.
pub open spec fn is_prefix(p: Seq<char>, s: Seq<char>) -> bool {
    p.len() <= s.len() && s.subrange(0, p.len() as int) == p
}

/// Whether `p` is a suffix of `s`.
pub open spec fn is_suffix(p: Seq<char>, s: Seq<char>) -> bool {
    p.len() <= s.len() && s.subrange(s.len() - p.len(), s.len() as int) == p
}

pub fn starts_with(s: &Vec<char>, p: &Vec<char>) -> (r: bool)
    ensures
        r == is_prefix(p@, s@),
{
    if p.len() > s.len() {
        return false;
    }
    let mut i: usize = 0;
    while i < p.len()
        invariant
            i <= p.len() <= s.len(),
            forall|k: int| 0 <= k < i ==> s@[k] == p@[k],
        decreases p.len() - i,
    {
        if s[i] != p[i] {
            assert(s@.subrange(0, p.len() as int)[i as int] != p@[i as int]);
            return false;
        }
        i = i + 1;
    }
    assert(s@.subrange(0, p.len() as int) =~= p@);
    true
}

pub fn ends_with(s: &Vec<char>, p: &Vec<char>) -> (r: bool)
    ensures
        r == is_suffix(p@, s@),
{
    if p.len() > s.len() {
        return false;
    }
    let off = s.len() - p.len();
    let mut i: usize = 0;
    while i < p.len()
        invariant
            i <= p.len() <= s.len(),
            off == s.len() - p.len(),
            forall|k: int| 0 <= k < i ==> s@[off + k] == p@[k],
        decreases p.len() - i,
    {
        if s[off + i] != p[i] {
            assert(s@.subrange(off as int, s.len() as int)[i as int] != p@[i as int]);
            return false;
        }
        i = i + 1;
    }
    assert(s@.subrange(off as int, s.len() as int) =~= p@);
    true
}

pub fn str_starts_with(s: &str, p: &str) -> (r: bool)
    ensures
        r == is_prefix(p@, s@),
{
    let a = chars_of(s);
    let b = chars_of(p);
    starts_with(&a, &b)
}

/// Splits `s` on every occurrence of `sep` (`str::split` with a char).
pub open spec fn split(s: Seq<char>, sep: char) -> Seq<Seq<char>>
    decreases s.len(),
{
    if s.len() == 0 {
        seq![Seq::<char>::empty()]
    } else {
        let rest = split(s.drop_first(), sep);
        if s[0] == sep {
            seq![Seq::<char>::empty()] + rest
        } else {
            rest.update(0, seq![s[0]] + rest[0])
        }
    }
}

pub proof fn lemma_split_nonempty(s: Seq<char>, sep: char)
    ensures
        split(s, sep).len() >= 1,
    decreases s.len(),
{
    if s.len() > 0 {
        lemma_split_nonempty(s.drop_first(), sep);
    }
}

/// `split` of a string that starts with a character `c`.
pub proof fn lemma_split_cons(c: char, s: Seq<char>, sep: char)
    ensures
        split(seq![c] + s, sep) == (if c == sep {
            seq![Seq::<char>::empty()] + split(s, sep)
        } else {
            split(s, sep).update(0, seq![c] + split(s, sep)[0])
        }),
{
    assert((seq![c] + s).drop_first() =~= s);
}

/// The pieces of `v` between occurrences of `sep`, as owned vectors.
pub fn split_chars(v: &Vec<char>, sep: char) -> (parts: Vec<Vec<char>>)
    ensures
        parts.deep_view() == split(v@, sep),
{
    let n = v.len();
    let mut parts: Vec<Vec<char>> = Vec::new();
    let mut cur: Vec<char> = Vec::new();
    let mut i: usize = 0;
    proof {
        lemma_split_nonempty(v@, sep);
        assert(v@.subrange(0, n as int) =~= v@);
        assert(split(v@, sep).update(0, Seq::<char>::empty() + split(v@, sep)[0]) =~= split(
            v@,
            sep,
        ));
        assert(parts.deep_view() + split(v@, sep) =~= split(v@, sep));
    }
    while i < n
        invariant
            i <= n == v.len(),
            split(v@, sep) == parts.deep_view() + split(v@.subrange(i as int, n as int), sep).update(
                0,
                cur@ + split(v@.subrange(i as int, n as int), sep)[0],
            ),
        decreases n - i,
    {
        let c = v[i];
        let ghost tail = v@.subrange(i + 1, n as int);
        let ghost r = split(tail, sep);
        let ghost pv = parts.deep_view();
        proof {
            assert(v@.subrange(i as int, n as int) =~= seq![c] + tail);
            lemma_split_cons(c, tail, sep);
            lemma_split_nonempty(tail, sep);
        }
        if c == sep {
            let done = cur;
            cur = Vec::new();
            let ghost dv = done@;
            assert(done.deep_view() =~= dv);
            parts.push(done);
            proof {
                assert(parts.deep_view()[parts.len() - 1] == dv);
                assert(parts.deep_view() =~= pv.push(dv));
                assert(r.update(0, cur@ + r[0]) =~= r);
                let lhs = pv + (seq![Seq::<char>::empty()] + r).update(0, done@ + (seq![Seq::<char>::empty()] + r)[0]);
                assert(lhs =~= pv.push(done@) + r);
            }
        } else {
            let ghost before = cur@;
            cur.push(c);
            proof {
                assert(cur@ == before.push(c));
                assert(before + (seq![c] + r[0]) =~= cur@ + r[0]);
                assert(r.update(0, seq![c] + r[0]).update(0, before + r.update(0, seq![c] + r[0])[0])
                    =~= r.update(0, cur@ + r[0]));
            }
        }
        i = i + 1;
    }
    proof {
        assert(v@.subrange(n as int, n as int) =~= Seq::<char>::empty());
    }
    let ghost pv = parts.deep_view();
    let ghost cv = cur@;
    assert(cur.deep_view() =~= cv);
    parts.push(cur);
    proof {
        assert(parts.deep_view()[parts.len() - 1] == cv);
        assert(split(Seq::<char>::empty(), sep) == seq![Seq::<char>::empty()]);
        assert(parts.deep_view() =~= pv.push(cur@));
        assert(seq![Seq::<char>::empty()].update(0, cur@ + Seq::<char>::empty()) =~= seq![cur@]);
        assert(pv + seq![cur@] =~= pv.push(cur@));
    }
    parts
}


pub proof fn lemma_trim_start_idem(s: Seq<char>)
    ensures
        trim_start(trim_start(s)) == trim_start(s),
        trim_start(s).len() > 0 ==> !is_ws(trim_start(s)[0]),
    decreases s.len(),
{
    if s.len() > 0 && is_ws(s[0]) {
        lemma_trim_start_idem(s.drop_first());
    }
}

pub proof fn lemma_trim_end_keeps_start(s: Seq<char>)
    requires
        s.len() > 0 ==> !is_ws(s[0]),
    ensures
        trim_end(s).len() > 0 ==> !is_ws(trim_end(s)[0]),
        trim_end(s).len() > 0 ==> !is_ws(trim_end(s).last()),
        trim_end(s).len() <= s.len(),
        trim_end(s) == s.subrange(0, trim_end(s).len() as int),
    decreases s.len(),
{
    if s.len() > 0 && is_ws(s.last()) {
        lemma_trim_end_keeps_start(s.drop_last());
        assert(s.drop_last().subrange(0, trim_end(s).len() as int) =~= s.subrange(0, trim_end(s).len() as int));
    } else {
        assert(s.subrange(0, s.len() as int) =~= s);
    }
}

/// Trimming twice is trimming once.
pub proof fn lemma_trim_idempotent(s: Seq<char>)
    ensures
        trim(trim(s)) == trim(s),
{
    let a = trim_start(s);
    lemma_trim_start_idem(s);
    lemma_trim_end_keeps_start(a);
    let t = trim_end(a);
    // t has no white space at either end, so both trims leave it alone
    if t.len() > 0 {
        assert(!is_ws(t[0]));
        assert(trim_start(t) == t);
        assert(!is_ws(t.last()));
        assert(trim_end(t) == t);
    } else {
        assert(trim_start(t) == t);
        assert(trim_end(t) == t);
    }
}


/// `a` followed by `b`, as a new string.
pub fn concat(a: &str, b: &str) -> (s: String)
    ensures
        s@ == a@ + b@,
{
    let mut s = String::new();
    push_str(&mut s, a);
    push_str(&mut s, b);
    assert(s@ =~= a@ + b@);
    s
}

/// `a`, `b` and `c` in a row, as a new string.
pub fn concat3(a: &str, b: &str, c: &str) -> (s: String)
    ensures
        s@ == a@ + b@ + c@,
{
    let mut s = String::new();
    push_str(&mut s, a);
    push_str(&mut s, b);
    push_str(&mut s, c);
    assert(s@ =~= a@ + b@ + c@);
    s
}


/// Bytes that `c` takes in UTF-8.
pub open spec fn char_utf8_len(c: char) -> nat {
    let u = c as u32;
    if u < 0x80 {
        1
    } else if u < 0x800 {
        2
    } else if u < 0x10000 {
        3
    } else {
        4
    }
}

/// Bytes that `s` takes in UTF-8 (`str::len`).
pub open spec fn utf8_len(s: Seq<char>) -> nat
    decreases s.len(),
{
    if s.len() == 0 {
        0
    } else {
        utf8_len(s.drop_last()) + char_utf8_len(s.last())
    }
}

/// The UTF-8 length of the characters in `v`.
pub fn utf8_len_of(v: &Vec<char>) -> (n: u128)
    ensures
        n == utf8_len(v@),
{
    let mut n: u128 = 0;
    let mut i: usize = 0;
    while i < v.len()
        invariant
            i <= v.len(),
            n == utf8_len(v@.take(i as int)),
            n <= 4 * i,
        decreases v.len() - i,
    {
        let u = v[i] as u32;
        let w: u128 = if u < 0x80 {
            1
        } else if u < 0x800 {
            2
        } else if u < 0x10000 {
            3
        } else {
            4
        };
        assert(v@.take(i + 1).drop_last() =~= v@.take(i as int));
        n = n + w;
        i = i + 1;
    }
    assert(v@.take(i as int) =~= v@);
    n
}


/// `s` with every trailing `c` removed (`str::trim_end_matches` with a char).
pub open spec fn trim_end_char(s: Seq<char>, c: char) -> Seq<char>
    decreases s.len(),
{
    if s.len() > 0 && s.last() == c {
        trim_end_char(s.drop_last(), c)
    } else {
        s
    }
}

pub fn trim_end_matches_char(t: &str, c: char) -> (s: String)
    ensures
        s@ == trim_end_char(t@, c),
{
    let v = chars_of(t);
    let mut n = v.len();
    assert(v@.take(n as int) =~= v@);
    while n > 0 && v[n - 1] == c
        invariant
            n <= v.len(),
            v@ == t@,
            trim_end_char(v@, c) == trim_end_char(v@.take(n as int), c),
        decreases n,
    {
        assert(v@.take(n as int).drop_last() =~= v@.take(n - 1));
        n = n - 1;
    }
    let s = string_of(&v, 0, n);
    assert(v@.subrange(0, n as int) =~= v@.take(n as int));
    s
}

/// `s` with every `from` replaced by `to`.
pub open spec fn replace_char(s: Seq<char>, from: char, to: char) -> Seq<char> {
    Seq::new(s.len(), |i: int| if s[i] == from { to } else { s[i] })
}

pub fn replace_char_in(t: &str, from: char, to: char) -> (s: String)
    ensures
        s@ == replace_char(t@, from, to),
{
    let v = chars_of(t);
    let mut s = String::new();
    let mut i: usize = 0;
    while i < v.len()
        invariant
            i <= v.len(),
            v@ == t@,
            s@ == replace_char(v@.take(i as int), from, to),
        decreases v.len() - i,
    {
        let c = if v[i] == from { to } else { v[i] };
        push_char(&mut s, c);
        i = i + 1;
        assert(s@ =~= replace_char(v@.take(i as int), from, to));
    }
    assert(v@.take(i as int) =~= v@);
    s
}

pub open spec fn shift(o: Option<int>, k: int) -> Option<int> {
    match o {
        Some(x) => Some(x + k),
        None => None,
    }
}

/// The position of the first occurrence of `pat` in `s` (`str::find`).
pub open spec fn first_occ(s: Seq<char>, pat: Seq<char>) -> Option<int>
    decreases s.len(),
{
    if s.len() < pat.len() {
        None
    } else if s.take(pat.len() as int) == pat {
        Some(0)
    } else if s.len() == 0 {
        None
    } else {
        shift(first_occ(s.drop_first(), pat), 1)
    }
}

pub fn find_str(v: &Vec<char>, pat: &Vec<char>) -> (r: Option<usize>)
    ensures
        match r {
            Some(i) => first_occ(v@, pat@) == Some(i as int),
            None => first_occ(v@, pat@) is None,
        },
{
    let n = v.len();
    let m = pat.len();
    let mut i: usize = 0;
    assert(v@.skip(0) =~= v@);
    while i <= n
        invariant
            i <= n + 1,
            n == v.len(),
            m == pat.len(),
            i <= n ==> first_occ(v@, pat@) == shift(first_occ(v@.skip(i as int), pat@), i as int),
            i > n ==> first_occ(v@, pat@) is None,
        decreases n + 1 - i,
    {
        let ghost t = v@.skip(i as int);
        if n - i < m {
            assert(t.len() < m);
            return None;
        }
        let mut k: usize = 0;
        let mut same = true;
        while k < m
            invariant
                k <= m <= n - i,
                n == v.len(),
                m == pat.len(),
                same == (forall|j: int| 0 <= j < k ==> v@[i + j] == pat@[j]),
            decreases m - k,
        {
            if v[i + k] != pat[k] {
                same = false;
            }
            k = k + 1;
        }
        if same {
            assert(t.take(m as int) =~= pat@);
            return Some(i);
        }
        proof {
            if t.take(m as int) == pat@ {
                assert forall|j: int| 0 <= j < m implies v@[i + j] == pat@[j] by {
                    assert(t.take(m as int)[j] == v@[i + j]);
                }
            }
            if t.len() > 0 {
                assert(t.drop_first() =~= v@.skip(i + 1));
            }
        }
        if i == n {
            return None;
        }
        i = i + 1;
    }
    None
}

/// No piece of a split holds the separator.
pub proof fn lemma_split_pieces_free(s: Seq<char>, sep: char)
    ensures
        forall|i: int, j: int| 0 <= i < split(s, sep).len() && 0 <= j < split(s, sep)[i].len() ==> #[trigger] split(s, sep)[i][j] != sep,
    decreases s.len(),
{
    if s.len() > 0 {
        let rest = split(s.drop_first(), sep);
        lemma_split_pieces_free(s.drop_first(), sep);
        lemma_split_nonempty(s.drop_first(), sep);
        if s[0] == sep {
            assert forall|i: int, j: int| 0 <= i < split(s, sep).len() && 0 <= j < split(s, sep)[i].len() implies #[trigger] split(s, sep)[i][j] != sep by {
                if i > 0 {
                    assert(split(s, sep)[i] == rest[i - 1]);
                }
            }
        } else {
            assert forall|i: int, j: int| 0 <= i < split(s, sep).len() && 0 <= j < split(s, sep)[i].len() implies #[trigger] split(s, sep)[i][j] != sep by {
                if i == 0 {
                    if j > 0 {
                        assert(split(s, sep)[0][j] == rest[0][j - 1]);
                    }
                } else {
                    assert(split(s, sep)[i] == rest[i]);
                }
            }
        }
    }
}

/// Every character of `trim(s)` is a character of `s`.
pub proof fn lemma_trim_chars(s: Seq<char>)
    ensures
        forall|j: int| 0 <= j < trim(s).len() ==> exists|k: int| 0 <= k < s.len() && s[k] == #[trigger] trim(s)[j],
{
    let k0 = lemma_trim_start_skip_count(s);
    let a = trim_start(s);
    lemma_trim_start_idem(s);
    lemma_trim_end_keeps_start(a);
    assert forall|j: int| 0 <= j < trim(s).len() implies exists|k: int| 0 <= k < s.len() && s[k] == #[trigger] trim(s)[j] by {
        assert(trim(s)[j] == a[j]);
        assert(a[j] == s[k0 + j]);
    }
}

/// `trim_start(s)` is `s` without its first `k` characters, for some `k`.
pub proof fn lemma_trim_start_skip_count(s: Seq<char>) -> (k: int)
    ensures
        0 <= k <= s.len(),
        trim_start(s) == s.skip(k),
    decreases s.len(),
{
    if s.len() > 0 && is_ws(s[0]) {
        let k1 = lemma_trim_start_skip_count(s.drop_first());
        assert(s.drop_first().skip(k1) =~= s.skip(k1 + 1));
        k1 + 1
    } else {
        assert(s.skip(0) =~= s);
        0
    }
}

} // verus!
