use vstd::prelude::*;

verus! {

// ---------------------------------------------------------------------------
// Specifications over character sequences
// ---------------------------------------------------------------------------

/// `p` occurs in `s` starting at index `i`.
pub open spec fn matches_at(s: Seq<char>, p: Seq<char>, i: int) -> bool {
    0 <= i && i + p.len() <= s.len() && s.subrange(i, i + p.len()) == p
}

/// `p` occurs somewhere in `s`.
pub open spec fn seq_contains(s: Seq<char>, p: Seq<char>) -> bool {
    exists|i: int| matches_at(s, p, i)
}

/// `s` begins with `p`.
pub open spec fn seq_starts_with(s: Seq<char>, p: Seq<char>) -> bool {
    matches_at(s, p, 0)
}

/// `s` ends with `p`.
pub open spec fn seq_ends_with(s: Seq<char>, p: Seq<char>) -> bool {
    matches_at(s, p, s.len() - p.len())
}

/// The first index at or after `i` where `p` occurs in `s`.
pub open spec fn find_from(s: Seq<char>, p: Seq<char>, i: int) -> Option<int>
    decreases s.len() + 1 - i,
{
    if i < 0 || i + p.len() > s.len() {
        None
    } else if matches_at(s, p, i) {
        Some(i)
    } else {
        find_from(s, p, i + 1)
    }
}

/// The first index where `p` occurs in `s` (what `str::find` returns, counted in characters).
pub open spec fn seq_find(s: Seq<char>, p: Seq<char>) -> Option<int> {
    find_from(s, p, 0)
}

/// Replaces every occurrence of a non-empty `p` in `s` by `r`, scanning from the left
/// and never overlapping two occurrences (what `str::replace` does).
pub open spec fn seq_replace(s: Seq<char>, p: Seq<char>, r: Seq<char>) -> Seq<char>
    decreases s.len(),
{
    if p.len() == 0 || s.len() < p.len() {
        s
    } else if s.subrange(0, p.len() as int) == p {
        r + seq_replace(s.skip(p.len() as int), p, r)
    } else {
        seq![s[0]] + seq_replace(s.skip(1), p, r)
    }
}

/// The pieces of `s` between occurrences of `c` (what `str::split` with a `char` gives).
pub open spec fn seq_split(s: Seq<char>, c: char) -> Seq<Seq<char>>
    decreases s.len(),
{
    match find_from(s, seq![c], 0) {
        Some(k) => if 0 <= k < s.len() {
            seq![s.take(k)] + seq_split(s.skip(k + 1), c)
        } else {
            seq![s]
        },
        None => seq![s],
    }
}

/// The Unicode `White_Space` property, which `char::is_whitespace` tests.
pub open spec fn is_ws(c: char) -> bool {
    ||| ('\u{9}' <= c && c <= '\u{d}')
    ||| c == ' '
    ||| c == '\u{85}'
    ||| c == '\u{a0}'
    ||| c == '\u{1680}'
    ||| ('\u{2000}' <= c && c <= '\u{200a}')
    ||| c == '\u{2028}'
    ||| c == '\u{2029}'
    ||| c == '\u{202f}'
    ||| c == '\u{205f}'
    ||| c == '\u{3000}'
}

/// `s` without its leading whitespace.
pub open spec fn trim_start(s: Seq<char>) -> Seq<char>
    decreases s.len(),
{
    if s.len() > 0 && is_ws(s[0]) {
        trim_start(s.skip(1))
    } else {
        s
    }
}

/// `s` without its trailing whitespace.
pub open spec fn trim_end(s: Seq<char>) -> Seq<char>
    decreases s.len(),
{
    if s.len() > 0 && is_ws(s.last()) {
        trim_end(s.drop_last())
    } else {
        s
    }
}

/// `s` without leading and trailing whitespace (what `str::trim` gives).
pub open spec fn seq_trim(s: Seq<char>) -> Seq<char> {
    trim_end(trim_start(s))
}

// ---------------------------------------------------------------------------
// Building blocks
// ---------------------------------------------------------------------------

/// Appends one character to a string.
/// Trusted: `String::push` adds `c` at the end of the string and changes nothing else.
#[verifier::external_body]
pub(crate) fn push_char(s: &mut String, c: char)
    ensures
        final(s)@ == old(s)@.push(c),
{
    s.push(c);
}

/// The characters of `s`, in order.
pub fn chars_of(s: &str) -> (v: Vec<char>)
    ensures
        v@ == s@,
{
    let mut v: Vec<char> = Vec::new();
    for c in it: s.chars()
        invariant
            v@ == it.seq().take(it.index() as int),
    {
        v.push(c);
    }
    v
}

/// A string made of the characters `v[from..to]`.
pub fn string_of_range(v: &Vec<char>, from: usize, to: usize) -> (s: String)
    requires
        from <= to <= v@.len(),
    ensures
        s@ == v@.subrange(from as int, to as int),
{
    let mut s = String::new();
    let mut i = from;
    while i < to
        invariant
            from <= i <= to <= v@.len(),
            s@ == v@.subrange(from as int, i as int),
        decreases to - i,
    {
        push_char(&mut s, v[i]);
        assert(v@.subrange(from as int, i + 1) == v@.subrange(from as int, i as int).push(v@[i as int]));
        i += 1;
    }
    s
}

/// A string made of the characters of `v`.
pub fn string_of(v: &Vec<char>) -> (s: String)
    ensures
        s@ == v@,
{
    let s = string_of_range(v, 0, v.len());
    assert(v@.subrange(0, v@.len() as int) == v@);
    s
}

/// Appends the characters of `t` to `s`.
pub fn append_str(s: &mut String, t: &str)
    ensures
        final(s)@ == old(s)@ + t@,
{
    let v = chars_of(t);
    let mut i: usize = 0;
    while i < v.len()
        invariant
            0 <= i <= v@.len(),
            v@ == t@,
            s@ == old(s)@ + v@.take(i as int),
        decreases v@.len() - i,
    {
        push_char(s, v[i]);
        assert(v@.take(i + 1) == v@.take(i as int).push(v@[i as int]));
        i += 1;
    }
    assert(v@.take(v@.len() as int) == v@);
}

/// A copy of `t`.
pub fn copy_str(t: &str) -> (s: String)
    ensures
        s@ == t@,
{
    let mut s = String::new();
    append_str(&mut s, t);
    s
}

/// `p` occurs in `v` at index `i`.
pub fn vec_matches_at(v: &Vec<char>, p: &Vec<char>, i: usize) -> (r: bool)
    ensures
        r == matches_at(v@, p@, i as int),
{
    if i > v.len() || p.len() > v.len() - i {
        return false;
    }
    let mut k: usize = 0;
    while k < p.len()
        invariant
            i + p@.len() <= v@.len(),
            v@.len() <= usize::MAX,
            0 <= k <= p@.len(),
            forall|j: int| 0 <= j < k ==> v@[i + j] == p@[j],
        decreases p@.len() - k,
    {
        if v[i + k] != p[k] {
            assert(v@.subrange(i as int, i + p@.len())[k as int] != p@[k as int]);
            return false;
        }
        k += 1;
    }
    assert(v@.subrange(i as int, i + p@.len()) =~= p@);
    true
}

/// The first index at or after `from` where `p` occurs in `v`.
pub fn vec_find_from(v: &Vec<char>, p: &Vec<char>, from: usize) -> (r: Option<usize>)
    ensures
        r matches Some(k) ==> find_from(v@, p@, from as int) == Some(k as int),
        r is None ==> find_from(v@, p@, from as int) is None,
{
    let mut i = from;
    while i <= v.len() && p.len() <= v.len() - i
        invariant
            from <= i,
            find_from(v@, p@, from as int) == find_from(v@, p@, i as int),
        decreases v@.len() + 1 - i,
    {
        if vec_matches_at(v, p, i) {
            return Some(i);
        }
        if i == v.len() {
            assert(find_from(v@, p@, i + 1) is None);
            return None;
        }
        i += 1;
    }
    None
}

/// Whether `s` is one of the strings of `v`.
pub fn contains_str(v: &Vec<String>, s: &str) -> (r: bool)
    ensures
        r == v.deep_view().contains(s@),
{
    let ghost dv = v.deep_view();
    let mut i: usize = 0;
    while i < v.len()
        invariant
            0 <= i <= v.len(),
            dv == v.deep_view(),
            forall|j: int| 0 <= j < i ==> dv[j] != s@,
        decreases v.len() - i,
    {
        assert(v@[i as int]@ == dv[i as int]);
        if str_eq(v[i].as_str(), s) {
            assert(dv[i as int] == s@);
            return true;
        }
        i += 1;
    }
    false
}

/// Whether `p` occurs in `s`.
pub fn str_contains(s: &str, p: &str) -> (r: bool)
    ensures
        r == seq_contains(s@, p@),
{
    let v = chars_of(s);
    let pv = chars_of(p);
    let f = vec_find_from(&v, &pv, 0);
    proof {
        lemma_find_from_contains(s@, p@, 0);
    }
    f.is_some()
}

/// `find_from` finds an occurrence exactly when one exists at or after `i`.
pub proof fn lemma_find_from_contains(s: Seq<char>, p: Seq<char>, i: int)
    requires
        0 <= i,
    ensures
        find_from(s, p, i) matches Some(k) ==> i <= k && matches_at(s, p, k)
            && forall|j: int| i <= j < k ==> !matches_at(s, p, j),
        find_from(s, p, i) is None ==> forall|j: int| i <= j ==> !matches_at(s, p, j),
    decreases s.len() + 1 - i,
{
    if i + p.len() > s.len() {
    } else if matches_at(s, p, i) {
    } else {
        lemma_find_from_contains(s, p, i + 1);
    }
}


/// Characters `'0'..='9'` only.
pub open spec fn all_digits(s: Seq<char>) -> bool {
    forall|i: int| 0 <= i < s.len() ==> '0' <= #[trigger] s[i] && s[i] <= '9'
}

/// The number that the decimal digits `s` write.
pub open spec fn digits_value(s: Seq<char>) -> nat
    decreases s.len(),
{
    if s.len() == 0 {
        0
    } else {
        digits_value(s.drop_last()) * 10 + ((s.last() as int - '0' as int) as nat)
    }
}

/// What parsing `s` as an unsigned integer gives when no width limits it: an optional
/// `+` followed by one or more decimal digits.
pub open spec fn parse_unsigned(s: Seq<char>) -> Option<nat> {
    let d = if s.len() > 0 && s[0] == '+' { s.skip(1) } else { s };
    if d.len() > 0 && all_digits(d) {
        Some(digits_value(d))
    } else {
        None
    }
}

/// What `u64::from_str` gives: the number when it fits.
pub open spec fn parse_u64_spec(s: Seq<char>) -> Option<u64> {
    match parse_unsigned(s) {
        Some(n) => if n <= u64::MAX { Some(n as u64) } else { None },
        None => None,
    }
}

/// The decimal digit character for `d < 10`.
pub open spec fn digit_char(d: nat) -> char {
    ((d + 48) as u32) as char
}

/// Decimal writing of `n`, without leading zeros (what `to_string` gives for an integer).
pub open spec fn nat_to_dec(n: nat) -> Seq<char>
    decreases n,
{
    if n < 10 {
        seq![digit_char(n)]
    } else {
        nat_to_dec(n / 10).push(digit_char(n % 10))
    }
}

/// The value of a digit prefix never exceeds the value of all the digits.
pub proof fn lemma_digits_prefix(s: Seq<char>, i: int)
    requires
        0 <= i <= s.len(),
        all_digits(s),
    ensures
        digits_value(s.take(i)) <= digits_value(s),
    decreases s.len(),
{
    if i < s.len() {
        let t = s.drop_last();
        assert(s.take(i) == t.take(i));
        assert(all_digits(t));
        lemma_digits_prefix(t, i);
    } else {
        assert(s.take(i) == s);
    }
}

/// Parses an unsigned decimal integer the way `u64::from_str` does.
pub fn parse_u64(s: &str) -> (r: Option<u64>)
    ensures
        r == parse_u64_spec(s@),
{
    let v = chars_of(s);
    let mut i: usize = 0;
    if v.len() > 0 && v[0] == '+' {
        i = 1;
    }
    let start = i;
    let ghost d = if v@.len() > 0 && v@[0] == '+' { v@.skip(1) } else { v@ };
    assert(v@.skip(0) == v@);
    assert(d == v@.skip(start as int));
    if i == v.len() {
        return None;
    }
    let mut acc: u64 = 0;
    while i < v.len()
        invariant
            start <= i <= v@.len(),
            v@ == s@,
            d == v@.skip(start as int),
            d == (if v@.len() > 0 && v@[0] == '+' { v@.skip(1) } else { v@ }),
            d.len() > 0,
            all_digits(v@.subrange(start as int, i as int)),
            acc as nat == digits_value(v@.subrange(start as int, i as int)),
        decreases v@.len() - i,
    {
        let c = v[i];
        if !('0' <= c && c <= '9') {
            assert(d[i - start] == c);
            assert(!all_digits(d));
            return None;
        }
        let dig: u64 = (c as u32 - 48) as u64;
        let ghost pre = v@.subrange(start as int, i as int);
        let ghost next = v@.subrange(start as int, i + 1);
        assert(next.drop_last() == pre);
        assert(all_digits(next));
        match acc.checked_mul(10) {
            Some(m) => match m.checked_add(dig) {
                Some(a) => {
                    acc = a;
                },
                None => {
                    proof { overflow_means_none(v@, start as int, i as int + 1, d); }
                    return None;
                },
            },
            None => {
                proof { overflow_means_none(v@, start as int, i as int + 1, d); }
                return None;
            },
        }
        i += 1;
    }
    assert(v@.subrange(start as int, v@.len() as int) == d);
    Some(acc)
}

proof fn overflow_means_none(v: Seq<char>, start: int, j: int, d: Seq<char>)
    requires
        0 <= start < j <= v.len(),
        d == v.skip(start),
        d == (if v.len() > 0 && v[0] == '+' { v.skip(1) } else { v }),
        all_digits(v.subrange(start, j)),
        digits_value(v.subrange(start, j)) > u64::MAX,
    ensures
        parse_u64_spec(v) is None,
{
    if d.len() > 0 && all_digits(d) {
        assert(d.take(j - start) == v.subrange(start, j));
        lemma_digits_prefix(d, j - start);
    }
}

/// The decimal digit character of `d < 10`.
pub fn digit_to_char(d: u64) -> (c: char)
    requires
        d < 10,
    ensures
        c == digit_char(d as nat),
{
    ((d as u8) + 48) as char
}

/// Decimal characters of `n`.
pub fn u64_to_chars(n: u64) -> (v: Vec<char>)
    ensures
        v@ == nat_to_dec(n as nat),
    decreases n,
{
    if n < 10 {
        let mut v = Vec::new();
        v.push(digit_to_char(n));
        v
    } else {
        let mut v = u64_to_chars(n / 10);
        v.push(digit_to_char(n % 10));
        v
    }
}

/// Decimal writing of `n` (what `n.to_string()` gives).
pub fn u64_to_string(n: u64) -> (s: String)
    ensures
        s@ == nat_to_dec(n as nat),
{
    let v = u64_to_chars(n);
    string_of(&v)
}


/// Replacement proceeds one step at a time from the left.
proof fn lemma_replace_step(s: Seq<char>, p: Seq<char>, r: Seq<char>, i: int)
    requires
        p.len() > 0,
        0 <= i < s.len(),
    ensures
        matches_at(s, p, i) ==> seq_replace(s.skip(i), p, r) == r + seq_replace(
            s.skip(i + p.len()),
            p,
            r,
        ),
        !matches_at(s, p, i) ==> seq_replace(s.skip(i), p, r) == seq![s[i]] + seq_replace(
            s.skip(i + 1),
            p,
            r,
        ),
{
    let t = s.skip(i);
    if matches_at(s, p, i) {
        assert(t.subrange(0, p.len() as int) == s.subrange(i, i + p.len()));
        assert(t.skip(p.len() as int) == s.skip(i + p.len()));
    } else {
        assert(t.skip(1) == s.skip(i + 1));
        if t.len() >= p.len() {
            assert(t.subrange(0, p.len() as int) == s.subrange(i, i + p.len()));
        } else {
            assert(s.skip(i + 1).len() < p.len());
            assert(t == seq![s[i]] + t.skip(1));
        }
    }
}

/// Replaces every occurrence of `p` in `v` by `r`.
pub fn vec_replace(v: &Vec<char>, p: &Vec<char>, r: &Vec<char>) -> (out: Vec<char>)
    requires
        p@.len() > 0,
    ensures
        out@ == seq_replace(v@, p@, r@),
{
    let mut out: Vec<char> = Vec::new();
    let mut i: usize = 0;
    assert(v@.skip(0) == v@);
    while i < v.len()
        invariant
            p@.len() > 0,
            0 <= i <= v@.len(),
            out@ + seq_replace(v@.skip(i as int), p@, r@) == seq_replace(v@, p@, r@),
        decreases v@.len() - i,
    {
        proof { lemma_replace_step(v@, p@, r@, i as int); }
        if vec_matches_at(v, p, i) {
            let ghost before = out@;
            let mut k: usize = 0;
            while k < r.len()
                invariant
                    0 <= k <= r@.len(),
                    out@ == before + r@.take(k as int),
                decreases r@.len() - k,
            {
                out.push(r[k]);
                assert(r@.take(k + 1) == r@.take(k as int).push(r@[k as int]));
                k += 1;
            }
            assert(r@.take(r@.len() as int) == r@);
            assert(out@ + seq_replace(v@.skip(i + p@.len()), p@, r@) == before + (r@
                + seq_replace(v@.skip(i + p@.len()), p@, r@)));
            i = i + p.len();
        } else {
            let ghost before = out@;
            out.push(v[i]);
            assert(out@ + seq_replace(v@.skip(i + 1), p@, r@) == before + (seq![v@[i as int]]
                + seq_replace(v@.skip(i + 1), p@, r@)));
            i += 1;
        }
    }
    assert(v@.skip(i as int).len() == 0);
    assert(out@ + seq_replace(v@.skip(i as int), p@, r@) == out@);
    out
}

/// `s` with every occurrence of the non-empty `p` replaced by `r` (what `str::replace` does).
pub fn replace_str(s: &str, p: &str, r: &str) -> (out: String)
    requires
        p@.len() > 0,
    ensures
        out@ == seq_replace(s@, p@, r@),
{
    let v = chars_of(s);
    let pv = chars_of(p);
    let rv = chars_of(r);
    let o = vec_replace(&v, &pv, &rv);
    string_of(&o)
}

/// Whether `s` begins with `p`.
pub fn starts_with(s: &str, p: &str) -> (r: bool)
    ensures
        r == seq_starts_with(s@, p@),
{
    let v = chars_of(s);
    let pv = chars_of(p);
    vec_matches_at(&v, &pv, 0)
}

/// Whether `s` ends with `p`.
pub fn ends_with(s: &str, p: &str) -> (r: bool)
    ensures
        r == seq_ends_with(s@, p@),
{
    let v = chars_of(s);
    let pv = chars_of(p);
    if pv.len() > v.len() {
        return false;
    }
    vec_matches_at(&v, &pv, v.len() - pv.len())
}

/// Whether the two strings hold the same characters.
pub fn str_eq(a: &str, b: &str) -> (r: bool)
    ensures
        r == (a@ == b@),
{
    let va = chars_of(a);
    let vb = chars_of(b);
    if va.len() != vb.len() {
        return false;
    }
    let r = vec_matches_at(&va, &vb, 0);
    proof {
        if r {
            assert(va@.subrange(0, vb@.len() as int) == va@);
        } else {
            assert(va@.subrange(0, vb@.len() as int) == va@);
        }
    }
    r
}

/// `s` without the prefix `p`, when it begins with it (what `str::strip_prefix` gives).
pub fn strip_prefix(s: &str, p: &str) -> (r: Option<String>)
    ensures
        r.deep_view() == (if seq_starts_with(s@, p@) {
            Some(s@.skip(p@.len() as int))
        } else {
            None
        }),
{
    let v = chars_of(s);
    let pv = chars_of(p);
    if vec_matches_at(&v, &pv, 0) {
        Some(string_of_range(&v, pv.len(), v.len()))
    } else {
        None
    }
}

/// `s` without the suffix `p`, when it ends with it (what `str::strip_suffix` gives).
pub fn strip_suffix(s: &str, p: &str) -> (r: Option<String>)
    ensures
        r.deep_view() == (if seq_ends_with(s@, p@) {
            Some(s@.take(s@.len() - p@.len()))
        } else {
            None
        }),
{
    let v = chars_of(s);
    let pv = chars_of(p);
    if pv.len() <= v.len() && vec_matches_at(&v, &pv, v.len() - pv.len()) {
        Some(string_of_range(&v, 0, v.len() - pv.len()))
    } else {
        None
    }
}

/// Whether `c` has the Unicode `White_Space` property (what `char::is_whitespace` tests).
pub fn is_whitespace(c: char) -> (r: bool)
    ensures
        r == is_ws(c),
{
    ('\u{9}' <= c && c <= '\u{d}') || c == ' ' || c == '\u{85}' || c == '\u{a0}'
        || c == '\u{1680}' || ('\u{2000}' <= c && c <= '\u{200a}') || c == '\u{2028}'
        || c == '\u{2029}' || c == '\u{202f}' || c == '\u{205f}' || c == '\u{3000}'
}

proof fn lemma_trim_start(s: Seq<char>, a: int)
    requires
        0 <= a <= s.len(),
        forall|j: int| 0 <= j < a ==> is_ws(#[trigger] s[j]),
        a < s.len() ==> !is_ws(s[a]),
    ensures
        trim_start(s) == s.skip(a),
    decreases a,
{
    if a == 0 {
        assert(s.skip(0) == s);
    } else {
        assert(s.skip(1).skip(a - 1) == s.skip(a));
        assert forall|j: int| 0 <= j < a - 1 implies is_ws(#[trigger] s.skip(1)[j]) by {
            assert(s.skip(1)[j] == s[j + 1]);
        }
        lemma_trim_start(s.skip(1), a - 1);
    }
}

proof fn lemma_trim_end(s: Seq<char>, b: int)
    requires
        0 <= b <= s.len(),
        forall|j: int| b <= j < s.len() ==> is_ws(#[trigger] s[j]),
        b > 0 ==> !is_ws(s[b - 1]),
    ensures
        trim_end(s) == s.take(b),
    decreases s.len() - b,
{
    if b == s.len() {
        assert(s.take(b) == s);
    } else {
        assert(s.drop_last().take(b) == s.take(b));
        lemma_trim_end(s.drop_last(), b);
    }
}

/// `v[from..to]` without leading and trailing whitespace.
pub fn trim_range(v: &Vec<char>, from: usize, to: usize) -> (r: String)
    requires
        from <= to <= v@.len(),
    ensures
        r@ == seq_trim(v@.subrange(from as int, to as int)),
{
    let ghost t = v@.subrange(from as int, to as int);
    let mut a = from;
    while a < to && is_whitespace(v[a])
        invariant
            from <= a <= to <= v@.len(),
            t == v@.subrange(from as int, to as int),
            forall|j: int| from <= j < a ==> is_ws(#[trigger] v@[j]),
        decreases to - a,
    {
        a += 1;
    }
    proof {
        assert forall|j: int| 0 <= j < a - from implies is_ws(#[trigger] t[j]) by {
            assert(t[j] == v@[from + j]);
        }
        lemma_trim_start(t, a - from);
    }
    let mut b = to;
    while b > a && is_whitespace(v[b - 1])
        invariant
            a <= b <= to,
            to <= v@.len(),
            forall|j: int| b <= j < to ==> is_ws(#[trigger] v@[j]),
        decreases b,
    {
        b -= 1;
    }
    proof {
        let u = t.skip(a - from);
        assert(u == v@.subrange(a as int, to as int));
        assert forall|j: int| b - a <= j < u.len() implies is_ws(#[trigger] u[j]) by {
            assert(u[j] == v@[a + j]);
        }
        lemma_trim_end(u, b - a);
        assert(u.take(b - a) == v@.subrange(a as int, b as int));
    }
    string_of_range(v, a, b)
}

/// `s` without leading and trailing whitespace (what `str::trim` gives).
pub fn trim(s: &str) -> (r: String)
    ensures
        r@ == seq_trim(s@),
{
    let v = chars_of(s);
    assert(v@.subrange(0, v@.len() as int) == v@);
    trim_range(&v, 0, v.len())
}


proof fn lemma_find_char_from(t: Seq<char>, c: char, k: int, i: int)
    requires
        0 <= i <= k <= t.len(),
        forall|j: int| 0 <= j < k ==> #[trigger] t[j] != c,
        k < t.len() ==> t[k] == c,
    ensures
        find_from(t, seq![c], i) == (if k < t.len() { Some(k) } else { None::<int> }),
    decreases k - i,
{
    if i == k {
        if k < t.len() {
            assert(t.subrange(k, k + 1) =~= seq![c]);
        }
    } else {
        assert(t.subrange(i, i + 1)[0] == t[i]);
        lemma_find_char_from(t, c, k, i + 1);
    }
}

/// The first occurrence of a single character is where the scan stops.
pub proof fn lemma_find_char(t: Seq<char>, c: char, k: int)
    requires
        0 <= k <= t.len(),
        forall|j: int| 0 <= j < k ==> #[trigger] t[j] != c,
        k < t.len() ==> t[k] == c,
    ensures
        find_from(t, seq![c], 0) == (if k < t.len() { Some(k) } else { None::<int> }),
{
    lemma_find_char_from(t, c, k, 0);
}

/// The pieces of `s` between occurrences of `c` (what `str::split` with a `char` gives).
pub fn split_char(s: &str, c: char) -> (r: Vec<String>)
    ensures
        r.deep_view() == seq_split(s@, c),
{
    let v = chars_of(s);
    let mut pieces: Vec<String> = Vec::new();
    let mut start: usize = 0;
    let mut i: usize = 0;
    assert(v@.skip(0) == v@);
    while i < v.len()
        invariant
            0 <= start <= i <= v@.len(),
            v@ == s@,
            pieces.deep_view() + seq_split(v@.skip(start as int), c) == seq_split(v@, c),
            forall|j: int| start <= j < i ==> #[trigger] v@[j] != c,
        decreases v@.len() - i,
    {
        if v[i] == c {
            let ghost t = v@.skip(start as int);
            proof {
                assert forall|j: int| 0 <= j < i - start implies #[trigger] t[j] != c by {
                    assert(t[j] == v@[start + j]);
                }
                lemma_find_char(t, c, i - start);
                assert(t.take(i - start) == v@.subrange(start as int, i as int));
                assert(t.skip(i - start + 1) == v@.skip(i + 1));
            }
            let piece = string_of_range(&v, start, i);
            let ghost before = pieces.deep_view();
            pieces.push(piece);
            assert(pieces.deep_view() == before.push(v@.subrange(start as int, i as int)));
            start = i + 1;
        }
        i += 1;
    }
    let ghost t = v@.skip(start as int);
    proof {
        assert forall|j: int| 0 <= j < t.len() implies #[trigger] t[j] != c by {
            assert(t[j] == v@[start + j]);
        }
        lemma_find_char(t, c, t.len() as int);
    }
    let piece = string_of_range(&v, start, v.len());
    let ghost before = pieces.deep_view();
    pieces.push(piece);
    assert(pieces.deep_view() == before.push(t));
    pieces
}

/// The piece of `s` after the last occurrence of `c`, or all of `s` when `c` does not occur
/// (what `s.split(c).last()` gives).
pub fn last_piece(s: &str, c: char) -> (r: String)
    ensures
        seq_split(s@, c).len() > 0,
        r@ == seq_split(s@, c).last(),
{
    proof { lemma_split_nonempty(s@, c); }
    let mut pieces = split_char(s, c);
    let n = pieces.len();
    assert(pieces.deep_view()[n - 1] == pieces@[n - 1]@);
    pieces.swap_remove(n - 1)
}

/// The first occurrence of `p` at or after `i` is at `k` when it occurs at `k` and nowhere
/// in between.
pub proof fn lemma_find_first(s: Seq<char>, p: Seq<char>, i: int, k: int)
    requires
        0 <= i <= k,
        matches_at(s, p, k),
        forall|j: int| i <= j < k ==> !matches_at(s, p, j),
    ensures
        find_from(s, p, i) == Some(k),
    decreases k - i,
{
    if i < k {
        assert(!matches_at(s, p, i));
        lemma_find_first(s, p, i + 1, k);
    }
}

/// Splitting at a pattern that first occurs right after `e`: `e`, then the pieces of the rest.
pub proof fn lemma_split_str_front(e: Seq<char>, p: Seq<char>, t: Seq<char>)
    requires
        p.len() > 0,
        forall|j: int| 0 <= j < e.len() ==> !matches_at(e + p + t, p, j),
    ensures
        seq_split_str(e + p + t, p) == seq![e] + seq_split_str(t, p),
{
    let s = e + p + t;
    assert(s.subrange(e.len() as int, (e.len() + p.len()) as int) =~= p);
    lemma_find_first(s, p, 0, e.len() as int);
    assert(s.take(e.len() as int) =~= e);
    assert(s.skip((e.len() + p.len()) as int) =~= t);
}

/// Splitting at a character: a first piece free of `c`, then the rest.
pub proof fn lemma_split_front(a: Seq<char>, b: Seq<char>, c: char)
    requires
        !a.contains(c),
    ensures
        seq_split(a + seq![c] + b, c) == seq![a] + seq_split(b, c),
{
    let s = a + seq![c] + b;
    assert forall|j: int| 0 <= j < a.len() implies #[trigger] s[j] != c by {
        assert(s[j] == a[j]);
    }
    assert(s[a.len() as int] == c);
    lemma_find_char(s, c, a.len() as int);
    assert(s.take(a.len() as int) =~= a);
    assert(s.skip(a.len() as int + 1) =~= b);
}

/// Splitting a text free of `c` gives it back whole.
pub proof fn lemma_split_whole(a: Seq<char>, c: char)
    requires
        !a.contains(c),
    ensures
        seq_split(a, c) == seq![a],
{
    assert forall|j: int| 0 <= j < a.len() implies #[trigger] a[j] != c by {
        if a[j] == c {
            assert(a.contains(c));
        }
    }
    lemma_find_char(a, c, a.len() as int);
}

/// A digit's character stands for the digit.
proof fn lemma_digit_char(d: nat)
    requires
        d < 10,
    ensures
        digit_char(d) as int == d + 48,
        '0' <= digit_char(d) <= '9',
{
    assert(((d + 48) as u32) as int == d + 48);
}

/// Decimal writing is non-empty, all digits, and reads back as the number written.
pub proof fn lemma_nat_to_dec(n: nat)
    ensures
        nat_to_dec(n).len() > 0,
        all_digits(nat_to_dec(n)),
        digits_value(nat_to_dec(n)) == n,
    decreases n,
{
    lemma_digit_char(n % 10);
    if n < 10 {
        let s = nat_to_dec(n);
        assert(s.drop_last() =~= Seq::<char>::empty());
        assert(n % 10 == n);
        assert(s.last() == digit_char(n));
        assert('0' as int == 48);
        assert(digits_value(s) == digits_value(s.drop_last()) * 10 + ((s.last() as int - '0' as int) as nat));
    } else {
        lemma_nat_to_dec(n / 10);
        let s = nat_to_dec(n);
        let d = nat_to_dec(n / 10);
        assert(s.drop_last() =~= d);
        assert(n == (n / 10) * 10 + n % 10) by (nonlinear_arith);
        assert(s.last() == digit_char(n % 10));
        assert('0' as int == 48);
        assert(digits_value(s) == digits_value(d) * 10 + ((s.last() as int - '0' as int) as nat));
        assert forall|i: int| 0 <= i < s.len() implies '0' <= #[trigger] s[i] && s[i] <= '9' by {
            if i < d.len() {
                assert(s[i] == d[i]);
            }
        }
    }
}

/// Parsing the decimal writing of a number gives the number back.
pub proof fn lemma_parse_dec(n: u64)
    ensures
        parse_u64_spec(nat_to_dec(n as nat)) == Some(n),
{
    lemma_nat_to_dec(n as nat);
    let s = nat_to_dec(n as nat);
    assert('0' <= s[0] && s[0] <= '9');
}

/// Splitting always gives at least one piece.
pub proof fn lemma_split_nonempty(s: Seq<char>, c: char)
    ensures
        seq_split(s, c).len() > 0,
    decreases s.len(),
{
    match find_from(s, seq![c], 0) {
        Some(k) => if 0 <= k < s.len() {
            lemma_split_nonempty(s.skip(k + 1), c);
        },
        None => {},
    }
}


/// The pieces of `s` between the non-overlapping occurrences of the non-empty `p`, found from
/// the left (what `str::split` with a `&str` pattern gives).
pub open spec fn seq_split_str(s: Seq<char>, p: Seq<char>) -> Seq<Seq<char>>
    decreases s.len(),
{
    if p.len() == 0 {
        seq![s]
    } else {
        match find_from(s, p, 0) {
            Some(k) => if 0 <= k && k + p.len() <= s.len() {
                seq![s.take(k)] + seq_split_str(s.skip(k + p.len()), p)
            } else {
                seq![s]
            },
            None => seq![s],
        }
    }
}

/// Searching a suffix of `s` is searching `s` from where the suffix starts.
pub proof fn lemma_find_from_skip(s: Seq<char>, p: Seq<char>, a: int, i: int)
    requires
        0 <= a <= s.len(),
        0 <= i,
    ensures
        find_from(s.skip(a), p, i) == (match find_from(s, p, a + i) {
            Some(k) => Some(k - a),
            None => None::<int>,
        }),
    decreases s.len() + 1 - (a + i),
{
    let t = s.skip(a);
    if i + p.len() > t.len() {
    } else {
        assert(t.subrange(i, i + p.len()) == s.subrange(a + i, a + i + p.len()));
        if !matches_at(s, p, a + i) {
            lemma_find_from_skip(s, p, a, i + 1);
        }
    }
}

/// Splitting never gives an empty list of pieces.
pub proof fn lemma_split_str_nonempty(s: Seq<char>, p: Seq<char>)
    ensures
        seq_split_str(s, p).len() > 0,
    decreases s.len(),
{
    if p.len() > 0 {
        match find_from(s, p, 0) {
            Some(k) => if 0 <= k && k + p.len() <= s.len() {
                lemma_split_str_nonempty(s.skip(k + p.len()), p);
            },
            None => {},
        }
    }
}

/// Without an occurrence of `p`, splitting gives `s` back as the only piece.
pub proof fn lemma_split_str_absent(s: Seq<char>, p: Seq<char>)
    requires
        !seq_contains(s, p),
    ensures
        seq_split_str(s, p) == seq![s],
{
    lemma_find_from_contains(s, p, 0);
    if p.len() > 0 {
        match find_from(s, p, 0) {
            Some(k) => {
                assert(matches_at(s, p, k));
            },
            None => {},
        }
    }
}

/// The pieces of `s` between the occurrences of the non-empty `p` (what `str::split` gives).
pub fn split_str(s: &str, p: &str) -> (r: Vec<String>)
    requires
        p@.len() > 0,
    ensures
        r.deep_view() == seq_split_str(s@, p@),
{
    let v = chars_of(s);
    let pv = chars_of(p);
    let mut pieces: Vec<String> = Vec::new();
    let mut start: usize = 0;
    assert(v@.skip(0) == v@);
    loop
        invariant
            0 <= start <= v@.len(),
            v@ == s@,
            pv@ == p@,
            p@.len() > 0,
            pieces.deep_view() + seq_split_str(v@.skip(start as int), p@) == seq_split_str(v@, p@),
        decreases v@.len() - start,
    {
        let found = vec_find_from(&v, &pv, start);
        let ghost t = v@.skip(start as int);
        proof {
            lemma_find_from_skip(v@, p@, start as int, 0);
            lemma_find_from_contains(v@, p@, start as int);
        }
        match found {
            Some(k) => {
                proof {
                    assert(find_from(v@, p@, start as int) == Some(k as int));
                    assert(matches_at(v@, p@, k as int));
                    assert(find_from(t, p@, 0) == Some(k - start));
                    assert(t.take(k - start) == v@.subrange(start as int, k as int));
                    assert(t.skip(k - start + p@.len()) == v@.skip(k + p@.len()));
                }
                let piece = string_of_range(&v, start, k);
                let ghost before = pieces.deep_view();
                pieces.push(piece);
                assert(pieces.deep_view() == before.push(v@.subrange(start as int, k as int)));
                let vl = v.len();
                assert(k + pv@.len() <= vl);
                start = k + pv.len();
            },
            None => {
                assert(find_from(t, p@, 0) is None);
                assert(t == v@.subrange(start as int, v@.len() as int));
                let piece = string_of_range(&v, start, v.len());
                let ghost before = pieces.deep_view();
                pieces.push(piece);
                assert(pieces.deep_view() == before.push(t));
                return pieces;
            },
        }
    }
}


/// The number of bytes that `c` takes in UTF-8.
pub open spec fn utf8_len(c: char) -> int {
    if (c as u32) < 0x80 {
        1
    } else if (c as u32) < 0x800 {
        2
    } else if (c as u32) < 0x10000 {
        3
    } else {
        4
    }
}

/// The character index where byte `n` of the UTF-8 form of `s` starts, when a character (or
/// the end) starts there.
pub open spec fn char_at_byte(s: Seq<char>, n: int) -> Option<int>
    decreases s.len(),
{
    if n == 0 {
        Some(0)
    } else if n < 0 || s.len() == 0 {
        None
    } else {
        match char_at_byte(s.skip(1), n - utf8_len(s[0])) {
            Some(k) => Some(k + 1),
            None => None,
        }
    }
}

/// How many characters at the end of `s` make up its last `n` bytes, when a character starts
/// there.
pub open spec fn chars_in_last_bytes(s: Seq<char>, n: int) -> Option<int>
    decreases s.len(),
{
    if n == 0 {
        Some(0)
    } else if n < 0 || s.len() == 0 {
        None
    } else {
        match chars_in_last_bytes(s.drop_last(), n - utf8_len(s.last())) {
            Some(k) => Some(k + 1),
            None => None,
        }
    }
}

/// What slicing `s` by bytes from `lo` to `hi_from_end` bytes before its end gives, as `str`
/// slicing does; `None` where that slicing panics (a bound inside a character, or the bounds
/// crossing).
pub open spec fn byte_slice(s: Seq<char>, lo: int, hi_from_end: int) -> Option<Seq<char>> {
    match (char_at_byte(s, lo), chars_in_last_bytes(s, hi_from_end)) {
        (Some(a), Some(k)) => if a <= s.len() - k {
            Some(s.subrange(a, s.len() - k))
        } else {
            None
        },
        _ => None,
    }
}

/// The UTF-8 length of `c`.
pub fn utf8_len_of(c: char) -> (r: usize)
    ensures
        r == utf8_len(c),
{
    if (c as u32) < 0x80 {
        1
    } else if (c as u32) < 0x800 {
        2
    } else if (c as u32) < 0x10000 {
        3
    } else {
        4
    }
}

proof fn lemma_char_at_byte_step(s: Seq<char>, i: int, n: int, used: int)
    requires
        0 <= i < s.len(),
        n - used > 0,
        char_at_byte(s, n) == (match char_at_byte(s.skip(i), n - used) {
            Some(k) => Some(k + i),
            None => None::<int>,
        }),
    ensures
        char_at_byte(s, n) == (match char_at_byte(s.skip(i + 1), n - used - utf8_len(s[i])) {
            Some(k) => Some(k + i + 1),
            None => None::<int>,
        }),
{
    let t = s.skip(i);
    assert(t.skip(1) == s.skip(i + 1));
    assert(t[0] == s[i]);
}

proof fn lemma_last_bytes_step(s: Seq<char>, j: int, n: int, used: int)
    requires
        0 < j <= s.len(),
        n - used > 0,
        chars_in_last_bytes(s, n) == (match chars_in_last_bytes(s.take(j), n - used) {
            Some(k) => Some(k + (s.len() - j)),
            None => None::<int>,
        }),
    ensures
        chars_in_last_bytes(s, n) == (match chars_in_last_bytes(s.take(j - 1), n - used - utf8_len(s[j - 1])) {
            Some(k) => Some(k + (s.len() - j) + 1),
            None => None::<int>,
        }),
{
    let t = s.take(j);
    assert(t.drop_last() == s.take(j - 1));
    assert(t.last() == s[j - 1]);
}

/// Slices `v` by bytes, from byte `lo` to `hi_from_end` bytes before the end, or `None` where
/// `str` slicing would panic.
pub fn byte_slice_of(v: &Vec<char>, lo: usize, hi_from_end: usize) -> (r: Option<String>)
    ensures
        r.deep_view() == byte_slice(v@, lo as int, hi_from_end as int),
{
    // Where byte `lo` falls.
    let mut i: usize = 0;
    let mut used: usize = 0;
    assert(v@.skip(0) == v@);
    while used < lo && i < v.len()
        invariant
            0 <= i <= v@.len(),
            used <= lo,
            char_at_byte(v@, lo as int) == (match char_at_byte(v@.skip(i as int), lo - used) {
                Some(k) => Some(k + i),
                None => None::<int>,
            }),
        decreases v@.len() - i,
    {
        proof {
            lemma_char_at_byte_step(v@, i as int, lo as int, used as int);
        }
        let w = utf8_len_of(v[i]);
        if w > lo - used {
            assert(char_at_byte(v@.skip(i + 1), lo - used - utf8_len(v@[i as int])) is None);
            return None;
        }
        used = used + w;
        i += 1;
    }
    if used < lo {
        assert(v@.skip(i as int).len() == 0);
        return None;
    }
    let a = i;
    assert(char_at_byte(v@, lo as int) == Some(a as int));
    // Where the last `hi_from_end` bytes start.
    let mut j: usize = v.len();
    let mut back: usize = 0;
    assert(v@.take(v@.len() as int) == v@);
    while back < hi_from_end && j > 0
        invariant
            0 <= j <= v@.len(),
            back <= hi_from_end,
            chars_in_last_bytes(v@, hi_from_end as int) == (match chars_in_last_bytes(v@.take(j as int), hi_from_end - back) {
                Some(k) => Some(k + (v@.len() - j)),
                None => None::<int>,
            }),
        decreases j,
    {
        proof {
            lemma_last_bytes_step(v@, j as int, hi_from_end as int, back as int);
        }
        let w = utf8_len_of(v[j - 1]);
        if w > hi_from_end - back {
            assert(chars_in_last_bytes(v@.take(j - 1), hi_from_end - back - utf8_len(v@[j - 1])) is None);
            return None;
        }
        back = back + w;
        j -= 1;
    }
    if back < hi_from_end {
        assert(v@.take(j as int).len() == 0);
        return None;
    }
    assert(chars_in_last_bytes(v@, hi_from_end as int) == Some(v@.len() - j));
    if a > j {
        return None;
    }
    Some(string_of_range(v, a, j))
}


/// What slicing `s` by the byte range `lo..hi` gives, as `str` slicing does; `None` where that
/// panics.
pub open spec fn byte_range(s: Seq<char>, lo: int, hi: int) -> Option<Seq<char>> {
    match (char_at_byte(s, lo), char_at_byte(s, hi)) {
        (Some(a), Some(b)) => if a <= b && b <= s.len() {
            Some(s.subrange(a, b))
        } else {
            None
        },
        _ => None,
    }
}

/// `char_at_byte` only gives indices within `s`.
pub proof fn lemma_char_at_byte_bound(s: Seq<char>, n: int)
    ensures
        char_at_byte(s, n) matches Some(k) ==> 0 <= k <= s.len(),
    decreases s.len(),
{
    if n != 0 && n >= 0 && s.len() > 0 {
        lemma_char_at_byte_bound(s.skip(1), n - utf8_len(s[0]));
    }
}

/// The character index where byte `n` of `v` starts, if one does.
pub fn char_at_byte_of(v: &Vec<char>, n: usize) -> (r: Option<usize>)
    ensures
        r matches Some(k) ==> char_at_byte(v@, n as int) == Some(k as int),
        r is None ==> char_at_byte(v@, n as int) is None,
{
    let mut i: usize = 0;
    let mut used: usize = 0;
    assert(v@.skip(0) == v@);
    while used < n && i < v.len()
        invariant
            0 <= i <= v@.len(),
            used <= n,
            char_at_byte(v@, n as int) == (match char_at_byte(v@.skip(i as int), n - used) {
                Some(k) => Some(k + i),
                None => None::<int>,
            }),
        decreases v@.len() - i,
    {
        proof {
            lemma_char_at_byte_step(v@, i as int, n as int, used as int);
        }
        let w = utf8_len_of(v[i]);
        if w > n - used {
            assert(char_at_byte(v@.skip(i + 1), n - used - utf8_len(v@[i as int])) is None);
            return None;
        }
        used = used + w;
        i += 1;
    }
    if used < n {
        assert(v@.skip(i as int).len() == 0);
        return None;
    }
    Some(i)
}

/// Slices `v` by the byte range `lo..hi`, or `None` where `str` slicing would panic.
pub fn byte_range_of(v: &Vec<char>, lo: usize, hi: usize) -> (r: Option<String>)
    ensures
        r.deep_view() == byte_range(v@, lo as int, hi as int),
{
    proof {
        lemma_char_at_byte_bound(v@, lo as int);
        lemma_char_at_byte_bound(v@, hi as int);
    }
    match (char_at_byte_of(v, lo), char_at_byte_of(v, hi)) {
        (Some(a), Some(b)) => if a <= b {
            Some(string_of_range(v, a, b))
        } else {
            None
        },
        _ => None,
    }
}

/// `s` without the characters of `set` at either end (what `str::trim_matches` with a set of
/// characters gives).
pub open spec fn trim_chars(s: Seq<char>, set: Seq<char>) -> Seq<char>
    decreases s.len(),
{
    if s.len() > 0 && set.contains(s[0]) {
        trim_chars(s.skip(1), set)
    } else if s.len() > 0 && set.contains(s.last()) {
        trim_chars(s.drop_last(), set)
    } else {
        s
    }
}

/// `s` without the characters `a` and `b` at either end.
pub fn trim_two(s: &str, a: char, b: char) -> (r: String)
    ensures
        r@ == trim_chars(s@, seq![a, b]),
{
    let v = chars_of(s);
    let ghost set = seq![a, b];
    let mut lo: usize = 0;
    let mut hi: usize = v.len();
    assert(v@.subrange(0, v@.len() as int) == v@);
    while lo < hi && (v[lo] == a || v[lo] == b || v[hi - 1] == a || v[hi - 1] == b)
        invariant
            0 <= lo <= hi <= v@.len(),
            set == seq![a, b],
            trim_chars(v@, set) == trim_chars(v@.subrange(lo as int, hi as int), set),
        decreases hi - lo,
    {
        let ghost t = v@.subrange(lo as int, hi as int);
        assert(set.contains(a));
        assert(set.contains(b));
        if v[lo] == a || v[lo] == b {
            assert(t[0] == v@[lo as int]);
            assert(t.skip(1) == v@.subrange(lo + 1, hi as int));
            lo += 1;
        } else {
            assert(t[0] == v@[lo as int]);
            assert(!set.contains(t[0]));
            assert(t.last() == v@[hi - 1]);
            assert(t.drop_last() == v@.subrange(lo as int, hi - 1));
            hi -= 1;
        }
    }
    proof {
        let t = v@.subrange(lo as int, hi as int);
        if t.len() > 0 {
            assert(t[0] == v@[lo as int]);
            assert(t.last() == v@[hi - 1]);
            assert(!set.contains(t[0]));
            assert(!set.contains(t.last()));
        }
    }
    string_of_range(&v, lo, hi)
}


/// The number of bytes of the UTF-8 form of `s`.
pub open spec fn byte_len(s: Seq<char>) -> int
    decreases s.len(),
{
    if s.len() == 0 {
        0
    } else {
        byte_len(s.drop_last()) + utf8_len(s.last())
    }
}

/// The number of bytes of the UTF-8 form of `s` (what `str::len` gives).
pub fn byte_len_of(s: &str) -> (r: usize)
    requires
        byte_len(s@) <= usize::MAX,
    ensures
        r == byte_len(s@),
{
    let v = chars_of(s);
    let mut n: usize = 0;
    let mut i: usize = 0;
    assert(v@.take(0) =~= Seq::<char>::empty());
    while i < v.len()
        invariant
            v@ == s@,
            0 <= i <= v@.len(),
            n == byte_len(v@.take(i as int)),
            byte_len(s@) <= usize::MAX,
        decreases v@.len() - i,
    {
        assert(v@.take(i + 1).drop_last() =~= v@.take(i as int));
        proof {
            lemma_byte_len_prefix(v@, i + 1);
        }
        n = n + utf8_len_of(v[i]);
        i += 1;
    }
    assert(v@.take(v@.len() as int) =~= v@);
    n
}

/// A prefix takes no more bytes than the whole.
pub proof fn lemma_byte_len_prefix(s: Seq<char>, k: int)
    requires
        0 <= k <= s.len(),
    ensures
        byte_len(s.take(k)) <= byte_len(s),
    decreases s.len(),
{
    if k < s.len() {
        assert(s.drop_last().take(k) =~= s.take(k));
        lemma_byte_len_prefix(s.drop_last(), k);
    } else {
        assert(s.take(k) =~= s);
    }
}


/// Each character takes between one and four bytes.
pub proof fn lemma_byte_len_bound(s: Seq<char>)
    ensures
        s.len() <= byte_len(s) <= 4 * s.len(),
    decreases s.len(),
{
    if s.len() > 0 {
        lemma_byte_len_bound(s.drop_last());
    }
}


/// The uppercase hexadecimal digit character for `d < 16`.
pub open spec fn hex_digit_char(d: nat) -> char {
    if d < 10 {
        ((d + 48) as u32) as char
    } else {
        ((d + 55) as u32) as char
    }
}

/// Uppercase hexadecimal writing of `n`, without leading zeros (what `{:X}` gives).
pub open spec fn nat_to_hex(n: nat) -> Seq<char>
    decreases n,
{
    if n < 16 {
        seq![hex_digit_char(n)]
    } else {
        nat_to_hex(n / 16).push(hex_digit_char(n % 16))
    }
}

/// The hexadecimal digit character of `d < 16`.
pub fn hex_digit_to_char(d: u64) -> (c: char)
    requires
        d < 16,
    ensures
        c == hex_digit_char(d as nat),
{
    if d < 10 {
        ((d as u8) + 48) as char
    } else {
        ((d as u8) + 55) as char
    }
}

/// Uppercase hexadecimal characters of `n`.
pub fn u64_to_hex_chars(n: u64) -> (v: Vec<char>)
    ensures
        v@ == nat_to_hex(n as nat),
    decreases n,
{
    if n < 16 {
        let mut v = Vec::new();
        v.push(hex_digit_to_char(n));
        v
    } else {
        let mut v = u64_to_hex_chars(n / 16);
        v.push(hex_digit_to_char(n % 16));
        v
    }
}

/// Uppercase hexadecimal writing of `n` (what `format!("{:X}", n)` gives).
pub fn u64_to_hex_string(n: u64) -> (s: String)
    ensures
        s@ == nat_to_hex(n as nat),
{
    let v = u64_to_hex_chars(n);
    string_of(&v)
}


/// Trusted: std's `u32::from_str`. As its documentation says, it accepts an optional `+` and
/// then decimal digits whose value fits in 32 bits; the text of its error (from `to_string`) is
/// not stated.
#[verifier::external_body]
pub(crate) fn std_parse_u32(s: &str) -> (r: Result<u32, String>)
    ensures
        match parse_unsigned(s@) {
            Some(n) => if n <= u32::MAX {
                r == Ok::<u32, String>(n as u32)
            } else {
                r is Err
            },
            None => r is Err,
        },
{
    match s.parse::<u32>() {
        Ok(n) => Ok(n),
        Err(e) => Err(e.to_string()),
    }
}


/// Trimming never makes text longer, in characters or bytes.
pub proof fn lemma_trim_bytes(s: Seq<char>)
    ensures
        byte_len(seq_trim(s)) <= byte_len(s),
{
    lemma_trim_start_bytes(s);
    lemma_trim_end_bytes(trim_start(s));
}

proof fn lemma_trim_start_bytes(s: Seq<char>)
    ensures
        byte_len(trim_start(s)) <= byte_len(s),
    decreases s.len(),
{
    if s.len() > 0 && is_ws(s[0]) {
        lemma_trim_start_bytes(s.skip(1));
        lemma_byte_len_skip1(s);
    }
}

proof fn lemma_trim_end_bytes(s: Seq<char>)
    ensures
        byte_len(trim_end(s)) <= byte_len(s),
    decreases s.len(),
{
    if s.len() > 0 && is_ws(s.last()) {
        lemma_trim_end_bytes(s.drop_last());
    }
}

/// Dropping the first character drops its bytes.
pub proof fn lemma_byte_len_skip1(s: Seq<char>)
    requires
        s.len() > 0,
    ensures
        byte_len(s) == utf8_len(s[0]) + byte_len(s.skip(1)),
    decreases s.len(),
{
    if s.len() == 1 {
        assert(s.drop_last() =~= Seq::<char>::empty());
        assert(s.skip(1) =~= Seq::<char>::empty());
    } else {
        lemma_byte_len_skip1(s.drop_last());
        assert(s.drop_last().skip(1) =~= s.skip(1).drop_last());
        assert(s.skip(1).last() == s.last());
    }
}


/// The pieces joined with `sep` between them (what `join` gives).
pub open spec fn seq_join_str(pieces: Seq<Seq<char>>, sep: Seq<char>) -> Seq<char>
    decreases pieces.len(),
{
    if pieces.len() == 0 {
        Seq::<char>::empty()
    } else if pieces.len() == 1 {
        pieces[0]
    } else {
        seq_join_str(pieces.drop_last(), sep) + sep + pieces.last()
    }
}

/// The strings of `v` joined with `sep` between them.
pub fn join_str(v: &Vec<String>, sep: &str) -> (r: String)
    ensures
        r@ == seq_join_str(v.deep_view(), sep@),
{
    let ghost dv = v.deep_view();
    let mut out = String::new();
    let mut i: usize = 0;
    assert(dv.take(0) =~= Seq::<Seq<char>>::empty());
    while i < v.len()
        invariant
            dv == v.deep_view(),
            0 <= i <= dv.len(),
            out@ == seq_join_str(dv.take(i as int), sep@),
        decreases dv.len() - i,
    {
        assert(dv.take(i + 1).drop_last() =~= dv.take(i as int));
        assert(dv.take(i + 1).last() == dv[i as int]);
        assert(v@[i as int]@ == dv[i as int]);
        if i > 0 {
            append_str(&mut out, sep);
        }
        append_str(&mut out, v[i].as_str());
        proof {
            if i == 0 {
                assert(dv.take(1) =~= seq![dv[0]]);
                assert(out@ =~= dv[0]);
            }
        }
        i += 1;
    }
    assert(dv.take(dv.len() as int) =~= dv);
    out
}

/// Replacing a pattern that does not occur changes nothing.
pub proof fn lemma_replace_absent(s: Seq<char>, p: Seq<char>, r: Seq<char>)
    requires
        !seq_contains(s, p),
    ensures
        seq_replace(s, p, r) == s,
    decreases s.len(),
{
    if p.len() == 0 || s.len() < p.len() {
    } else {
        if s.subrange(0, p.len() as int) == p {
            assert(matches_at(s, p, 0));
        }
        assert forall|i: int| !matches_at(s.skip(1), p, i) by {
            if matches_at(s.skip(1), p, i) {
                assert(s.skip(1).subrange(i, i + p.len()) =~= s.subrange(i + 1, i + 1 + p.len()));
                assert(matches_at(s, p, i + 1));
            }
        }
        lemma_replace_absent(s.skip(1), p, r);
        assert(seq![s[0]] + s.skip(1) =~= s);
    }
}

/// A pattern holding a character that a text lacks does not occur in it.
pub proof fn lemma_absent_by_char(s: Seq<char>, p: Seq<char>, k: int)
    requires
        0 <= k < p.len(),
        !s.contains(p[k]),
    ensures
        !seq_contains(s, p),
{
    assert forall|i: int| !matches_at(s, p, i) by {
        if matches_at(s, p, i) {
            assert(s.subrange(i, i + p.len())[k] == s[i + k]);
            assert(s[i + k] == p[k]);
        }
    }
}

/// Replacing a whole text by something gives that something.
pub proof fn lemma_replace_whole(p: Seq<char>, r: Seq<char>)
    requires
        p.len() > 0,
    ensures
        seq_replace(p, p, r) == r,
{
    assert(p.subrange(0, p.len() as int) =~= p);
    assert(p.skip(p.len() as int) =~= Seq::<char>::empty());
    assert(seq_replace(p.skip(p.len() as int), p, r) == p.skip(p.len() as int));
    assert(r + Seq::<char>::empty() =~= r);
}

/// Where `find_from` finds a character, it is the first from `i` on.
proof fn lemma_find_char_result(t: Seq<char>, c: char, i: int)
    requires
        0 <= i,
    ensures
        find_from(t, seq![c], i) matches Some(k) ==> i <= k < t.len() && t[k] == c
            && forall|j: int| i <= j < k ==> t[j] != c,
        find_from(t, seq![c], i) is None ==> forall|j: int| i <= j < t.len() ==> t[j] != c,
{
    lemma_find_from_contains(t, seq![c], i);
    assert forall|j: int| 0 <= j < t.len() implies (matches_at(t, seq![c], j) <==> t[j] == c) by {
        if t[j] == c {
            assert(t.subrange(j, j + 1) =~= seq![c]);
        }
        if matches_at(t, seq![c], j) {
            assert(t.subrange(j, j + 1)[0] == t[j]);
        }
    }
}

/// The first piece of a split, when the text begins with a part free of the separator: that
/// part, then the first piece of the rest.
pub proof fn lemma_split_first_piece(a: Seq<char>, b: Seq<char>, c: char)
    requires
        !a.contains(c),
    ensures
        seq_split(a + b, c)[0] == a + seq_split(b, c)[0],
{
    let s = a + b;
    lemma_find_char_result(b, c, 0);
    assert forall|j: int| 0 <= j < a.len() implies #[trigger] s[j] != c by {
        assert(s[j] == a[j]);
        if a[j] == c {
            assert(a.contains(c));
        }
    }
    match find_from(b, seq![c], 0) {
        Some(k) => {
            assert forall|j: int| 0 <= j < a.len() + k implies #[trigger] s[j] != c by {
                if j >= a.len() {
                    assert(s[j] == b[j - a.len()]);
                }
            }
            assert(s[a.len() + k] == b[k]);
            lemma_find_char(s, c, a.len() + k);
            lemma_find_char(b, c, k);
            assert(s.take(a.len() + k) =~= a + b.take(k));
        },
        None => {
            assert forall|j: int| 0 <= j < s.len() implies #[trigger] s[j] != c by {
                if j >= a.len() {
                    assert(s[j] == b[j - a.len()]);
                }
            }
            lemma_find_char(s, c, s.len() as int);
            lemma_find_char(b, c, b.len() as int);
        },
    }
}

/// A text without whitespace is its own trimming.
pub proof fn lemma_trim_plain(x: Seq<char>)
    requires
        forall|j: int| 0 <= j < x.len() ==> !is_ws(#[trigger] x[j]),
    ensures
        seq_trim(x) == x,
{
    lemma_trim_start(x, 0);
    assert(x.skip(0) =~= x);
    lemma_trim_end(x, x.len() as int);
    assert(x.take(x.len() as int) =~= x);
}

} // verus!
