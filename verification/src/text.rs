//! Character-level helpers for the paths, names and messages the controller builds.
use vstd::prelude::*;
use vstd::string::*;

verus! {

/// Appends one character to a string (`String::push`).
///
/// Trusted: claims that `String::push` leaves the old contents in place and adds `c` at the end.
#[verifier::external_body]
pub(crate) fn push_char(s: &mut String, c: char)
    ensures
        final(s)@ == old(s)@.push(c),
{
    s.push(c);
}

/// The characters of `s`, in order.
pub fn chars_of(s: &str) -> (v: Vec<char>)
    ensures
        v@ == s@,
{
    let n = s.unicode_len();
    let mut v: Vec<char> = Vec::new();
    let mut i: usize = 0;
    while i < n
        invariant
            n == s@.len(),
            i <= n,
            v@ == s@.subrange(0, i as int),
        decreases n - i,
    {
        let c = s.get_char(i);
        v.push(c);
        i += 1;
        assert(v@ =~= s@.subrange(0, i as int));
    }
    assert(v@ =~= s@);
    v
}

/// Appends the characters `v[from..to]` to `s`.
pub fn push_chars(s: &mut String, v: &Vec<char>, from: usize, to: usize)
    requires
        from <= to <= v@.len(),
    ensures
        final(s)@ == old(s)@ + v@.subrange(from as int, to as int),
{
    let mut i: usize = from;
    while i < to
        invariant
            from <= i <= to,
            to <= v@.len(),
            s@ == old(s)@ + v@.subrange(from as int, i as int),
        decreases to - i,
    {
        push_char(s, v[i]);
        i += 1;
        assert(s@ =~= old(s)@ + v@.subrange(from as int, i as int));
    }
}

/// A string holding exactly the characters `v[from..to]`.
pub fn string_of_range(v: &Vec<char>, from: usize, to: usize) -> (s: String)
    requires
        from <= to <= v@.len(),
    ensures
        s@ == v@.subrange(from as int, to as int),
{
    let mut s = String::new();
    push_chars(&mut s, v, from, to);
    assert(s@ =~= v@.subrange(from as int, to as int));
    s
}

/// A copy of `t` as an owned string.
pub fn owned(t: &str) -> (s: String)
    ensures
        s@ == t@,
{
    let mut s = String::new();
    s.append(t);
    assert(s@ =~= t@);
    s
}

/// `s` with every trailing occurrence of `c` removed (`str::trim_end_matches` with a char).
pub open spec fn trim_end_char(s: Seq<char>, c: char) -> Seq<char>
    decreases s.len(),
{
    if s.len() > 0 && s.last() == c {
        trim_end_char(s.drop_last(), c)
    } else {
        s
    }
}

/// `s` with every leading occurrence of `c` removed (`str::trim_start_matches` with a char).
pub open spec fn trim_start_char(s: Seq<char>, c: char) -> Seq<char>
    decreases s.len(),
{
    if s.len() > 0 && s[0] == c {
        trim_start_char(s.drop_first(), c)
    } else {
        s
    }
}

/// The part of `s` after its last `c`; all of `s` when it holds no `c`
/// (`s.split(c).next_back()`).
pub open spec fn after_last(s: Seq<char>, c: char) -> Seq<char>
    decreases s.len(),
{
    if s.len() == 0 {
        s
    } else if s.last() == c {
        Seq::empty()
    } else {
        after_last(s.drop_last(), c).push(s.last())
    }
}

/// Index of the first `"--"` in `s` at or after `i`.
pub open spec fn find_double_dash_from(s: Seq<char>, i: int) -> Option<int>
    decreases s.len() - i,
{
    if i < 0 || i + 1 >= s.len() {
        None
    } else if s[i] == '-' && s[i + 1] == '-' {
        Some(i)
    } else {
        find_double_dash_from(s, i + 1)
    }
}

/// `s.splitn(2, "--")`: the text before the first `"--"` and the text after it, when there is one.
pub open spec fn split_double_dash(s: Seq<char>) -> Option<(Seq<char>, Seq<char>)> {
    match find_double_dash_from(s, 0) {
        Some(i) => Some((s.subrange(0, i), s.subrange(i + 2, s.len() as int))),
        None => None,
    }
}

/// The part after the last `c` of a text that ends in `c` followed by `seg`, where `seg`
/// holds no `c`, is `seg`.
pub proof fn lemma_after_last_suffix(pre: Seq<char>, seg: Seq<char>, c: char)
    requires
        !seg.contains(c),
    ensures
        after_last(pre.push(c) + seg, c) == seg,
    decreases seg.len(),
{
    let s = pre.push(c) + seg;
    if seg.len() == 0 {
        assert(s =~= pre.push(c));
    } else {
        let init = seg.drop_last();
        assert(s.drop_last() =~= pre.push(c) + init);
        assert(s.last() == seg.last());
        assert(seg.last() != c) by {
            assert(seg[seg.len() - 1] == seg.last());
        }
        assert(!init.contains(c)) by {
            if init.contains(c) {
                let i = choose|i: int| 0 <= i < init.len() && init[i] == c;
                assert(seg[i] == c);
            }
        }
        lemma_after_last_suffix(pre, init, c);
        assert(init.push(seg.last()) =~= seg);
    }
}

proof fn lemma_find_double_dash(s: Seq<char>, at: int, j: int)
    requires
        0 <= j <= at,
        at + 1 < s.len(),
        s[at] == '-' && s[at + 1] == '-',
        forall|i: int| j <= i < at ==> !(#[trigger] s[i] == '-' && s[i + 1] == '-'),
    ensures
        find_double_dash_from(s, j) == Some(at),
    decreases at - j,
{
    if j < at {
        lemma_find_double_dash(s, at, j + 1);
    }
}

/// Splitting `<k>--<b>` at its first `"--"` gives `k` and `b` when no `"--"` starts inside
/// `k` (that is, `k` holds no `"--"` and does not end in `-`).
pub proof fn lemma_split_double_dash(k: Seq<char>, b: Seq<char>)
    requires
        forall|j: int| 0 <= j < k.len() - 1 ==> !(#[trigger] k[j] == '-' && k[j + 1] == '-'),
        k.len() > 0 ==> k.last() != '-',
    ensures
        split_double_dash(k + seq!['-', '-'] + b) == Some((k, b)),
{
    let s = k + seq!['-', '-'] + b;
    let n = k.len() as int;
    assert forall|i: int| 0 <= i < n implies !(#[trigger] s[i] == '-' && s[i + 1] == '-') by {
        assert(s[i] == k[i]);
        if i + 1 < n {
            assert(s[i + 1] == k[i + 1]);
        } else {
            assert(k.last() == k[i]);
        }
    }
    lemma_find_double_dash(s, n, 0);
    assert(s.subrange(0, n) =~= k);
    assert(s.subrange(n + 2, s.len() as int) =~= b);
}

/// The characters for which `char::is_whitespace` holds.
pub open spec fn is_whitespace(c: char) -> bool {
    ||| ('\u{9}' <= c && c <= '\u{d}')
    ||| c == ' '
    ||| c == '\u{85}'
    ||| c == '\u{a0}'
    ||| c == '\u{1680}'
    ||| ('\u{2000}' <= c && c <= '\u{200a}')
    ||| c == '\u{2028}'
    ||| c == '\u{2029}'
    ||| c == '\u{202f}'
    ||| c == '\u{205f}'
    ||| c == '\u{3000}'
}

/// `s.trim().is_empty()`: every character of `s` is whitespace.
pub open spec fn is_blank(s: Seq<char>) -> bool {
    forall|i: int| 0 <= i < s.len() ==> is_whitespace(#[trigger] s[i])
}

/// The decimal digit for `d < 10`.
pub open spec fn digit(d: nat) -> char {
    if d == 0 { '0' }
    else if d == 1 { '1' }
    else if d == 2 { '2' }
    else if d == 3 { '3' }
    else if d == 4 { '4' }
    else if d == 5 { '5' }
    else if d == 6 { '6' }
    else if d == 7 { '7' }
    else if d == 8 { '8' }
    else { '9' }
}

/// The lowercase hexadecimal digit for `d < 16`.
pub open spec fn hex_digit(d: nat) -> char {
    if d < 10 { digit(d) }
    else if d == 10 { 'a' }
    else if d == 11 { 'b' }
    else if d == 12 { 'c' }
    else if d == 13 { 'd' }
    else if d == 14 { 'e' }
    else { 'f' }
}

/// The decimal text of `n`, without leading zeros (`n.to_string()`).
pub open spec fn decimal(n: nat) -> Seq<char>
    decreases n,
{
    if n < 10 {
        seq![digit(n)]
    } else {
        decimal(n / 10).push(digit(n % 10))
    }
}

/// The lowercase hexadecimal text of `n`, without leading zeros.
pub open spec fn hex(n: nat) -> Seq<char>
    decreases n,
{
    if n < 16 {
        seq![hex_digit(n)]
    } else {
        hex(n / 16).push(hex_digit(n % 16))
    }
}

/// The decimal text of a signed integer (`i.to_string()`).
pub open spec fn signed_decimal(i: int) -> Seq<char> {
    if i < 0 {
        seq!['-'] + decimal((-i) as nat)
    } else {
        decimal(i as nat)
    }
}

fn digit_char(d: u64) -> (c: char)
    requires
        d < 10,
    ensures
        c == digit(d as nat),
{
    if d == 0 { '0' }
    else if d == 1 { '1' }
    else if d == 2 { '2' }
    else if d == 3 { '3' }
    else if d == 4 { '4' }
    else if d == 5 { '5' }
    else if d == 6 { '6' }
    else if d == 7 { '7' }
    else if d == 8 { '8' }
    else { '9' }
}

fn hex_digit_char(d: u32) -> (c: char)
    requires
        d < 16,
    ensures
        c == hex_digit(d as nat),
{
    if d < 10 {
        digit_char(d as u64)
    } else if d == 10 { 'a' }
    else if d == 11 { 'b' }
    else if d == 12 { 'c' }
    else if d == 13 { 'd' }
    else if d == 14 { 'e' }
    else { 'f' }
}

/// Appends the decimal text of `n` to `s`.
pub fn push_decimal(s: &mut String, n: u64)
    ensures
        final(s)@ == old(s)@ + decimal(n as nat),
    decreases n,
{
    if n >= 10 {
        push_decimal(s, n / 10);
    }
    push_char(s, digit_char(n % 10));
    assert(final(s)@ =~= old(s)@ + decimal(n as nat)) by {
        if n >= 10 {
            assert(decimal(n as nat) == decimal((n / 10) as nat).push(digit((n % 10) as nat)));
        }
    }
}

/// Appends the lowercase hexadecimal text of `n` to `s`.
pub fn push_hex(s: &mut String, n: u32)
    ensures
        final(s)@ == old(s)@ + hex(n as nat),
    decreases n,
{
    if n >= 16 {
        push_hex(s, n / 16);
    }
    push_char(s, hex_digit_char(n % 16));
    assert(final(s)@ =~= old(s)@ + hex(n as nat)) by {
        if n >= 16 {
            assert(hex(n as nat) == hex((n / 16) as nat).push(hex_digit((n % 16) as nat)));
        }
    }
}

/// Appends the decimal text of a signed integer to `s`.
pub fn push_signed_decimal(s: &mut String, i: i64)
    ensures
        final(s)@ == old(s)@ + signed_decimal(i as int),
{
    if i < 0 {
        push_char(s, '-');
        let m: u64 = if i == i64::MIN {
            9223372036854775808u64
        } else {
            (-i) as u64
        };
        push_decimal(s, m);
        assert(final(s)@ =~= old(s)@ + signed_decimal(i as int));
    } else {
        push_decimal(s, i as u64);
    }
}


/// `s.trim_end_matches(c)`.
pub fn trim_end_matches_char(s: &str, c: char) -> (r: String)
    ensures
        r@ == trim_end_char(s@, c),
{
    let v = chars_of(s);
    let mut k: usize = v.len();
    assert(v@.subrange(0, k as int) =~= v@);
    while k > 0 && v[k - 1] == c
        invariant
            k <= v@.len(),
            v@ == s@,
            trim_end_char(s@, c) == trim_end_char(v@.subrange(0, k as int), c),
        decreases k,
    {
        assert(v@.subrange(0, k as int).drop_last() =~= v@.subrange(0, k - 1));
        k -= 1;
    }
    let r = string_of_range(&v, 0, k);
    r
}

/// `s.trim_start_matches(c)`.
pub fn trim_start_matches_char(s: &str, c: char) -> (r: String)
    ensures
        r@ == trim_start_char(s@, c),
{
    let v = chars_of(s);
    let n = v.len();
    let mut k: usize = 0;
    assert(v@.subrange(0, n as int) =~= v@);
    while k < n && v[k] == c
        invariant
            k <= n,
            n == v@.len(),
            v@ == s@,
            trim_start_char(s@, c) == trim_start_char(v@.subrange(k as int, n as int), c),
        decreases n - k,
    {
        assert(v@.subrange(k as int, n as int).drop_first() =~= v@.subrange(k + 1, n as int));
        k += 1;
    }
    let r = string_of_range(&v, k, n);
    r
}

/// `s.split(c).next_back()`: the text after the last `c` in `s`.
pub fn after_last_char(s: &str, c: char) -> (r: String)
    ensures
        r@ == after_last(s@, c),
{
    let v = chars_of(s);
    let n = v.len();
    let mut k: usize = n;
    assert(v@.subrange(k as int, n as int) =~= Seq::<char>::empty());
    assert(v@.subrange(0, n as int) =~= v@);
    while k > 0 && v[k - 1] != c
        invariant
            k <= n,
            n == v@.len(),
            v@ == s@,
            after_last(s@, c) == after_last(v@.subrange(0, k as int), c) + v@.subrange(k as int, n as int),
        decreases k,
    {
        let ghost pre = v@.subrange(0, k as int);
        assert(pre.drop_last() =~= v@.subrange(0, k - 1));
        assert(after_last(pre, c) == after_last(pre.drop_last(), c).push(pre.last()));
        assert(after_last(pre.drop_last(), c).push(pre.last()) + v@.subrange(k as int, n as int)
            =~= after_last(v@.subrange(0, k - 1), c) + v@.subrange(k - 1, n as int));
        k -= 1;
    }
    let r = string_of_range(&v, k, n);
    assert(after_last(v@.subrange(0, k as int), c) =~= Seq::<char>::empty()) by {
        if k > 0 {
            assert(v@.subrange(0, k as int).last() == c);
        }
    }
    assert(r@ =~= after_last(s@, c));
    r
}

/// `s.splitn(2, "--")` when it yields two parts.
pub fn split_once_double_dash(s: &str) -> (r: Option<(String, String)>)
    ensures
        match r {
            Some((a, b)) => split_double_dash(s@) == Some((a@, b@)),
            None => split_double_dash(s@) is None,
        },
{
    let v = chars_of(s);
    let n = v.len();
    let mut i: usize = 0;
    while n >= 2 && i < n - 1
        invariant
            i <= n,
            n == v@.len(),
            v@ == s@,
            find_double_dash_from(s@, 0) == find_double_dash_from(s@, i as int),
        decreases n - i,
    {
        if v[i] == '-' && v[i + 1] == '-' {
            let a = string_of_range(&v, 0, i);
            let b = string_of_range(&v, i + 2, n);
            return Some((a, b));
        }
        i += 1;
    }
    None
}

/// `s.trim().is_empty()`.
pub fn is_blank_str(s: &str) -> (b: bool)
    ensures
        b == is_blank(s@),
{
    let v = chars_of(s);
    let mut i: usize = 0;
    while i < v.len()
        invariant
            i <= v@.len(),
            v@ == s@,
            forall|j: int| 0 <= j < i ==> is_whitespace(#[trigger] v@[j]),
        decreases v@.len() - i,
    {
        let c = v[i];
        let ws = ('\u{9}' <= c && c <= '\u{d}') || c == ' ' || c == '\u{85}' || c == '\u{a0}'
            || c == '\u{1680}' || ('\u{2000}' <= c && c <= '\u{200a}') || c == '\u{2028}'
            || c == '\u{2029}' || c == '\u{202f}' || c == '\u{205f}' || c == '\u{3000}';
        if !ws {
            return false;
        }
        i += 1;
    }
    true
}

/// Whether `s` begins with `prefix` (`str::starts_with`).
pub fn starts_with(s: &str, prefix: &str) -> (b: bool)
    ensures
        b == (prefix@.len() <= s@.len() && s@.subrange(0, prefix@.len() as int) == prefix@),
{
    let v = chars_of(s);
    let p = chars_of(prefix);
    if p.len() > v.len() {
        return false;
    }
    let mut i: usize = 0;
    while i < p.len()
        invariant
            i <= p@.len() <= v@.len(),
            v@ == s@,
            p@ == prefix@,
            forall|j: int| 0 <= j < i ==> v@[j] == p@[j],
        decreases p@.len() - i,
    {
        if v[i] != p[i] {
            assert(s@.subrange(0, prefix@.len() as int)[i as int] != prefix@[i as int]);
            return false;
        }
        i += 1;
    }
    assert(s@.subrange(0, prefix@.len() as int) =~= prefix@);
    true
}

/// Whether two strings hold the same characters.
pub fn str_eq(a: &str, b: &str) -> (r: bool)
    ensures
        r == (a@ == b@),
{
    let va = chars_of(a);
    let vb = chars_of(b);
    if va.len() != vb.len() {
        return false;
    }
    let mut i: usize = 0;
    while i < va.len()
        invariant
            i <= va@.len(),
            va@.len() == vb@.len(),
            va@ == a@,
            vb@ == b@,
            forall|j: int| 0 <= j < i ==> va@[j] == vb@[j],
        decreases va@.len() - i,
    {
        if va[i] != vb[i] {
            assert(a@[i as int] != b@[i as int]);
            return false;
        }
        i += 1;
    }
    assert(a@ =~= b@);
    true
}

/// ASCII lowercasing of one character (`char::to_ascii_lowercase`).
pub open spec fn ascii_lower(c: char) -> char {
    if 'A' <= c && c <= 'Z' {
        ((c as u32) + 32) as char
    } else {
        c
    }
}

/// ASCII lowercasing of a string (`str::to_ascii_lowercase`).
pub open spec fn ascii_lowercase(s: Seq<char>) -> Seq<char> {
    s.map_values(|c: char| ascii_lower(c))
}

fn lower_char(c: char) -> (r: char)
    ensures
        r == ascii_lower(c),
{
    if 'A' <= c && c <= 'Z' {
        let b: u8 = c as u8;
        let l: u8 = b + 32;
        assert(l as char == ((c as u32) + 32) as char);
        l as char
    } else {
        c
    }
}

/// `s.to_ascii_lowercase()`.
pub fn to_ascii_lowercase(s: &str) -> (r: String)
    ensures
        r@ == ascii_lowercase(s@),
{
    let v = chars_of(s);
    let mut r = String::new();
    let mut i: usize = 0;
    while i < v.len()
        invariant
            i <= v@.len(),
            v@ == s@,
            r@ == ascii_lowercase(s@.subrange(0, i as int)),
        decreases v@.len() - i,
    {
        push_char(&mut r, lower_char(v[i]));
        i += 1;
        assert(r@ =~= ascii_lowercase(s@.subrange(0, i as int)));
    }
    assert(s@.subrange(0, v@.len() as int) =~= s@);
    r
}

} // verus!
