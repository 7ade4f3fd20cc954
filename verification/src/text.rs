//! Character-sequence utilities shared by the parsers and formatters.

use vstd::prelude::*;

verus! {

/// The characters of `s`, in order.
pub fn chars_of(s: &str) -> (v: Vec<char>)
    ensures
        v@ == s@,
{
    let mut v: Vec<char> = Vec::new();
    for c in it: s.chars()
        invariant
            v@ == it.seq().take(it.index()),
    {
        v.push(c);
    }
    v
}

/// Appends one character: `String::push` from std.
#[verifier::external_body]
pub(crate) fn push_char(s: &mut String, c: char)
    ensures
        final(s)@ == old(s)@.push(c),
{
    s.push(c);
}

/// Appends `v[lo..hi]` to `s`.
pub fn push_chars(s: &mut String, v: &[char], lo: usize, hi: usize)
    requires
        lo <= hi <= v@.len(),
    ensures
        final(s)@ == old(s)@ + v@.subrange(lo as int, hi as int),
{
    let ghost start = s@;
    let mut i = lo;
    while i < hi
        invariant
            lo <= i <= hi <= v@.len(),
            s@ == start + v@.subrange(lo as int, i as int),
        decreases hi - i,
    {
        push_char(s, v[i]);
        assert(v@.subrange(lo as int, i + 1) == v@.subrange(lo as int, i as int).push(v@[i as int]));
        i = i + 1;
    }
}

/// A new string holding `v[lo..hi]`.
pub fn string_from(v: &[char], lo: usize, hi: usize) -> (s: String)
    requires
        lo <= hi <= v@.len(),
    ensures
        s@ == v@.subrange(lo as int, hi as int),
{
    let mut s = String::new();
    push_chars(&mut s, v, lo, hi);
    s
}

/// A new string equal to `t`.
pub fn string_of(t: &str) -> (s: String)
    ensures
        s@ == t@,
{
    let mut s = String::new();
    push_str(&mut s, t);
    assert(Seq::<char>::empty() + t@ == t@);
    s
}

/// Appends the characters of `t` to `s`.
pub fn push_str(s: &mut String, t: &str)
    ensures
        final(s)@ == old(s)@ + t@,
{
    let v = chars_of(t);
    push_chars(s, v.as_slice(), 0, v.len());
    assert(v@.subrange(0, v@.len() as int) == v@);
}

/// Whether `p` occurs in `s` starting at index `i`.
pub open spec fn occurs_at(s: Seq<char>, p: Seq<char>, i: int) -> bool {
    0 <= i && i + p.len() <= s.len() && s.subrange(i, i + p.len()) == p
}

/// The first index at or after `i` where `p` occurs in `s`.
pub open spec fn find_from(s: Seq<char>, p: Seq<char>, i: int) -> Option<int>
    decreases s.len() + 1 - i,
{
    if i < 0 || i + p.len() > s.len() {
        None
    } else if occurs_at(s, p, i) {
        Some(i)
    } else {
        find_from(s, p, i + 1)
    }
}

/// Whether `p` occurs anywhere in `s` (substring containment).
pub open spec fn contains_seq(s: Seq<char>, p: Seq<char>) -> bool {
    exists|i: int| occurs_at(s, p, i)
}

/// What `find_from` returns is the least occurrence at or after `i`.
pub proof fn lemma_find_from(s: Seq<char>, p: Seq<char>, i: int)
    requires
        0 <= i,
    ensures
        find_from(s, p, i) matches Some(k) ==> i <= k && occurs_at(s, p, k)
            && forall|j: int| i <= j < k ==> !occurs_at(s, p, j),
        find_from(s, p, i) is None ==> forall|j: int| i <= j ==> !occurs_at(s, p, j),
    decreases s.len() + 1 - i,
{
    if i + p.len() > s.len() {
    } else if occurs_at(s, p, i) {
    } else {
        lemma_find_from(s, p, i + 1);
        assert forall|j: int| i <= j && j < i + 1 implies !occurs_at(s, p, j) by {
            assert(j == i);
        }
    }
}

/// `find_from` gives the first occurrence at or after `i`.
pub proof fn lemma_find_from_first(s: Seq<char>, p: Seq<char>, i: int, k: int)
    requires
        0 <= i <= k,
        occurs_at(s, p, k),
        forall|j: int| i <= j < k ==> !occurs_at(s, p, j),
    ensures
        find_from(s, p, i) == Some(k),
    decreases k - i,
{
    if i < k {
        assert(!occurs_at(s, p, i));
        lemma_find_from_first(s, p, i + 1, k);
    }
}

/// Whether `p` occurs in `s` at index `i`.
pub fn matches_at(s: &[char], p: &[char], i: usize) -> (b: bool)
    ensures
        b == occurs_at(s@, p@, i as int),
{
    if i > s.len() || p.len() > s.len() - i {
        return false;
    }
    let mut k: usize = 0;
    while k < p.len()
        invariant
            i + p@.len() <= s@.len(),
            i + p.len() <= s.len(),
            k <= p@.len(),
            forall|j: int| 0 <= j < k ==> s@[i + j] == p@[j],
        decreases p.len() - k,
    {
        if s[i + k] != p[k] {
            assert(s@.subrange(i as int, i + p@.len())[k as int] != p@[k as int]);
            return false;
        }
        k = k + 1;
    }
    assert(s@.subrange(i as int, i + p@.len()) =~= p@);
    true
}

/// The first index at or after `start` where `p` occurs in `s`.
pub fn find(s: &[char], p: &[char], start: usize) -> (r: Option<usize>)
    ensures
        r matches Some(k) ==> find_from(s@, p@, start as int) == Some(k as int),
        r is None ==> find_from(s@, p@, start as int) is None,
{
    if start > s.len() || p.len() > s.len() - start {
        return None;
    }
    if p.len() == 0 {
        assert(s@.subrange(start as int, start as int) =~= p@);
        return Some(start);
    }
    let mut i = start;
    while i <= s.len() - p.len()
        invariant
            start <= i,
            1 <= p@.len() <= s@.len(),
            i <= s@.len() - p@.len() + 1,
            find_from(s@, p@, start as int) == find_from(s@, p@, i as int),
        decreases s.len() - p.len() + 1 - i,
    {
        if matches_at(s, p, i) {
            return Some(i);
        }
        i = i + 1;
    }
    None
}

/// Whether `v[lo..hi]` is exactly `lit`.
pub fn range_eq(v: &[char], lo: usize, hi: usize, lit: &[char]) -> (b: bool)
    requires
        lo <= hi <= v@.len(),
    ensures
        b == (v@.subrange(lo as int, hi as int) == lit@),
{
    if hi - lo != lit.len() {
        return false;
    }
    let mut k: usize = 0;
    while k < lit.len()
        invariant
            lo <= hi <= v@.len(),
            hi - lo == lit@.len(),
            k <= lit@.len(),
            forall|j: int| 0 <= j < k ==> v@[lo + j] == lit@[j],
        decreases lit.len() - k,
    {
        if v[lo + k] != lit[k] {
            assert(v@.subrange(lo as int, hi as int)[k as int] != lit@[k as int]);
            return false;
        }
        k = k + 1;
    }
    assert(v@.subrange(lo as int, hi as int) =~= lit@);
    true
}

/// Whether `c` has the Unicode `White_Space` property: U+0009 to U+000D,
/// space, U+0085, U+00A0, U+1680, U+2000 to U+200A, U+2028, U+2029, U+202F,
/// U+205F and U+3000.
pub open spec fn unicode_white_space(c: char) -> bool {
    let n = c as u32;
    ||| 0x9 <= n <= 0xd
    ||| n == 0x20
    ||| n == 0x85
    ||| n == 0xa0
    ||| n == 0x1680
    ||| 0x2000 <= n <= 0x200a
    ||| n == 0x2028
    ||| n == 0x2029
    ||| n == 0x202f
    ||| n == 0x205f
    ||| n == 0x3000
}

/// Whether `c` is white space: the characters with the Unicode `White_Space`
/// property, as `char::is_whitespace` tells them.
pub(crate) fn is_whitespace(c: char) -> (b: bool)
    ensures
        b == unicode_white_space(c),
        (c == ' ' || c == '\t' || c == '\n' || c == '\r') ==> b,
{
    let n = c as u32;
    (0x9 <= n && n <= 0xd) || n == 0x20 || n == 0x85 || n == 0xa0 || n == 0x1680 || (0x2000 <= n && n
        <= 0x200a) || n == 0x2028 || n == 0x2029 || n == 0x202f || n == 0x205f || n == 0x3000
}

/// Index of the first non-white-space character at or after `i`.
pub open spec fn trim_start_index(s: Seq<char>, i: int) -> int
    decreases s.len() - i,
{
    if i < 0 || i >= s.len() {
        if i < 0 { 0 } else { s.len() as int }
    } else if unicode_white_space(s[i]) {
        trim_start_index(s, i + 1)
    } else {
        i
    }
}

/// One past the last non-white-space character before `j`, no lower than `lo`.
pub open spec fn trim_end_index(s: Seq<char>, lo: int, j: int) -> int
    decreases j - lo,
{
    if j <= lo {
        lo
    } else if unicode_white_space(s[j - 1]) {
        trim_end_index(s, lo, j - 1)
    } else {
        j
    }
}

/// `s` with leading and trailing white space removed, as `str::trim` does.
pub open spec fn trimmed(s: Seq<char>) -> Seq<char> {
    let lo = trim_start_index(s, 0);
    s.subrange(lo, trim_end_index(s, lo, s.len() as int))
}

/// The characters of `s` with leading and trailing white space removed.
pub fn trim_chars(s: &[char]) -> (t: Vec<char>)
    ensures
        t@ == trimmed(s@),
{
    let mut lo: usize = 0;
    while lo < s.len() && is_whitespace(s[lo])
        invariant
            lo <= s@.len(),
            trim_start_index(s@, 0) == trim_start_index(s@, lo as int),
        decreases s.len() - lo,
    {
        lo = lo + 1;
    }
    let mut hi: usize = s.len();
    while hi > lo && is_whitespace(s[hi - 1])
        invariant
            lo <= hi <= s@.len(),
            trim_start_index(s@, 0) == lo,
            trim_end_index(s@, lo as int, s@.len() as int) == trim_end_index(s@, lo as int, hi as int),
        decreases hi - lo,
    {
        hi = hi - 1;
    }
    let mut t: Vec<char> = Vec::new();
    let mut k = lo;
    while k < hi
        invariant
            lo <= k <= hi <= s@.len(),
            t@ == s@.subrange(lo as int, k as int),
        decreases hi - k,
    {
        t.push(s[k]);
        assert(s@.subrange(lo as int, k + 1) == s@.subrange(lo as int, k as int).push(s@[k as int]));
        k = k + 1;
    }
    t
}

/// The decimal digit character for `d` in `0..10`.
pub open spec fn digit_char(d: int) -> char {
    if d == 0 {
        '0'
    } else if d == 1 {
        '1'
    } else if d == 2 {
        '2'
    } else if d == 3 {
        '3'
    } else if d == 4 {
        '4'
    } else if d == 5 {
        '5'
    } else if d == 6 {
        '6'
    } else if d == 7 {
        '7'
    } else if d == 8 {
        '8'
    } else {
        '9'
    }
}

/// The decimal representation of `n`, without leading zeros.
pub open spec fn decimal(n: nat) -> Seq<char>
    decreases n,
{
    if n < 10 {
        seq![digit_char(n as int)]
    } else {
        decimal(n / 10).push(digit_char((n % 10) as int))
    }
}

/// The decimal representation of an integer, with a leading `-` when negative.
pub open spec fn signed_decimal(n: int) -> Seq<char> {
    if n < 0 {
        seq!['-'] + decimal((-n) as nat)
    } else {
        decimal(n as nat)
    }
}

fn digit(d: u64) -> (c: char)
    requires
        d < 10,
    ensures
        c == digit_char(d as int),
{
    match d {
        0 => '0',
        1 => '1',
        2 => '2',
        3 => '3',
        4 => '4',
        5 => '5',
        6 => '6',
        7 => '7',
        8 => '8',
        _ => '9',
    }
}

/// Appends the decimal representation of `n`.
pub fn push_decimal(s: &mut String, n: u64)
    ensures
        final(s)@ == old(s)@ + decimal(n as nat),
    decreases n,
{
    if n >= 10 {
        push_decimal(s, n / 10);
    }
    push_char(s, digit(n % 10));
    proof {
        if n < 10 {
            assert(old(s)@ + decimal(n as nat) == old(s)@.push(digit_char(n as int)));
        } else {
            assert(old(s)@ + decimal(n as nat) == (old(s)@ + decimal((n / 10) as nat)).push(
                digit_char((n % 10) as int),
            ));
        }
    }
}

/// Appends the decimal representation of `n`, with a leading `-` when negative.
pub fn push_signed_decimal(s: &mut String, n: i64)
    ensures
        final(s)@ == old(s)@ + signed_decimal(n as int),
{
    if n < 0 {
        push_char(s, '-');
        let m: u64 = ((-(n + 1)) as u64) + 1;
        push_decimal(s, m);
        assert(old(s)@ + signed_decimal(n as int) == old(s)@.push('-') + decimal(m as nat));
    } else {
        push_decimal(s, n as u64);
    }
}

/// Lexicographic order of character sequences by code point, which is also the
/// byte order of their UTF-8 encodings (the order of `String`).
pub open spec fn seq_lt(a: Seq<char>, b: Seq<char>) -> bool
    decreases a.len(),
{
    if a.len() == 0 {
        b.len() > 0
    } else if b.len() == 0 {
        false
    } else if (a[0] as int) < (b[0] as int) {
        true
    } else if a[0] == b[0] {
        seq_lt(a.drop_first(), b.drop_first())
    } else {
        false
    }
}

/// `seq_lt` is a strict total order: irreflexive, asymmetric and total.
pub proof fn lemma_seq_lt_total(a: Seq<char>, b: Seq<char>)
    ensures
        !(seq_lt(a, b) && seq_lt(b, a)),
        a == b || seq_lt(a, b) || seq_lt(b, a),
        !seq_lt(a, a),
    decreases a.len(),
{
    if a.len() > 0 {
        lemma_seq_lt_total(a.drop_first(), a.drop_first());
        if b.len() > 0 {
            lemma_seq_lt_total(a.drop_first(), b.drop_first());
            if a[0] == b[0] {
                if a.drop_first() == b.drop_first() {
                    assert(a =~= seq![a[0]] + a.drop_first());
                    assert(b =~= seq![b[0]] + b.drop_first());
                }
            } else {
                assert((a[0] as int) != (b[0] as int));
            }
        }
    } else if b.len() == 0 {
        assert(a =~= b);
    }
}

/// `seq_lt` is transitive.
pub proof fn lemma_seq_lt_transitive(a: Seq<char>, b: Seq<char>, c: Seq<char>)
    requires
        seq_lt(a, b),
        seq_lt(b, c),
    ensures
        seq_lt(a, c),
    decreases a.len(),
{
    if a.len() > 0 && b.len() > 0 && c.len() > 0 && a[0] == b[0] && b[0] == c[0] {
        lemma_seq_lt_transitive(a.drop_first(), b.drop_first(), c.drop_first());
    }
}

proof fn lemma_seq_lt_skip(a: Seq<char>, b: Seq<char>, i: int)
    requires
        0 <= i < a.len(),
        i < b.len(),
        a[i] == b[i],
    ensures
        seq_lt(a.skip(i), b.skip(i)) == seq_lt(a.skip(i + 1), b.skip(i + 1)),
{
    assert(a.skip(i).drop_first() =~= a.skip(i + 1));
    assert(b.skip(i).drop_first() =~= b.skip(i + 1));
}

/// Whether `a` comes before `b` in the order of strings.
pub fn str_lt(a: &str, b: &str) -> (r: bool)
    ensures
        r == seq_lt(a@, b@),
{
    let va = chars_of(a);
    let vb = chars_of(b);
    let mut i: usize = 0;
    assert(va@.skip(0) == va@);
    assert(vb@.skip(0) == vb@);
    while i < va.len() && i < vb.len() && va[i] == vb[i]
        invariant
            i <= va@.len(),
            i <= vb@.len(),
            seq_lt(a@, b@) == seq_lt(va@.skip(i as int), vb@.skip(i as int)),
        decreases va@.len() - i,
    {
        proof {
            lemma_seq_lt_skip(va@, vb@, i as int);
        }
        i = i + 1;
    }
    proof {
        if i < va@.len() {
            assert(va@.skip(i as int)[0] == va@[i as int]);
        }
        if i < vb@.len() {
            assert(vb@.skip(i as int)[0] == vb@[i as int]);
        }
    }
    if i == va.len() {
        i < vb.len()
    } else if i == vb.len() {
        false
    } else {
        va[i] < vb[i]
    }
}

/// `s` with every `c` replaced by `t`.
pub open spec fn replace_char(s: Seq<char>, c: char, t: Seq<char>) -> Seq<char>
    decreases s.len(),
{
    if s.len() == 0 {
        Seq::empty()
    } else {
        replace_char(s.drop_last(), c, t) + if s.last() == c {
            t
        } else {
            seq![s.last()]
        }
    }
}

/// `s` with every `c` replaced by `t` (`str::replace` with a one-character pattern).
pub fn replace_char_str(s: &str, c: char, t: &str) -> (r: String)
    ensures
        r@ == replace_char(s@, c, t@),
{
    let v = chars_of(s);
    let mut r = String::new();
    let mut i: usize = 0;
    while i < v.len()
        invariant
            i <= v@.len(),
            v@ == s@,
            r@ == replace_char(v@.take(i as int), c, t@),
        decreases v@.len() - i,
    {
        assert(v@.take(i + 1).drop_last() =~= v@.take(i as int));
        if v[i] == c {
            push_str(&mut r, t);
        } else {
            push_char(&mut r, v[i]);
            assert(r@ =~= replace_char(v@.take(i as int), c, t@) + seq![v@[i as int]]);
        }
        i = i + 1;
    }
    assert(v@.take(v@.len() as int) =~= v@);
    r
}


/// A window title as the cards and the records table show it: a title of more
/// than 50 characters keeps its first 47 and ends in `...`; a shorter one is kept.
pub open spec fn shown_title(title: Seq<char>) -> Seq<char> {
    if title.len() > 50 {
        title.take(47) + seq!['.', '.', '.']
    } else {
        title
    }
}

/// Shortens `title` to at most 50 characters, counted by character.
pub fn truncate_title(title: &str) -> (r: String)
    ensures
        r@ == shown_title(title@),
{
    let v = chars_of(title);
    if v.len() > 50 {
        let mut r = string_from(&v, 0, 47);
        push_char(&mut r, '.');
        push_char(&mut r, '.');
        push_char(&mut r, '.');
        assert(v@.subrange(0, 47) =~= title@.take(47));
        r
    } else {
        string_of(title)
    }
}

} // verus!
