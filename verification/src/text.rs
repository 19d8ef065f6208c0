//! Text building blocks shared by the formatting code and the applet's
//! state machine: decimal rendering and parsing, substring search,
//! trimming, and moving between `String` and sequences of characters.
use vstd::prelude::*;

verus! {

/// `String::push` appends one character to the end of the string.
pub assume_specification[ String::push ](string: &mut String, ch: char)
    ensures
        final(string)@ == old(string)@.push(ch),
;

/// The text of an optional string.
pub open spec fn opt_text(o: Option<String>) -> Option<Seq<char>> {
    match o {
        Some(s) => Some(s@),
        None => None,
    }
}

// ===================== decimal rendering =====================

/// The ASCII digit for `d` (taken modulo nothing: `d` is expected in `0..10`).
pub open spec fn digit_char(d: int) -> char {
    if d == 0 {
        '0'
    } else if d == 1 {
        '1'
    } else if d == 2 {
        '2'
    } else if d == 3 {
        '3'
    } else if d == 4 {
        '4'
    } else if d == 5 {
        '5'
    } else if d == 6 {
        '6'
    } else if d == 7 {
        '7'
    } else if d == 8 {
        '8'
    } else {
        '9'
    }
}

/// The decimal representation of `n`, without leading zeros (`"0"` for zero).
pub open spec fn decimal(n: nat) -> Seq<char>
    decreases n,
{
    if n < 10 {
        seq![digit_char(n as int)]
    } else {
        decimal(n / 10).push(digit_char((n % 10) as int))
    }
}

fn digit_to_char(d: u64) -> (c: char)
    requires
        d < 10,
    ensures
        c == digit_char(d as int),
{
    if d == 0 {
        '0'
    } else if d == 1 {
        '1'
    } else if d == 2 {
        '2'
    } else if d == 3 {
        '3'
    } else if d == 4 {
        '4'
    } else if d == 5 {
        '5'
    } else if d == 6 {
        '6'
    } else if d == 7 {
        '7'
    } else if d == 8 {
        '8'
    } else {
        '9'
    }
}

/// Appends the decimal representation of `n` to `s`.
pub fn push_decimal(s: &mut String, n: u64)
    ensures
        final(s)@ == old(s)@ + decimal(n as nat),
    decreases n,
{
    if n >= 10 {
        push_decimal(s, n / 10);
    }
    let c = digit_to_char(n % 10);
    s.push(c);
    proof {
        assert(old(s)@ + decimal(n as nat) =~= if n < 10 {
            old(s)@.push(c)
        } else {
            (old(s)@ + decimal((n / 10) as nat)).push(c)
        });
    }
}

/// The decimal representation of `n`, as `n.to_string()` writes it.
pub fn u64_to_string(n: u64) -> (s: String)
    ensures
        s@ == decimal(n as nat),
{
    let mut s = String::new();
    push_decimal(&mut s, n);
    assert(s@ =~= decimal(n as nat));
    s
}

// ===================== decimal parsing =====================

pub open spec fn is_digit(c: char) -> bool {
    '0' <= c && c <= '9'
}

pub open spec fn digit_value(c: char) -> nat {
    ((c as int) - ('0' as int)) as nat
}

pub open spec fn all_digits(s: Seq<char>) -> bool {
    forall|i: int| 0 <= i < s.len() ==> is_digit(#[trigger] s[i])
}

/// The number that a sequence of decimal digits denotes.
pub open spec fn digits_value(s: Seq<char>) -> nat
    decreases s.len(),
{
    if s.len() == 0 {
        0
    } else {
        digits_value(s.drop_last()) * 10 + digit_value(s.last())
    }
}

/// The digits that `u64::from_str` reads: an optional leading `+` is dropped.
pub open spec fn unsigned_body(s: Seq<char>) -> Seq<char> {
    if s.len() > 0 && s[0] == '+' {
        s.drop_first()
    } else {
        s
    }
}

/// What `s.parse::<u64>()` gives back, `None` standing for every error:
/// an optional `+`, then one or more ASCII digits whose value fits in a `u64`.
pub open spec fn parse_u64_spec(s: Seq<char>) -> Option<u64> {
    let body = unsigned_body(s);
    if body.len() > 0 && all_digits(body) && digits_value(body) <= u64::MAX {
        Some(digits_value(body) as u64)
    } else {
        None
    }
}

proof fn lemma_digits_value_monotone(s: Seq<char>, i: int, j: int)
    requires
        0 <= i <= j <= s.len(),
    ensures
        digits_value(s.take(i)) <= digits_value(s.take(j)),
    decreases j - i,
{
    if i < j {
        lemma_digits_value_monotone(s, i, j - 1);
        assert(s.take(j).drop_last() =~= s.take(j - 1));
    }
}

/// Parses a whole string as an unsigned decimal number, as `str::parse::<u64>` does.
pub fn parse_u64(s: &str) -> (r: Option<u64>)
    ensures
        r == parse_u64_spec(s@),
{
    let chars = chars_of(s);
    let n = chars.len();
    let mut start: usize = 0;
    if n > 0 && chars[0] == '+' {
        start = 1;
    }
    let ghost body = unsigned_body(s@);
    assert(body =~= chars@.subrange(start as int, n as int));
    if start >= n {
        return None;
    }
    let mut i: usize = start;
    let mut acc: u128 = 0;
    while i < n
        invariant
            start <= i <= n,
            n == chars@.len(),
            chars@ == s@,
            body == chars@.subrange(start as int, n as int),
            body == unsigned_body(s@),
            all_digits(body.take(i - start)),
            acc as nat == digits_value(body.take(i - start)),
            acc <= u64::MAX,
        decreases n - i,
    {
        let c = chars[i];
        if c < '0' || c > '9' {
            assert(!is_digit(body[i - start]));
            assert(!all_digits(body));
            return None;
        }
        let d: u128 = (c as u32 - '0' as u32) as u128;
        assert(acc * 10 + d <= u128::MAX) by (nonlinear_arith)
            requires
                acc <= u64::MAX,
                d < 10,
        ;
        let next = acc * 10 + d;
        proof {
            let k = (i - start) as int;
            assert(body.take(k + 1).drop_last() =~= body.take(k));
            assert(body.take(k + 1).last() == c);
            assert(all_digits(body.take(k + 1)));
            assert(digits_value(body.take(k + 1)) == next);
        }
        if next > u64::MAX as u128 {
            proof {
                let k = (i - start) as int;
                lemma_digits_value_monotone(body, k + 1, body.len() as int);
                assert(body.take(body.len() as int) =~= body);
            }
            return None;
        }
        acc = next;
        i = i + 1;
    }
    assert(body.take(n - start) =~= body);
    Some(acc as u64)
}

// ===================== characters and strings =====================

/// The characters of `s`, in order.
pub fn chars_of(s: &str) -> (v: Vec<char>)
    ensures
        v@ == s@,
{
    let n = s.unicode_len();
    let mut v: Vec<char> = Vec::new();
    let mut i: usize = 0;
    while i < n
        invariant
            i <= n,
            n == s@.len(),
            v@ == s@.take(i as int),
        decreases n - i,
    {
        let c = s.get_char(i);
        v.push(c);
        assert(s@.take(i + 1) =~= s@.take(i as int).push(c));
        i = i + 1;
    }
    assert(s@.take(n as int) =~= s@);
    v
}

/// Appends the characters `v[from..to]` to `s`.
pub fn push_chars(s: &mut String, v: &Vec<char>, from: usize, to: usize)
    requires
        from <= to <= v@.len(),
    ensures
        final(s)@ == old(s)@ + v@.subrange(from as int, to as int),
{
    let mut i = from;
    while i < to
        invariant
            from <= i <= to <= v@.len(),
            s@ == old(s)@ + v@.subrange(from as int, i as int),
        decreases to - i,
    {
        s.push(v[i]);
        assert(v@.subrange(from as int, i + 1) =~= v@.subrange(from as int, i as int).push(v@[i as int]));
        i = i + 1;
    }
}

/// A new string holding the characters `v[from..to]`.
pub fn string_from_chars(v: &Vec<char>, from: usize, to: usize) -> (s: String)
    requires
        from <= to <= v@.len(),
    ensures
        s@ == v@.subrange(from as int, to as int),
{
    let mut s = String::new();
    push_chars(&mut s, v, from, to);
    assert(s@ =~= v@.subrange(from as int, to as int));
    s
}

/// A copy of `s`.
pub fn copy_string(s: &String) -> (r: String)
    ensures
        r@ == s@,
{
    s.clone()
}

/// Whether two strings hold the same characters.
pub fn same_text(a: &str, b: &str) -> (r: bool)
    ensures
        r == (a@ == b@),
{
    let x = chars_of(a);
    let y = chars_of(b);
    if x.len() != y.len() {
        return false;
    }
    let mut i: usize = 0;
    while i < x.len()
        invariant
            i <= x@.len(),
            x@.len() == y@.len(),
            x@ == a@,
            y@ == b@,
            forall|j: int| 0 <= j < i ==> x@[j] == y@[j],
        decreases x.len() - i,
    {
        if x[i] != y[i] {
            return false;
        }
        i = i + 1;
    }
    assert(x@ =~= y@);
    true
}

// ===================== substring search =====================

/// `p` occurs in `s` starting at position `i`.
pub open spec fn occurs_at(s: Seq<char>, p: Seq<char>, i: int) -> bool {
    0 <= i && i + p.len() <= s.len() && s.subrange(i, i + p.len()) == p
}

/// `p` occurs somewhere in `s`, as `str::contains` decides it.
pub open spec fn contains_text(s: Seq<char>, p: Seq<char>) -> bool {
    exists|i: int| occurs_at(s, p, i)
}

/// `i` is the first position at which `p` occurs in `s`.
pub open spec fn first_occurrence(s: Seq<char>, p: Seq<char>, i: int) -> bool {
    occurs_at(s, p, i) && forall|j: int| 0 <= j < i ==> !occurs_at(s, p, j)
}

/// The part of `s` before the first occurrence of `p`, or all of `s` where
/// `p` does not occur: what `s.split(p).next()` yields.
pub open spec fn before_first(s: Seq<char>, p: Seq<char>) -> Seq<char> {
    if contains_text(s, p) {
        s.take(choose|i: int| first_occurrence(s, p, i))
    } else {
        s
    }
}

fn occurs_at_exec(s: &Vec<char>, p: &Vec<char>, i: usize) -> (r: bool)
    requires
        i <= s@.len(),
    ensures
        r == occurs_at(s@, p@, i as int),
{
    let sl = s.len();
    if p.len() > sl - i {
        return false;
    }
    let mut k: usize = 0;
    while k < p.len()
        invariant
            sl == s@.len(),
            k <= p@.len(),
            i <= s@.len(),
            i + p@.len() <= s@.len(),
            forall|j: int| 0 <= j < k ==> s@[i + j] == p@[j],
        decreases p.len() - k,
    {
        assert(i + k < s@.len());
        if s[i + k] != p[k] {
            assert(s@.subrange(i as int, i + p@.len())[k as int] != p@[k as int]);
            return false;
        }
        k = k + 1;
    }
    assert(s@.subrange(i as int, i + p@.len()) =~= p@);
    true
}

/// The first position at which `p` occurs in `s`, if any.
pub fn find_text(s: &Vec<char>, p: &Vec<char>) -> (r: Option<usize>)
    ensures
        match r {
            Some(i) => first_occurrence(s@, p@, i as int),
            None => !contains_text(s@, p@),
        },
{
    let mut i: usize = 0;
    while i < s.len()
        invariant
            i <= s@.len(),
            forall|j: int| 0 <= j < i ==> !occurs_at(s@, p@, j),
        decreases s.len() - i,
    {
        if occurs_at_exec(s, p, i) {
            return Some(i);
        }
        i = i + 1;
    }
    if occurs_at_exec(s, p, i) {
        return Some(i);
    }
    assert forall|j: int| !occurs_at(s@, p@, j) by {
        if 0 <= j <= s@.len() {
        }
    }
    None
}

proof fn lemma_first_occurrence_unique(s: Seq<char>, p: Seq<char>, i: int, j: int)
    requires
        first_occurrence(s, p, i),
        first_occurrence(s, p, j),
    ensures
        i == j,
{
}

/// Whether `needle` occurs in `haystack`, as `haystack.contains(needle)` decides it.
pub fn contains_str(haystack: &str, needle: &str) -> (r: bool)
    ensures
        r == contains_text(haystack@, needle@),
{
    let s = chars_of(haystack);
    let p = chars_of(needle);
    match find_text(&s, &p) {
        Some(_) => true,
        None => false,
    }
}

/// The part of `s` before the first occurrence of `sep` (all of `s` where
/// `sep` does not occur), as `s.split(sep).next()` yields it.
pub fn text_before(s: &str, sep: &str) -> (r: String)
    ensures
        r@ == before_first(s@, sep@),
{
    let v = chars_of(s);
    let p = chars_of(sep);
    match find_text(&v, &p) {
        Some(i) => {
            proof {
                let c = choose|k: int| first_occurrence(s@, sep@, k);
                lemma_first_occurrence_unique(s@, sep@, c, i as int);
            }
            let r = string_from_chars(&v, 0, i);
            assert(r@ =~= s@.take(i as int));
            r
        },
        None => {
            let r = string_from_chars(&v, 0, v.len());
            assert(r@ =~= s@);
            r
        },
    }
}

// ===================== trimming =====================

/// The characters with the Unicode `White_Space` property, which is what
/// `char::is_whitespace` and `str::trim` go by.
pub open spec fn is_white_space(c: char) -> bool {
    ||| ('\u{9}' <= c && c <= '\u{d}')
    ||| c == ' '
    ||| c == '\u{85}'
    ||| c == '\u{a0}'
    ||| c == '\u{1680}'
    ||| ('\u{2000}' <= c && c <= '\u{200a}')
    ||| c == '\u{2028}'
    ||| c == '\u{2029}'
    ||| c == '\u{202f}'
    ||| c == '\u{205f}'
    ||| c == '\u{3000}'
}

fn is_white_space_exec(c: char) -> (r: bool)
    ensures
        r == is_white_space(c),
{
    ('\u{9}' <= c && c <= '\u{d}') || c == ' ' || c == '\u{85}' || c == '\u{a0}' || c == '\u{1680}'
        || ('\u{2000}' <= c && c <= '\u{200a}') || c == '\u{2028}' || c == '\u{2029}' || c
        == '\u{202f}' || c == '\u{205f}' || c == '\u{3000}'
}

/// `s` without its leading and trailing white space, as `str::trim` gives it:
/// the part from the first to the last character that is not white space,
/// or the empty text where there is none.
pub open spec fn trimmed(s: Seq<char>, a: int, b: int) -> bool {
    &&& 0 <= a <= b <= s.len()
    &&& forall|i: int| 0 <= i < a ==> is_white_space(#[trigger] s[i])
    &&& forall|i: int| b <= i < s.len() ==> is_white_space(#[trigger] s[i])
    &&& a < b ==> !is_white_space(s[a]) && !is_white_space(s[b - 1])
}

pub open spec fn trim_spec(s: Seq<char>) -> Seq<char> {
    let (a, b) = choose|a: int, b: int| trimmed(s, a, b);
    s.subrange(a, b)
}

proof fn lemma_trimmed_unique(s: Seq<char>, a: int, b: int, c: int, d: int)
    requires
        trimmed(s, a, b),
        trimmed(s, c, d),
    ensures
        s.subrange(a, b) == s.subrange(c, d),
{
    if a < b && c < d {
        assert(a == c) by {
            if a < c {
                assert(is_white_space(s[a]));
            } else if c < a {
                assert(is_white_space(s[c]));
            }
        }
        assert(b == d) by {
            if b < d {
                assert(is_white_space(s[d - 1]));
            } else if d < b {
                assert(is_white_space(s[b - 1]));
            }
        }
    } else if a < b {
        // c == d: every character is white space
        if c < a {
            assert(is_white_space(s[a])) by {
                if a >= d {
                } else {
                    assert(false);
                }
            }
        } else {
            assert(is_white_space(s[a]));
        }
    } else if c < d {
        if a < c {
            assert(is_white_space(s[c])) by {
                if c >= b {
                } else {
                    assert(false);
                }
            }
        } else {
            assert(is_white_space(s[c]));
        }
    }
    assert(s.subrange(a, b) =~= s.subrange(c, d));
}

/// `s` without leading and trailing white space, as `s.trim().to_string()` gives it.
pub fn trim_text(s: &str) -> (r: String)
    ensures
        r@ == trim_spec(s@),
{
    let v = chars_of(s);
    let n = v.len();
    let mut a: usize = 0;
    while a < n && is_white_space_exec(v[a])
        invariant
            a <= n,
            n == v@.len(),
            forall|i: int| 0 <= i < a ==> is_white_space(#[trigger] v@[i]),
        decreases n - a,
    {
        a = a + 1;
    }
    let mut b: usize = n;
    while b > a && is_white_space_exec(v[b - 1])
        invariant
            a <= b <= n,
            n == v@.len(),
            forall|i: int| b <= i < n ==> is_white_space(#[trigger] v@[i]),
        decreases b,
    {
        b = b - 1;
    }
    proof {
        assert(trimmed(v@, a as int, b as int));
        let (c, d) = choose|c: int, d: int| trimmed(v@, c, d);
        lemma_trimmed_unique(v@, a as int, b as int, c, d);
    }
    string_from_chars(&v, a, b)
}

// ===================== laws =====================

proof fn lemma_digit_char(k: int)
    requires
        0 <= k < 10,
    ensures
        is_digit(digit_char(k)),
        digit_value(digit_char(k)) == k,
{
}

proof fn lemma_decimal_digits(n: nat)
    ensures
        decimal(n).len() > 0,
        all_digits(decimal(n)),
        digits_value(decimal(n)) == n,
    decreases n,
{
    lemma_digit_char((n % 10) as int);
    let d = decimal(n);
    if n < 10 {
        lemma_digit_char(n as int);
        assert(d.drop_last() =~= Seq::<char>::empty());
        assert(digits_value(d.drop_last()) == 0);
    }
    if n >= 10 {
        lemma_decimal_digits(n / 10);
        assert(d.drop_last() =~= decimal(n / 10));
        assert(d.last() == digit_char((n % 10) as int));
        assert(digits_value(d) == digits_value(decimal(n / 10)) * 10 + digit_value(d.last()));
        assert forall|i: int| 0 <= i < d.len() implies is_digit(#[trigger] d[i]) by {
            if i < d.len() - 1 {
                assert(d[i] == decimal(n / 10)[i]);
            }
        }
    }
}

/// A number written in decimal reads back as the same number: what
/// `u64_to_string` writes, `parse_u64` reads back unchanged.
pub proof fn law_decimal_parses_back(n: u64)
    ensures
        parse_u64_spec(decimal(n as nat)) == Some(n),
{
    lemma_decimal_digits(n as nat);
    let d = decimal(n as nat);
    assert(is_digit(d[0]));
    assert(unsigned_body(d) == d);
}

} // verus!
