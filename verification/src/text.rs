//! Character-level text operations with their specifications: whitespace
//! trimming, stripping of list bullets, splitting at the first '.', and the
//! decimal reading and writing of `i32` values.

use vstd::prelude::*;
use vstd::string::*;

verus! {

// ---------------------------------------------------------------------------
// Specifications
// ---------------------------------------------------------------------------

/// Unicode `White_Space`, the characters that `char::is_whitespace` accepts.
pub open spec fn is_ws(c: char) -> bool {
    ||| '\u{09}' <= c && c <= '\u{0D}'
    ||| c == ' '
    ||| c == '\u{85}'
    ||| c == '\u{A0}'
    ||| c == '\u{1680}'
    ||| '\u{2000}' <= c && c <= '\u{200A}'
    ||| c == '\u{2028}'
    ||| c == '\u{2029}'
    ||| c == '\u{202F}'
    ||| c == '\u{205F}'
    ||| c == '\u{3000}'
}

/// `s` without its leading whitespace.
pub open spec fn trim_start(s: Seq<char>) -> Seq<char>
    decreases s.len(),
{
    if s.len() > 0 && is_ws(s[0]) {
        trim_start(s.drop_first())
    } else {
        s
    }
}

/// `s` without its trailing whitespace.
pub open spec fn trim_end(s: Seq<char>) -> Seq<char>
    decreases s.len(),
{
    if s.len() > 0 && is_ws(s.last()) {
        trim_end(s.drop_last())
    } else {
        s
    }
}

/// `s` without leading and trailing whitespace (`str::trim`).
pub open spec fn trim(s: Seq<char>) -> Seq<char> {
    trim_end(trim_start(s))
}

/// The characters that mark an unnumbered list item: '-', '*', '•', '●' and ' '.
pub open spec fn is_bullet(c: char) -> bool {
    c == '-' || c == '*' || c == '\u{2022}' || c == '\u{25CF}' || c == ' '
}

/// `s` without its leading bullet characters (`trim_start_matches` on the bullet set).
pub open spec fn strip_bullets(s: Seq<char>) -> Seq<char>
    decreases s.len(),
{
    if s.len() > 0 && is_bullet(s[0]) {
        strip_bullets(s.drop_first())
    } else {
        s
    }
}

/// The text before the first '.' of `s` (all of `s` when it holds none):
/// the first piece of `s.split('.')`.
pub open spec fn before_dot(s: Seq<char>) -> Seq<char>
    decreases s.len(),
{
    if s.len() == 0 {
        s
    } else if s[0] == '.' {
        Seq::empty()
    } else {
        seq![s[0]] + before_dot(s.drop_first())
    }
}

/// The text after the first '.' of `s` (empty when it holds none): the
/// remaining pieces of `s.split('.')` joined again with ".".
pub open spec fn after_dot(s: Seq<char>) -> Seq<char>
    decreases s.len(),
{
    if s.len() == 0 {
        s
    } else if s[0] == '.' {
        s.drop_first()
    } else {
        after_dot(s.drop_first())
    }
}

pub open spec fn is_digit(c: char) -> bool {
    '0' <= c && c <= '9'
}

pub open spec fn digit_value(c: char) -> int {
    c as int - '0' as int
}

pub open spec fn all_digits(s: Seq<char>) -> bool {
    forall|i: int| 0 <= i < s.len() ==> #[trigger] is_digit(s[i])
}

/// The number that the decimal digits `s` denote.
pub open spec fn digits_value(s: Seq<char>) -> int
    decreases s.len(),
{
    if s.len() == 0 {
        0
    } else {
        digits_value(s.drop_last()) * 10 + digit_value(s.last())
    }
}

/// What `s.parse::<i32>()` gives: an optional sign ('+' or '-') followed by
/// at least one decimal digit and nothing else, whose value fits in `i32`.
pub open spec fn parse_i32(s: Seq<char>) -> Option<int> {
    if s.len() == 0 || (s.len() == 1 && (s[0] == '+' || s[0] == '-')) {
        None
    } else {
        let negative = s[0] == '-';
        let rest = if s[0] == '+' || s[0] == '-' { s.drop_first() } else { s };
        let value = if negative { -digits_value(rest) } else { digits_value(rest) };
        if all_digits(rest) && i32::MIN <= value && value <= i32::MAX {
            Some(value)
        } else {
            None
        }
    }
}

/// The character of the decimal digit `d` (0 to 9).
pub open spec fn digit_char(d: int) -> char {
    ('0' as int + d) as char
}

/// The decimal digits of `n`, without leading zeros.
pub open spec fn nat_digits(n: nat) -> Seq<char>
    decreases n,
{
    if n < 10 {
        seq![digit_char(n as int)]
    } else {
        nat_digits(n / 10).push(digit_char((n % 10) as int))
    }
}

/// How `i32`'s `Display` writes `n`: a '-' for negative values, then the
/// digits of its magnitude.
pub open spec fn decimal(n: int) -> Seq<char> {
    if n < 0 {
        seq!['-'] + nat_digits((-n) as nat)
    } else {
        nat_digits(n as nat)
    }
}

// ---------------------------------------------------------------------------
// Lemmas
// ---------------------------------------------------------------------------

proof fn lemma_trim_start_step(s: Seq<char>, i: int)
    requires
        0 <= i < s.len(),
        is_ws(s[i]),
    ensures
        trim_start(s.subrange(i, s.len() as int)) == trim_start(s.subrange(i + 1, s.len() as int)),
{
    assert(s.subrange(i, s.len() as int).drop_first() =~= s.subrange(i + 1, s.len() as int));
}

proof fn lemma_trim_end_step(s: Seq<char>, j: int)
    requires
        0 < j <= s.len(),
        is_ws(s[j - 1]),
    ensures
        trim_end(s.subrange(0, j)) == trim_end(s.subrange(0, j - 1)),
{
    assert(s.subrange(0, j).drop_last() =~= s.subrange(0, j - 1));
}

proof fn lemma_strip_bullets_step(s: Seq<char>, i: int)
    requires
        0 <= i < s.len(),
        is_bullet(s[i]),
    ensures
        strip_bullets(s.subrange(i, s.len() as int)) == strip_bullets(
            s.subrange(i + 1, s.len() as int),
        ),
{
    assert(s.subrange(i, s.len() as int).drop_first() =~= s.subrange(i + 1, s.len() as int));
}

/// A longer run of digits denotes at least the value of its prefix.
proof fn lemma_digits_value_prefix(s: Seq<char>, k: int)
    requires
        0 <= k <= s.len(),
        all_digits(s),
    ensures
        digits_value(s.take(k)) <= digits_value(s),
    decreases s.len() - k,
{
    if k < s.len() {
        lemma_digits_value_prefix(s, k + 1);
        let t = s.take(k + 1);
        assert(t.drop_last() =~= s.take(k));
        assert(is_digit(s[k]));
        assert(digits_value(s.take(k)) >= 0) by {
            lemma_digits_value_nonneg(s.take(k));
        }
    } else {
        assert(s.take(k) =~= s);
    }
}

proof fn lemma_digits_value_nonneg(s: Seq<char>)
    requires
        all_digits(s),
    ensures
        digits_value(s) >= 0,
    decreases s.len(),
{
    if s.len() > 0 {
        assert(all_digits(s.drop_last())) by {
            assert forall|i: int| 0 <= i < s.drop_last().len() implies #[trigger] is_digit(
                s.drop_last()[i],
            ) by {
                assert(is_digit(s[i]));
            }
        }
        lemma_digits_value_nonneg(s.drop_last());
        assert(is_digit(s[s.len() - 1]));
    }
}

proof fn lemma_digit_char(d: int)
    requires
        0 <= d < 10,
    ensures
        is_digit(digit_char(d)),
        digit_value(digit_char(d)) == d,
{
}

/// The decimal digits of a number are a non-empty run of digits that reads
/// back as that number.
pub proof fn lemma_nat_digits(n: nat)
    ensures
        nat_digits(n).len() > 0,
        all_digits(nat_digits(n)),
        digits_value(nat_digits(n)) == n,
    decreases n,
{
    lemma_digit_char((n % 10) as int);
    if n >= 10 {
        lemma_nat_digits(n / 10);
        let d = nat_digits(n / 10);
        let s = d.push(digit_char((n % 10) as int));
        assert(s.drop_last() =~= d);
        assert forall|i: int| 0 <= i < s.len() implies #[trigger] is_digit(s[i]) by {
            if i < d.len() {
                assert(is_digit(d[i]));
            }
        }
        assert(s.last() == digit_char((n % 10) as int));
        assert(digits_value(s) == digits_value(d) * 10 + (n % 10));
        assert((n / 10) * 10 + n % 10 == n) by (nonlinear_arith);
        assert(nat_digits(n) == s);
        assert(digits_value(s) == n);
    } else {
        let s = nat_digits(n);
        lemma_digit_char(n as int);
        assert(s.drop_last() =~= Seq::<char>::empty());
        assert(digits_value(s.drop_last()) == 0);
        assert(is_digit(s[0]));
    }
}

/// Writing an `i32` in decimal and parsing it back gives the same number.
pub proof fn lemma_parse_decimal_roundtrip(n: i32)
    ensures
        parse_i32(decimal(n as int)) == Some(n as int),
{
    if n < 0 {
        let m = (-(n as int)) as nat;
        lemma_nat_digits(m);
        let s = decimal(n as int);
        assert(s.drop_first() =~= nat_digits(m));
    } else {
        lemma_nat_digits(n as nat);
        let s = nat_digits(n as nat);
        assert(is_digit(s[0]));
    }
}

proof fn lemma_trim_start_suffix(s: Seq<char>)
    ensures
        exists|k: int| 0 <= k <= s.len() && trim_start(s) == s.skip(k),
        trim_start(s).len() > 0 ==> !is_ws(trim_start(s)[0]),
    decreases s.len(),
{
    if s.len() > 0 && is_ws(s[0]) {
        lemma_trim_start_suffix(s.drop_first());
        let k = choose|k: int| 0 <= k <= s.drop_first().len() && trim_start(s.drop_first())
            == s.drop_first().skip(k);
        assert(s.drop_first().skip(k) =~= s.skip(k + 1));
    } else {
        assert(s.skip(0) =~= s);
    }
}

proof fn lemma_trim_end_prefix(s: Seq<char>)
    ensures
        trim_end(s).len() <= s.len(),
        forall|i: int| 0 <= i < trim_end(s).len() ==> #[trigger] trim_end(s)[i] == s[i],
        trim_end(s).len() > 0 ==> !is_ws(trim_end(s).last()),
    decreases s.len(),
{
    if s.len() > 0 && is_ws(s.last()) {
        lemma_trim_end_prefix(s.drop_last());
    }
}

/// A trimmed text neither starts nor ends with whitespace, so trimming it
/// again changes nothing.
pub proof fn lemma_trim_idempotent(s: Seq<char>)
    ensures
        trim(s).len() > 0 ==> !is_ws(trim(s)[0]) && !is_ws(trim(s).last()),
        trim(trim(s)) == trim(s),
{
    let a = trim_start(s);
    lemma_trim_start_suffix(s);
    lemma_trim_end_prefix(a);
    let t = trim(s);
    if t.len() > 0 {
        assert(t[0] == a[0]);
    }
    assert(trim_start(t) == t);
    assert(trim_end(t) == t);
}

// ---------------------------------------------------------------------------
// Executable operations
// ---------------------------------------------------------------------------

/// Appends one character to `s` (`String::push`).
#[verifier::external_body]
pub fn push_char(s: &mut String, c: char)
    ensures
        final(s)@ == old(s)@.push(c),
{
    s.push(c);
}

/// The characters of `s`, in order.
pub fn chars_of(s: &str) -> (v: Vec<char>)
    ensures
        v@ == s@,
{
    let mut v: Vec<char> = Vec::new();
    for c in it: s.chars()
        invariant
            v@ == it.seq().take(it.index()),
    {
        v.push(c);
    }
    v
}

/// Appends `v[from..to]` to `out`.
pub fn push_range(out: &mut String, v: &Vec<char>, from: usize, to: usize)
    requires
        from <= to <= v@.len(),
    ensures
        final(out)@ == old(out)@ + v@.subrange(from as int, to as int),
{
    let mut i = from;
    while i < to
        invariant
            from <= i <= to <= v@.len(),
            out@ == old(out)@ + v@.subrange(from as int, i as int),
        decreases to - i,
    {
        push_char(out, v[i]);
        assert(v@.subrange(from as int, i + 1) =~= v@.subrange(from as int, i as int).push(v@[i as int]));
        i = i + 1;
    }
}

pub fn char_is_ws(c: char) -> (b: bool)
    ensures
        b == is_ws(c),
{
    ('\u{09}' <= c && c <= '\u{0D}') || c == ' ' || c == '\u{85}' || c == '\u{A0}' || c
        == '\u{1680}' || ('\u{2000}' <= c && c <= '\u{200A}') || c == '\u{2028}' || c
        == '\u{2029}' || c == '\u{202F}' || c == '\u{205F}' || c == '\u{3000}'
}

pub fn char_is_bullet(c: char) -> (b: bool)
    ensures
        b == is_bullet(c),
{
    c == '-' || c == '*' || c == '\u{2022}' || c == '\u{25CF}' || c == ' '
}

/// The bounds of `trim(v[from..to])` inside `v`.
pub fn trim_range(v: &Vec<char>, from: usize, to: usize) -> (r: (usize, usize))
    requires
        from <= to <= v@.len(),
    ensures
        from <= r.0 <= r.1 <= to,
        v@.subrange(r.0 as int, r.1 as int) == trim(v@.subrange(from as int, to as int)),
{
    let ghost s = v@.subrange(from as int, to as int);
    let mut i = from;
    while i < to && char_is_ws(v[i])
        invariant
            from <= i <= to <= v@.len(),
            s == v@.subrange(from as int, to as int),
            trim_start(s) == trim_start(v@.subrange(i as int, to as int)),
        decreases to - i,
    {
        proof {
            let w = v@.subrange(from as int, to as int);
            lemma_trim_start_step(v@.subrange(0, to as int), i as int);
            assert(v@.subrange(0, to as int).subrange(i as int, to as int) =~= v@.subrange(i as int, to as int));
            assert(v@.subrange(0, to as int).subrange(i + 1, to as int) =~= v@.subrange(i + 1, to as int));
        }
        i = i + 1;
    }
    proof {
        let t = v@.subrange(i as int, to as int);
        if t.len() > 0 {
            assert(t[0] == v@[i as int]);
        }
    }
    let mut j = to;
    while j > i && char_is_ws(v[j - 1])
        invariant
            from <= i <= j <= to <= v@.len(),
            s == v@.subrange(from as int, to as int),
            trim_start(s) == v@.subrange(i as int, to as int),
            trim(s) == trim_end(v@.subrange(i as int, j as int)),
        decreases j - i,
    {
        proof {
            let u = v@.subrange(i as int, j as int);
            lemma_trim_end_step(u, (j - i) as int);
            assert(u.subrange(0, (j - i) as int) =~= u);
            assert(u.subrange(0, (j - i - 1) as int) =~= v@.subrange(i as int, j - 1));
        }
        j = j - 1;
    }
    proof {
        let u = v@.subrange(i as int, j as int);
        if u.len() > 0 {
            assert(u.last() == v@[j - 1]);
        }
    }
    (i, j)
}


/// The start of `strip_bullets(v[from..])` inside `v`.
pub fn skip_bullets(v: &Vec<char>, from: usize) -> (k: usize)
    requires
        from <= v@.len(),
    ensures
        from <= k <= v@.len(),
        v@.subrange(k as int, v@.len() as int) == strip_bullets(
            v@.subrange(from as int, v@.len() as int),
        ),
{
    let n = v.len();
    let mut i = from;
    while i < n && char_is_bullet(v[i])
        invariant
            from <= i <= n == v@.len(),
            strip_bullets(v@.subrange(from as int, n as int)) == strip_bullets(
                v@.subrange(i as int, n as int),
            ),
        decreases n - i,
    {
        proof {
            lemma_strip_bullets_step(v@, i as int);
        }
        i = i + 1;
    }
    proof {
        let t = v@.subrange(i as int, n as int);
        if t.len() > 0 {
            assert(t[0] == v@[i as int]);
        }
    }
    i
}

/// The position of the first '.' in `v[from..to]`, or `to` when there is none.
pub fn find_dot(v: &Vec<char>, from: usize, to: usize) -> (d: usize)
    requires
        from <= to <= v@.len(),
    ensures
        from <= d <= to,
        before_dot(v@.subrange(from as int, to as int)) == v@.subrange(from as int, d as int),
        d < to ==> after_dot(v@.subrange(from as int, to as int)) == v@.subrange(
            d + 1,
            to as int,
        ),
        d == to ==> after_dot(v@.subrange(from as int, to as int)) == Seq::<char>::empty(),
{
    let ghost s = v@.subrange(from as int, to as int);
    let mut i = from;
    while i < to && v[i] != '.'
        invariant
            from <= i <= to <= v@.len(),
            s == v@.subrange(from as int, to as int),
            before_dot(s) == v@.subrange(from as int, i as int) + before_dot(
                v@.subrange(i as int, to as int),
            ),
            after_dot(s) == after_dot(v@.subrange(i as int, to as int)),
        decreases to - i,
    {
        proof {
            let t = v@.subrange(i as int, to as int);
            assert(t[0] == v@[i as int]);
            assert(t.drop_first() =~= v@.subrange(i + 1, to as int));
            assert(v@.subrange(from as int, i + 1) =~= v@.subrange(from as int, i as int) + seq![
                v@[i as int],
            ]);
        }
        i = i + 1;
    }
    proof {
        let t = v@.subrange(i as int, to as int);
        if i < to {
            assert(t[0] == '.');
            assert(t.drop_first() =~= v@.subrange(i + 1, to as int));
            assert(before_dot(t) =~= Seq::<char>::empty());
        } else {
            assert(t =~= Seq::<char>::empty());
        }
        assert(v@.subrange(from as int, i as int) + Seq::<char>::empty() =~= v@.subrange(
            from as int,
            i as int,
        ));
    }
    i
}

/// `v[from..to].parse::<i32>()`, as an `Option`.
pub fn parse_i32_range(v: &Vec<char>, from: usize, to: usize) -> (r: Option<i32>)
    requires
        from <= to <= v@.len(),
    ensures
        match parse_i32(v@.subrange(from as int, to as int)) {
            Some(n) => r == Some(n as i32),
            None => r is None,
        },
{
    let ghost s = v@.subrange(from as int, to as int);
    if from == to {
        return None;
    }
    let first = v[from];
    if to - from == 1 && (first == '+' || first == '-') {
        return None;
    }
    let negative = first == '-';
    let start = if first == '+' || first == '-' {
        from + 1
    } else {
        from
    };
    let ghost rest = v@.subrange(start as int, to as int);
    proof {
        if first == '+' || first == '-' {
            assert(s.drop_first() =~= rest);
        } else {
            assert(s =~= rest);
        }
    }
    let ghost signed = if negative { -digits_value(rest) } else { digits_value(rest) };
    assert(parse_i32(s) == if all_digits(rest) && i32::MIN <= signed && signed <= i32::MAX {
        Some(signed)
    } else {
        None::<int>
    });
    let mut acc: u64 = 0;
    let mut i = start;
    while i < to
        invariant
            from <= start <= i <= to <= v@.len(),
            rest == v@.subrange(start as int, to as int),
            s == v@.subrange(from as int, to as int),
            signed == if negative { -digits_value(rest) } else { digits_value(rest) },
            parse_i32(s) == if all_digits(rest) && i32::MIN <= signed && signed <= i32::MAX {
                Some(signed)
            } else {
                None::<int>
            },
            acc <= 2147483648,
            all_digits(v@.subrange(start as int, i as int)),
            acc as int == digits_value(v@.subrange(start as int, i as int)),
        decreases to - i,
    {
        let c = v[i];
        if !('0' <= c && c <= '9') {
            proof {
                assert(!is_digit(rest[i - start]));
            }
            return None;
        }
        let d: u64 = (c as u32 - '0' as u32) as u64;
        let ghost prev = v@.subrange(start as int, i as int);
        let ghost next = v@.subrange(start as int, i + 1);
        proof {
            assert(next.drop_last() =~= prev);
            assert(next.last() == c);
            assert forall|k: int| 0 <= k < next.len() implies #[trigger] is_digit(next[k]) by {
                if k < prev.len() {
                    assert(next[k] == prev[k]);
                }
            }
        }
        acc = acc * 10 + d;
        i = i + 1;
        if acc > 2147483648 {
            proof {
                if all_digits(rest) {
                    assert(rest.take(i - start) =~= next);
                    lemma_digits_value_prefix(rest, i - start);
                }
            }
            return None;
        }
    }
    proof {
        assert(rest =~= v@.subrange(start as int, i as int));
    }
    if negative {
        let value: i64 = 0 - (acc as i64);
        Some(value as i32)
    } else {
        if acc > 2147483647 {
            None
        } else {
            Some(acc as i32)
        }
    }
}

/// The character of the decimal digit `d`.
fn digit_to_char(d: u64) -> (c: char)
    requires
        d < 10,
    ensures
        c == digit_char(d as int),
{
    let b: u8 = 48u8 + d as u8;
    b as char
}

/// Appends the decimal digits of `m` to `out`.
pub fn push_nat_digits(out: &mut String, m: u64)
    ensures
        final(out)@ == old(out)@ + nat_digits(m as nat),
    decreases m,
{
    if m >= 10 {
        push_nat_digits(out, m / 10);
    }
    push_char(out, digit_to_char(m % 10));
    proof {
        if m >= 10 {
            assert(nat_digits(m as nat) == nat_digits((m / 10) as nat).push(digit_char((m % 10) as int)));
        }
    }
}

/// Appends `n` written as `i32`'s `Display` writes it.
pub fn push_decimal(out: &mut String, n: i32)
    ensures
        final(out)@ == old(out)@ + decimal(n as int),
{
    if n < 0 {
        push_char(out, '-');
        let m: u64 = (0 - (n as i64)) as u64;
        push_nat_digits(out, m);
    } else {
        push_nat_digits(out, n as u64);
    }
}


/// Whether `a` and `b` hold the same characters.
pub fn same_text(a: &str, b: &str) -> (r: bool)
    ensures
        r == (a@ == b@),
{
    let x = chars_of(a);
    let y = chars_of(b);
    if x.len() != y.len() {
        return false;
    }
    let mut i: usize = 0;
    while i < x.len()
        invariant
            0 <= i <= x@.len() == y@.len(),
            x@ == a@,
            y@ == b@,
            forall|k: int| 0 <= k < i ==> x@[k] == y@[k],
        decreases x@.len() - i,
    {
        if x[i] != y[i] {
            assert(x@[i as int] != y@[i as int]);
            return false;
        }
        i = i + 1;
    }
    assert(x@ =~= y@);
    true
}

}
