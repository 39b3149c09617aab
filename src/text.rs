use vstd::prelude::*;
use vstd::string::{StringExecFns, StrSliceExecFns};
use crate::decimal::{Decimal, pow10, pow10_u128, MAX_SCALE, lemma_pow10_monotone};

verus! {

/// The character of a decimal digit `0..=9`.
pub open spec fn digit_char(d: nat) -> char {
    if d == 0 {
        '0'
    } else if d == 1 {
        '1'
    } else if d == 2 {
        '2'
    } else if d == 3 {
        '3'
    } else if d == 4 {
        '4'
    } else if d == 5 {
        '5'
    } else if d == 6 {
        '6'
    } else if d == 7 {
        '7'
    } else if d == 8 {
        '8'
    } else {
        '9'
    }
}

/// The lower-case character of a hexadecimal digit `0..=15`.
pub open spec fn hex_char(d: nat) -> char {
    if d < 10 {
        digit_char(d)
    } else if d == 10 {
        'a'
    } else if d == 11 {
        'b'
    } else if d == 12 {
        'c'
    } else if d == 13 {
        'd'
    } else if d == 14 {
        'e'
    } else {
        'f'
    }
}

/// Decimal digits of `n`, without leading zeros (`"0"` for zero).
pub open spec fn nat_digits(n: nat) -> Seq<char>
    decreases n,
{
    if n < 10 {
        seq![digit_char(n)]
    } else {
        nat_digits(n / 10).push(digit_char(n % 10))
    }
}

/// The last `w` decimal digits of `n`, zero-padded to width `w`.
pub open spec fn fixed_digits(n: nat, w: nat) -> Seq<char>
    decreases w,
{
    if w == 0 {
        seq![]
    } else {
        fixed_digits(n / 10, (w - 1) as nat).push(digit_char(n % 10))
    }
}

/// `units / 10^scale` with trailing fractional zeros removed.
pub open spec fn trimmed(units: nat, scale: nat) -> (nat, nat)
    decreases scale,
{
    if scale > 0 && units % 10 == 0 {
        trimmed(units / 10, (scale - 1) as nat)
    } else {
        (units, scale)
    }
}

/// The shortest plain text of a decimal: `"99.8"`, `"100"`, `"0.0001"`.
pub open spec fn decimal_text(d: Decimal) -> Seq<char> {
    let (u, s) = trimmed(d.units as nat, d.scale as nat);
    if s == 0 {
        nat_digits(u)
    } else {
        nat_digits(u / pow10(s)) + seq!['.'] + fixed_digits(u, s)
    }
}

/// Lower-case hexadecimal text of bytes, two characters per byte.
pub open spec fn hex_text(b: Seq<u8>) -> Seq<char>
    decreases b.len(),
{
    if b.len() == 0 {
        seq![]
    } else {
        hex_text(b.drop_last()) + seq![hex_char((b.last() / 16) as nat), hex_char((b.last() % 16) as nat)]
    }
}

pub open spec fn is_digit(c: char) -> bool {
    '0' <= c <= '9'
}

pub open spec fn all_digits(s: Seq<char>) -> bool {
    forall|i: int| 0 <= i < s.len() ==> is_digit(#[trigger] s[i])
}

/// The number written by a string of decimal digits.
pub open spec fn digits_value(s: Seq<char>) -> nat
    decreases s.len(),
{
    if s.len() == 0 {
        0
    } else {
        digits_value(s.drop_last()) * 10 + (s.last() as nat - '0' as nat) as nat
    }
}

/// Index of the first `'.'`, or `s.len()` when there is none.
pub open spec fn first_dot(s: Seq<char>) -> nat
    decreases s.len(),
{
    if s.len() == 0 {
        0
    } else if s[0] == '.' {
        0
    } else {
        1 + first_dot(s.drop_first())
    }
}

/// The decimal a price text denotes: one or more digits, optionally
/// followed by `'.'` and one to `MAX_SCALE` digits. `None` for anything
/// else, or for a value too large for a `Decimal`.
pub open spec fn parsed_decimal(s: Seq<char>) -> Option<Decimal> {
    let i = first_dot(s) as int;
    let int_part = s.take(i);
    let frac_part = if i < s.len() {
        s.skip(i + 1)
    } else {
        seq![]
    };
    if int_part.len() > 0 && all_digits(int_part) && all_digits(frac_part) && (i < s.len()
        ==> 0 < frac_part.len() <= MAX_SCALE) && digits_value(int_part + frac_part) <= u64::MAX {
        Some(Decimal { units: digits_value(int_part + frac_part) as u64, scale: frac_part.len() as u32 })
    } else {
        None
    }
}

fn digit_str(d: u64) -> (r: &'static str)
    requires
        d < 10,
    ensures
        r@ == seq![digit_char(d as nat)],
{
    if d == 0 {
        proof { reveal_strlit("0"); }
        "0"
    } else if d == 1 {
        proof { reveal_strlit("1"); }
        "1"
    } else if d == 2 {
        proof { reveal_strlit("2"); }
        "2"
    } else if d == 3 {
        proof { reveal_strlit("3"); }
        "3"
    } else if d == 4 {
        proof { reveal_strlit("4"); }
        "4"
    } else if d == 5 {
        proof { reveal_strlit("5"); }
        "5"
    } else if d == 6 {
        proof { reveal_strlit("6"); }
        "6"
    } else if d == 7 {
        proof { reveal_strlit("7"); }
        "7"
    } else if d == 8 {
        proof { reveal_strlit("8"); }
        "8"
    } else {
        proof { reveal_strlit("9"); }
        "9"
    }
}

fn hex_str(d: u8) -> (r: &'static str)
    requires
        d < 16,
    ensures
        r@ == seq![hex_char(d as nat)],
{
    if d < 10 {
        digit_str(d as u64)
    } else if d == 10 {
        proof { reveal_strlit("a"); }
        "a"
    } else if d == 11 {
        proof { reveal_strlit("b"); }
        "b"
    } else if d == 12 {
        proof { reveal_strlit("c"); }
        "c"
    } else if d == 13 {
        proof { reveal_strlit("d"); }
        "d"
    } else if d == 14 {
        proof { reveal_strlit("e"); }
        "e"
    } else {
        proof { reveal_strlit("f"); }
        "f"
    }
}

/// Appends the decimal digits of `n`.
pub fn append_digits(out: &mut String, n: u64)
    ensures
        final(out)@ == old(out)@ + nat_digits(n as nat),
    decreases n,
{
    if n >= 10 {
        append_digits(out, n / 10);
    }
    out.append(digit_str(n % 10));
    assert(final(out)@ =~= old(out)@ + nat_digits(n as nat));
}

/// Appends the last `w` decimal digits of `n`, zero-padded.
fn append_fixed_digits(out: &mut String, n: u64, w: u32)
    ensures
        final(out)@ == old(out)@ + fixed_digits(n as nat, w as nat),
    decreases w,
{
    if w > 0 {
        append_fixed_digits(out, n / 10, w - 1);
        out.append(digit_str(n % 10));
        assert(final(out)@ =~= old(out)@ + fixed_digits(n as nat, w as nat));
    } else {
        assert(final(out)@ =~= old(out)@ + fixed_digits(n as nat, w as nat));
    }
}

/// The digits of `n` as a `String`.
pub fn u64_to_string(n: u64) -> (r: String)
    ensures
        r@ == nat_digits(n as nat),
{
    let mut out = String::new();
    append_digits(&mut out, n);
    assert(out@ =~= nat_digits(n as nat));
    out
}

/// Appends the shortest plain text of `d`.
pub fn append_decimal(out: &mut String, d: Decimal)
    requires
        d.wf(),
    ensures
        final(out)@ == old(out)@ + decimal_text(d),
{
    let mut u: u64 = d.units;
    let mut s: u32 = d.scale;
    while s > 0 && u % 10 == 0
        invariant
            s <= d.scale,
            trimmed(u as nat, s as nat) == trimmed(d.units as nat, d.scale as nat),
        decreases s,
    {
        u = u / 10;
        s = s - 1;
    }
    if s == 0 {
        append_digits(out, u);
    } else {
        proof {
            lemma_pow10_monotone(s as nat, 18);
            reveal_with_fuel(pow10, 19);
        }
        let p = pow10_u128(s) as u64;
        append_digits(out, u / p);
        out.append(".");
        append_fixed_digits(out, u, s);
        proof { reveal_strlit("."); }
    }
    assert(final(out)@ =~= old(out)@ + decimal_text(d));
}

/// Appends the lower-case hexadecimal text of `bytes`.
pub fn append_hex(out: &mut String, bytes: &[u8])
    ensures
        final(out)@ == old(out)@ + hex_text(bytes@),
{
    let mut i: usize = 0;
    while i < bytes.len()
        invariant
            i <= bytes@.len(),
            out@ == old(out)@ + hex_text(bytes@.take(i as int)),
        decreases bytes@.len() - i,
    {
        let b = bytes[i];
        out.append(hex_str(b / 16));
        out.append(hex_str(b % 16));
        proof {
            assert(bytes@.take(i + 1).drop_last() =~= bytes@.take(i as int));
        }
        i = i + 1;
        assert(out@ =~= old(out)@ + hex_text(bytes@.take(i as int)));
    }
    assert(bytes@.take(i as int) =~= bytes@);
}

proof fn lemma_first_dot(s: Seq<char>, i: nat)
    requires
        i <= s.len(),
        i < s.len() ==> s[i as int] == '.',
        forall|j: int| 0 <= j < i ==> s[j] != '.',
    ensures
        first_dot(s) == i,
    decreases i,
{
    if i > 0 {
        assert(s[0] != '.');
        let t = s.drop_first();
        assert forall|j: int| 0 <= j < i - 1 implies t[j] != '.' by {
            assert(t[j] == s[j + 1]);
        }
        lemma_first_dot(t, (i - 1) as nat);
    }
}

proof fn lemma_digits_value_prefix(s: Seq<char>, k: int)
    requires
        0 <= k <= s.len(),
    ensures
        digits_value(s.take(k)) <= digits_value(s),
    decreases s.len(),
{
    if k < s.len() {
        assert(s.drop_last().take(k) =~= s.take(k));
        lemma_digits_value_prefix(s.drop_last(), k);
    } else {
        assert(s.take(k) =~= s);
    }
}

/// The number that a sequence of decimal digits writes, when every element
/// is a digit and the number fits in 64 bits.
fn digits_to_u64(ds: &Vec<char>) -> (r: Option<u64>)
    ensures
        r == (if all_digits(ds@) && digits_value(ds@) <= u64::MAX {
            Some(digits_value(ds@) as u64)
        } else {
            None
        }),
{
    let mut acc: u64 = 0;
    let mut k: usize = 0;
    while k < ds.len()
        invariant
            k <= ds@.len(),
            all_digits(ds@.take(k as int)),
            acc == digits_value(ds@.take(k as int)),
        decreases ds@.len() - k,
    {
        let c = ds[k];
        proof {
            assert(ds@.take(k + 1).drop_last() =~= ds@.take(k as int));
        }
        if !('0' <= c && c <= '9') {
            assert(!all_digits(ds@));
            return None;
        }
        let d = (c as u32 - '0' as u32) as u128;
        let next: u128 = acc as u128 * 10 + d;
        if next > u64::MAX as u128 {
            proof {
                lemma_digits_value_prefix(ds@, k + 1);
            }
            return None;
        }
        acc = next as u64;
        k = k + 1;
        assert(all_digits(ds@.take(k as int))) by {
            assert forall|j: int| 0 <= j < k implies is_digit(#[trigger] ds@.take(k as int)[j]) by {
                if j < k - 1 {
                    assert(ds@.take(k as int)[j] == ds@.take(k - 1)[j]);
                }
            }
        }
    }
    assert(ds@.take(k as int) =~= ds@);
    Some(acc)
}

/// Parses a price text such as `"0.5801"` or `"100"`.
pub fn parse_decimal(s: &str) -> (r: Option<Decimal>)
    ensures
        r == parsed_decimal(s@),
{
    let len = s.unicode_len();
    let mut i: usize = 0;
    while i < len && s.get_char(i) != '.'
        invariant
            i <= len == s@.len(),
            forall|j: int| 0 <= j < i ==> s@[j] != '.',
        decreases len - i,
    {
        i = i + 1;
    }
    proof {
        lemma_first_dot(s@, i as nat);
    }
    let mut ds: Vec<char> = Vec::new();
    let mut j: usize = 0;
    while j < len
        invariant
            i <= len == s@.len(),
            j <= len,
            ds@ == (if j <= i {
                s@.take(j as int)
            } else {
                s@.take(i as int) + s@.subrange(i + 1, j as int)
            }),
        decreases len - j,
    {
        if j != i {
            ds.push(s.get_char(j));
        }
        j = j + 1;
        proof {
            if j <= i {
                assert(ds@ =~= s@.take(j as int));
            } else if j == i + 1 {
                assert(ds@ =~= s@.take(i as int) + s@.subrange(i + 1, j as int));
            } else {
                assert(ds@ =~= s@.take(i as int) + s@.subrange(i + 1, j as int));
            }
        }
    }
    let ghost int_part = s@.take(i as int);
    let ghost frac_part = if i < len {
        s@.skip(i + 1)
    } else {
        seq![]
    };
    proof {
        if i < len {
            assert(s@.subrange(i + 1, len as int) =~= frac_part);
        } else {
            assert(s@.take(i as int) =~= s@.take(i as int) + frac_part);
        }
        assert(ds@ =~= int_part + frac_part);
        assert(all_digits(ds@) == (all_digits(int_part) && all_digits(frac_part))) by {
            if all_digits(ds@) {
                assert forall|k: int| 0 <= k < int_part.len() implies is_digit(#[trigger] int_part[k]) by {
                    assert(ds@[k] == int_part[k]);
                }
                assert forall|k: int| 0 <= k < frac_part.len() implies is_digit(#[trigger] frac_part[k]) by {
                    assert(ds@[int_part.len() + k] == frac_part[k]);
                }
            }
        }
    }
    let frac_len: usize = if i < len { len - i - 1 } else { 0 };
    if i == 0 || (i < len && (frac_len == 0 || frac_len > MAX_SCALE as usize)) {
        return None;
    }
    match digits_to_u64(&ds) {
        Some(units) => Some(Decimal { units, scale: frac_len as u32 }),
        None => None,
    }
}

/// A number below `10^k` has at most `k` digits.
pub proof fn lemma_nat_digits_len(n: nat, k: nat)
    requires
        k >= 1,
        n < pow10(k),
    ensures
        nat_digits(n).len() <= k,
    decreases n,
{
    if n >= 10 {
        let p = pow10((k - 1) as nat);
        assert(pow10(k) == 10 * p);
        if k == 1 {
            assert(pow10(0) == 1);
        } else {
            assert(n / 10 < p) by (nonlinear_arith)
                requires
                    n < 10 * p,
            ;
            lemma_nat_digits_len(n / 10, (k - 1) as nat);
        }
    }
}

pub proof fn lemma_fixed_digits_len(n: nat, w: nat)
    ensures
        fixed_digits(n, w).len() == w,
    decreases w,
{
    if w > 0 {
        lemma_fixed_digits_len(n / 10, (w - 1) as nat);
    }
}

proof fn lemma_trimmed_bounds(units: nat, scale: nat)
    ensures
        trimmed(units, scale).0 <= units,
        trimmed(units, scale).1 <= scale,
    decreases scale,
{
    if scale > 0 && units % 10 == 0 {
        lemma_trimmed_bounds(units / 10, (scale - 1) as nat);
    }
}

/// Every 64-bit number has at most 20 digits.
pub proof fn lemma_u64_digits_len(n: u64)
    ensures
        nat_digits(n as nat).len() <= 20,
{
    reveal_with_fuel(pow10, 21);
    lemma_nat_digits_len(n as nat, 20);
}

/// The text of a well-formed decimal has at most 39 characters.
pub proof fn lemma_decimal_text_len(d: Decimal)
    requires
        d.wf(),
    ensures
        decimal_text(d).len() <= 39,
{
    let (u, s) = trimmed(d.units as nat, d.scale as nat);
    lemma_trimmed_bounds(d.units as nat, d.scale as nat);
    reveal_with_fuel(pow10, 21);
    lemma_nat_digits_len(u, 20);
    if s > 0 {
        crate::decimal::lemma_pow10_positive(s);
        assert(u / pow10(s) <= u) by (nonlinear_arith)
            requires
                pow10(s) >= 1,
        ;
        lemma_nat_digits_len(u / pow10(s), 20);
        lemma_fixed_digits_len(u, s);
    }
}

/// How a JSON string writes one character: `"` and `\` and the named
/// controls with a backslash, other controls below U+0020 as `\u00XX`
/// with lower-case hex, everything else as itself.
pub open spec fn json_escape(c: char) -> Seq<char> {
    if c == '"' {
        seq!['\\', '"']
    } else if c == '\\' {
        seq!['\\', '\\']
    } else if c == '\x08' {
        seq!['\\', 'b']
    } else if c == '\t' {
        seq!['\\', 't']
    } else if c == '\n' {
        seq!['\\', 'n']
    } else if c == '\x0c' {
        seq!['\\', 'f']
    } else if c == '\r' {
        seq!['\\', 'r']
    } else if (c as nat) < 0x20 {
        seq!['\\', 'u', '0', '0', hex_char((c as nat) / 16), hex_char((c as nat) % 16)]
    } else {
        seq![c]
    }
}

/// The characters of a text, each escaped for a JSON string.
pub open spec fn json_escaped(s: Seq<char>) -> Seq<char>
    decreases s.len(),
{
    if s.len() == 0 {
        seq![]
    } else {
        json_escaped(s.drop_last()) + json_escape(s.last())
    }
}

/// A text as a JSON string literal: escaped and in double quotes.
pub open spec fn json_quoted(s: Seq<char>) -> Seq<char> {
    seq!['"'] + json_escaped(s) + seq!['"']
}

} // verus!
