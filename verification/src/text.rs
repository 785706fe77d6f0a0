//! String building blocks shared by the formatters: joining, decimal and
//! hexadecimal rendering, and a few small helpers over `String`.
use vstd::prelude::*;

verus! {

/// Joins `parts` with `sep` between consecutive parts.
pub open spec fn join(parts: Seq<Seq<char>>, sep: Seq<char>) -> Seq<char>
    decreases parts.len(),
{
    if parts.len() == 0 {
        Seq::empty()
    } else if parts.len() == 1 {
        parts[0]
    } else {
        join(parts.drop_last(), sep) + sep + parts.last()
    }
}

/// Concatenates `parts` with nothing between them.
pub open spec fn concat_all(parts: Seq<Seq<char>>) -> Seq<char>
    decreases parts.len(),
{
    if parts.len() == 0 {
        Seq::empty()
    } else {
        concat_all(parts.drop_last()) + parts.last()
    }
}

/// The decimal digit character for `d` (`d < 10`).
pub open spec fn digit_char(d: nat) -> char {
    if d == 0 { '0' }
    else if d == 1 { '1' }
    else if d == 2 { '2' }
    else if d == 3 { '3' }
    else if d == 4 { '4' }
    else if d == 5 { '5' }
    else if d == 6 { '6' }
    else if d == 7 { '7' }
    else if d == 8 { '8' }
    else { '9' }
}

/// The lower-case hexadecimal digit character for `d` (`d < 16`).
pub open spec fn hex_char(d: nat) -> char {
    if d < 10 { digit_char(d) }
    else if d == 10 { 'a' }
    else if d == 11 { 'b' }
    else if d == 12 { 'c' }
    else if d == 13 { 'd' }
    else if d == 14 { 'e' }
    else { 'f' }
}

/// Decimal representation of `n`, without leading zeros ("0" for zero).
pub open spec fn decimal(n: nat) -> Seq<char>
    decreases n,
{
    if n < 10 {
        seq![digit_char(n)]
    } else {
        decimal(n / 10).push(digit_char(n % 10))
    }
}

/// The `i`-th (from the left) of the sixteen lower-case hex digits of `n`.
pub open spec fn hex_digit_at(n: u64, i: int) -> char {
    hex_char(((n >> ((60 - 4 * i) as u64)) & 15u64) as nat)
}

/// `n` as sixteen lower-case hexadecimal digits, zero padded.
pub open spec fn hex16(n: u64) -> Seq<char> {
    Seq::new(16, |i: int| hex_digit_at(n, i))
}

/// The value of a lower-case hexadecimal digit character.
pub open spec fn hex_digit_value(c: char) -> nat {
    if '0' <= c <= '9' { (c as nat - '0' as nat) as nat }
    else { (c as nat - 'a' as nat + 10) as nat }
}

/// Whether `c` is a lower-case hexadecimal digit.
pub open spec fn is_hex_digit(c: char) -> bool {
    ('0' <= c && c <= '9') || ('a' <= c && c <= 'f')
}

/// The number the hexadecimal digits `s` spell, most significant first.
pub open spec fn hex_value(s: Seq<char>) -> nat
    decreases s.len(),
{
    if s.len() == 0 { 0 } else { hex_value(s.drop_last()) * 16 + hex_digit_value(s.last()) }
}

proof fn lemma_hex_char_reads_back(d: nat)
    requires
        d < 16,
    ensures
        is_hex_digit(hex_char(d)),
        hex_digit_value(hex_char(d)) == d,
{
}

proof fn lemma_hex16_prefix(n: u64, k: int)
    requires
        1 <= k <= 16,
    ensures
        hex_value(hex16(n).take(k)) == n >> ((64 - 4 * k) as u64),
    decreases k,
{
    let s: u64 = (64 - 4 * k) as u64;
    let d: u64 = (n >> s) & 15u64;
    assert(d < 16) by (bit_vector)
        requires
            d == (n >> s) & 15u64;
    lemma_hex_char_reads_back(d as nat);
    assert(hex16(n).take(k).last() == hex_char(d as nat));
    assert(hex_value(hex16(n).take(k)) == hex_value(hex16(n).take(k).drop_last()) * 16 + (d as nat));
    if k == 1 {
        assert(hex16(n).take(k).drop_last() =~= Seq::<char>::empty());
        assert(s == 60);
        assert((n >> s) & 15u64 == n >> s) by (bit_vector)
            requires
                s == 60u64;
    } else {
        lemma_hex16_prefix(n, k - 1);
        assert(hex16(n).take(k).drop_last() =~= hex16(n).take(k - 1));
        let t: u64 = (64 - 4 * (k - 1)) as u64;
        assert(t == s + 4);
        assert((n >> t) * 16 + ((n >> s) & 15u64) == n >> s) by (bit_vector)
            requires
                s <= 56u64,
                t == s + 4u64;
        assert(hex_value(hex16(n).take(k - 1)) == n >> t);
    }
}

/// `hex16(n)` is sixteen lower-case hexadecimal digits that read back as `n`.
pub proof fn lemma_hex16_reads_back(n: u64)
    ensures
        hex16(n).len() == 16,
        forall|i: int| 0 <= i < 16 ==> is_hex_digit(#[trigger] hex16(n)[i]),
        hex_value(hex16(n)) == n,
{
    assert forall|i: int| 0 <= i < 16 implies is_hex_digit(#[trigger] hex16(n)[i]) by {
        let sh: u64 = (60 - 4 * i) as u64;
        let d: u64 = (n >> sh) & 15u64;
        assert(d < 16) by (bit_vector)
            requires
                d == (n >> sh) & 15u64;
        lemma_hex_char_reads_back(d as nat);
    }
    lemma_hex16_prefix(n, 16);
    assert(hex16(n).take(16) =~= hex16(n));
    assert(n >> 0u64 == n) by (bit_vector);
}

/// `String::push`: appends the character `c` at the end of `s`. Trusted:
/// the text afterwards is the text before followed by `c`.
#[verifier::external_body]
pub(crate) fn push_char(s: &mut String, c: char)
    ensures
        final(s)@ == old(s)@.push(c),
{
    s.push(c);
}

pub(crate) fn digit_exec(d: u32) -> (c: char)
    requires
        d < 10,
    ensures
        c == digit_char(d as nat),
{
    if d == 0 { '0' }
    else if d == 1 { '1' }
    else if d == 2 { '2' }
    else if d == 3 { '3' }
    else if d == 4 { '4' }
    else if d == 5 { '5' }
    else if d == 6 { '6' }
    else if d == 7 { '7' }
    else if d == 8 { '8' }
    else { '9' }
}

pub(crate) fn hex_exec(d: u64) -> (c: char)
    requires
        d < 16,
    ensures
        c == hex_char(d as nat),
{
    if d < 10 { digit_exec(d as u32) }
    else if d == 10 { 'a' }
    else if d == 11 { 'b' }
    else if d == 12 { 'c' }
    else if d == 13 { 'd' }
    else if d == 14 { 'e' }
    else { 'f' }
}

/// Renders `n` in decimal.
pub fn u32_to_decimal(n: u32) -> (s: String)
    ensures
        s@ == decimal(n as nat),
{
    // digits collected least significant first
    let mut digits: Vec<char> = Vec::new();
    let mut m: u32 = n;
    while m >= 10
        invariant
            decimal(n as nat) == decimal(m as nat) + digits@.reverse(),
        decreases m,
    {
        let d = m % 10;
        let ghost old_digits = digits@;
        digits.push(digit_exec(d));
        assert(digits@.reverse() == seq![digit_char(d as nat)] + old_digits.reverse()) by {
            assert(digits@.drop_last() == old_digits);
        }
        assert(decimal(m as nat) == decimal((m / 10) as nat).push(digit_char(d as nat)));
        m = m / 10;
    }
    let ghost old_digits = digits@;
    digits.push(digit_exec(m));
    assert(digits@.reverse() == seq![digit_char(m as nat)] + old_digits.reverse()) by {
        assert(digits@.drop_last() == old_digits);
    }
    assert(decimal(m as nat) == seq![digit_char(m as nat)]);
    let mut s = String::new();
    let mut i = digits.len();
    while i > 0
        invariant
            i <= digits.len(),
            s@ == digits@.subrange(i as int, digits.len() as int).reverse(),
            decimal(n as nat) == digits@.reverse(),
        decreases i,
    {
        i = i - 1;
        let ghost old_s = s@;
        push_char(&mut s, digits[i]);
        assert(s@ == digits@.subrange(i as int, digits.len() as int).reverse()) by {
            assert(digits@.subrange(i as int, digits.len() as int).reverse()
                == digits@.subrange(i + 1, digits.len() as int).reverse().push(digits@[i as int]));
        }
    }
    assert(digits@.subrange(0, digits.len() as int) == digits@);
    s
}

/// Renders `n` as sixteen zero-padded lower-case hexadecimal digits.
pub fn u64_to_hex16(n: u64) -> (s: String)
    ensures
        s@ == hex16(n),
{
    let mut s = String::new();
    let mut i: u64 = 0;
    while i < 16
        invariant
            i <= 16,
            s@.len() == i,
            forall|j: int| 0 <= j < i ==> s@[j] == hex_digit_at(n, j),
        decreases 16 - i,
    {
        let shift: u64 = 60 - 4 * i;
        let d: u64 = (n >> shift) & 15u64;
        assert(d < 16) by (bit_vector)
            requires
                d == (n >> shift) & 15u64;
        push_char(&mut s, hex_exec(d));
        i = i + 1;
    }
    assert(s@ == hex16(n));
    s
}

/// Appends the parts of `parts` with `sep` between them to a fresh string.
pub fn join_strings(parts: &Vec<String>, sep: &str) -> (r: String)
    ensures
        r@ == join(parts@.map_values(|p: String| p@), sep@),
{
    let ghost views = parts@.map_values(|p: String| p@);
    let mut r = String::new();
    let mut i: usize = 0;
    while i < parts.len()
        invariant
            i <= parts.len(),
            views == parts@.map_values(|p: String| p@),
            r@ == join(views.take(i as int), sep@),
        decreases parts.len() - i,
    {
        assert(views.take(i + 1).drop_last() == views.take(i as int));
        if i > 0 {
            r.append(sep);
        }
        r.append(parts[i].as_str());
        i = i + 1;
    }
    assert(views.take(parts.len() as int) == views);
    r
}

/// The text `Duration`'s `Debug` implementation writes for `d` (such as
/// `1.5s` or `100ms`).
pub uninterp spec fn duration_debug(d: core::time::Duration) -> Seq<char>;

/// Renders `d` with `Duration`'s `Debug` implementation. Trusted: the text is
/// claimed to be [`duration_debug`] of `d`, a function of `d` alone; what
/// that text is, is left unsaid.
#[verifier::external_body]
pub(crate) fn duration_debug_text(d: core::time::Duration) -> (r: String)
    ensures
        r@ == duration_debug(d),
{
    format!("{:?}", d)
}

/// Starts a fresh `String` holding a copy of `s`.
pub fn string_of(s: &str) -> (r: String)
    ensures
        r@ == s@,
{
    s.to_owned()
}

} // verus!
