//! Character-level model of the JSON wire format used by the chat API.
//!
//! Every serializer in this crate is specified against the spec functions
//! here: `spec_escape` gives the escaping of a string body, `spec_u64_chars`
//! the decimal digits of an integer, and `spec_decimal_chars` the rendering
//! of a fixed-point decimal parameter. The executable printers append to a
//! `Vec<char>` buffer and are proved to emit exactly those sequences.
//!
//! The parsers here accept only the canonical compact rendering that the
//! printers (and the provider's own compact encoder) emit: no whitespace
//! between tokens, shortest escapes, no leading zeros. Each parser's
//! contract ties the consumed segment to the canonical rendering of the
//! value it returns.
use vstd::prelude::*;

verus! {

/// The decimal digit character for `d` (0 to 9).
pub open spec fn spec_digit(d: nat) -> char {
    if d == 0 {
        '0'
    } else if d == 1 {
        '1'
    } else if d == 2 {
        '2'
    } else if d == 3 {
        '3'
    } else if d == 4 {
        '4'
    } else if d == 5 {
        '5'
    } else if d == 6 {
        '6'
    } else if d == 7 {
        '7'
    } else if d == 8 {
        '8'
    } else {
        '9'
    }
}

/// The lowercase hexadecimal digit character for `d` (0 to 15).
pub open spec fn spec_hex_digit(d: nat) -> char {
    if d < 10 {
        spec_digit(d)
    } else if d == 10 {
        'a'
    } else if d == 11 {
        'b'
    } else if d == 12 {
        'c'
    } else if d == 13 {
        'd'
    } else if d == 14 {
        'e'
    } else {
        'f'
    }
}

/// How one character appears inside a JSON string literal: the named
/// escapes for quote, backslash and the common control characters, a
/// `\u00XX` escape for the remaining control characters, and the character
/// itself otherwise.
pub open spec fn spec_escape_char(c: char) -> Seq<char> {
    if c == '"' {
        seq!['\\', '"']
    } else if c == '\\' {
        seq!['\\', '\\']
    } else if c == '\u{8}' {
        seq!['\\', 'b']
    } else if c == '\t' {
        seq!['\\', 't']
    } else if c == '\n' {
        seq!['\\', 'n']
    } else if c == '\u{c}' {
        seq!['\\', 'f']
    } else if c == '\r' {
        seq!['\\', 'r']
    } else if (c as u32) < 0x20 {
        seq!['\\', 'u', '0', '0', spec_hex_digit((c as u32 / 16) as nat), spec_hex_digit(
            (c as u32 % 16) as nat,
        )]
    } else {
        seq![c]
    }
}

/// The escaped body of a JSON string literal holding the characters `s`.
pub open spec fn spec_escape(s: Seq<char>) -> Seq<char>
    decreases s.len(),
{
    if s.len() == 0 {
        Seq::<char>::empty()
    } else {
        spec_escape_char(s[0]) + spec_escape(s.drop_first())
    }
}

/// A complete JSON string literal: quote, escaped body, quote.
pub open spec fn spec_json_string(s: Seq<char>) -> Seq<char> {
    seq!['"'] + spec_escape(s) + seq!['"']
}

/// The decimal digit characters of `n`, most significant first, with no
/// leading zeros (a single `0` for zero).
pub open spec fn spec_u64_chars(n: nat) -> Seq<char>
    decreases n,
{
    if n < 10 {
        seq![spec_digit(n)]
    } else {
        spec_u64_chars(n / 10).push(spec_digit(n % 10))
    }
}

/// Exactly `w` decimal digit characters giving `n` zero-padded on the
/// left; high digits beyond `w` places are not represented, so this reads
/// faithfully only when `n < 10^w`.
pub open spec fn spec_padded_chars(n: nat, w: nat) -> Seq<char>
    decreases w,
{
    if w == 0 {
        Seq::<char>::empty()
    } else {
        spec_padded_chars(n / 10, (w - 1) as nat).push(spec_digit(n % 10))
    }
}

/// Ten to the power `k`.
pub open spec fn spec_pow10(k: nat) -> nat
    decreases k,
{
    if k == 0 {
        1
    } else {
        10 * spec_pow10((k - 1) as nat)
    }
}

/// A fixed-point decimal number: the value `mantissa / 10^scale`, negated
/// when `neg` is set. This is how the crate carries the fractional
/// generation parameters (temperature, penalties, nucleus mass) and the
/// timing telemetry of the provider, which the wire format writes as plain
/// decimal numerals such as `0.0`, `1.0` or `-0.5`.
#[derive(Clone, Copy, Debug, PartialEq, Eq, Structural)]
pub struct DecimalNumber {
    /// The digits of the number, as an integer.
    pub mantissa: u64,
    /// How many of the low digits of `mantissa` lie behind the decimal point.
    pub scale: u32,
    /// Whether the rendered number carries a leading minus sign.
    pub neg: bool,
}

impl DecimalNumber {
    /// A machine bound: `10^scale` must fit in a `u64`, so at most 18
    /// fractional digits are representable.
    pub open spec fn wf(self) -> bool {
        self.scale <= 18
    }

    /// Build a decimal; the scale bound is the only machine limit.
    pub fn new(neg: bool, mantissa: u64, scale: u32) -> (r: DecimalNumber)
        requires
            scale <= 18,
        ensures
            r == (DecimalNumber { mantissa, scale, neg }),
            r.wf(),
    {
        DecimalNumber { mantissa, scale, neg }
    }

    /// The decimal with integral value `n` and one fractional digit, so
    /// that whole parameters render with a trailing `.0` as the provider's
    /// encoder writes them.
    pub fn from_units(n: u32) -> (r: DecimalNumber)
        ensures
            r == (DecimalNumber { mantissa: (n * 10) as u64, scale: 1, neg: false }),
            r.wf(),
    {
        DecimalNumber { mantissa: n as u64 * 10, scale: 1, neg: false }
    }
}

/// The numeral that the wire format uses for `d`: optional sign, the
/// integral digits, and, when `d.scale > 0`, a point followed by exactly
/// `d.scale` fractional digits.
pub open spec fn spec_decimal_chars(d: DecimalNumber) -> Seq<char> {
    let sign = if d.neg {
        seq!['-']
    } else {
        Seq::<char>::empty()
    };
    if d.scale == 0 {
        sign + spec_u64_chars(d.mantissa as nat)
    } else {
        sign + spec_u64_chars(d.mantissa as nat / spec_pow10(d.scale as nat)) + seq!['.']
            + spec_padded_chars(d.mantissa as nat % spec_pow10(d.scale as nat), d.scale as nat)
    }
}

/// The numeral for a signed 32-bit integer.
pub open spec fn spec_i32_chars(v: i32) -> Seq<char> {
    if v < 0 {
        seq!['-'] + spec_u64_chars((-(v as int)) as nat)
    } else {
        spec_u64_chars(v as nat)
    }
}

/// `spec_escape` distributes over appending one character.
pub proof fn lemma_escape_push(s: Seq<char>, c: char)
    ensures
        spec_escape(s.push(c)) == spec_escape(s) + spec_escape_char(c),
    decreases s.len(),
{
    if s.len() == 0 {
        let t = s.push(c);
        assert(t.drop_first() =~= Seq::<char>::empty());
        assert(t[0] == c);
        assert(spec_escape(Seq::<char>::empty()) =~= Seq::<char>::empty());
        assert(spec_escape(t) == spec_escape_char(c) + spec_escape(t.drop_first()));
        assert(spec_escape(t) =~= spec_escape_char(c));
        assert(spec_escape(s) + spec_escape_char(c) =~= spec_escape_char(c));
    } else {
        assert(s.push(c).drop_first() =~= s.drop_first().push(c));
        lemma_escape_push(s.drop_first(), c);
        assert(spec_escape(s.push(c)) =~= spec_escape(s) + spec_escape_char(c));
    }
}

/// `spec_pow10` is monotone.
pub proof fn lemma_pow10_mono(a: nat, b: nat)
    requires
        a <= b,
    ensures
        spec_pow10(a) <= spec_pow10(b),
    decreases b,
{
    if a < b {
        lemma_pow10_mono(a, (b - 1) as nat);
    }
}

/// The largest representable power of ten, as a numeral.
pub proof fn lemma_pow10_18()
    ensures
        spec_pow10(18) == 1000000000000000000nat,
{
    reveal_with_fuel(spec_pow10, 19);
}

/// The decimal digit character for `d`.
pub fn digit_char(d: u64) -> (c: char)
    requires
        d < 10,
    ensures
        c == spec_digit(d as nat),
{
    if d == 0 {
        '0'
    } else if d == 1 {
        '1'
    } else if d == 2 {
        '2'
    } else if d == 3 {
        '3'
    } else if d == 4 {
        '4'
    } else if d == 5 {
        '5'
    } else if d == 6 {
        '6'
    } else if d == 7 {
        '7'
    } else if d == 8 {
        '8'
    } else {
        '9'
    }
}

/// The lowercase hexadecimal digit character for `d`.
pub fn hex_digit_char(d: u32) -> (c: char)
    requires
        d < 16,
    ensures
        c == spec_hex_digit(d as nat),
{
    if d < 10 {
        digit_char(d as u64)
    } else if d == 10 {
        'a'
    } else if d == 11 {
        'b'
    } else if d == 12 {
        'c'
    } else if d == 13 {
        'd'
    } else if d == 14 {
        'e'
    } else {
        'f'
    }
}

/// Ten to the power `k`, computed within `u64` range.
pub fn pow10(k: u32) -> (r: u64)
    requires
        k <= 18,
    ensures
        r == spec_pow10(k as nat),
    decreases k,
{
    proof {
        lemma_pow10_mono(k as nat, 18);
        lemma_pow10_18();
    }
    if k == 0 {
        1
    } else {
        let p: u64 = pow10(k - 1);
        proof {
            lemma_pow10_mono((k - 1) as nat, 18);
        }
        p * 10
    }
}

/// Append the characters of the literal `s` to the buffer.
pub fn push_lit(out: &mut Vec<char>, s: &str)
    ensures
        final(out)@ == old(out)@ + s@,
{
    let n: usize = s.unicode_len();
    let mut i: usize = 0;
    while i < n
        invariant
            i <= n,
            n == s@.len(),
            out@ == old(out)@ + s@.take(i as int),
        decreases n - i,
    {
        let c: char = s.get_char(i);
        out.push(c);
        proof {
            assert(s@.take(i + 1) =~= s@.take(i as int).push(s@[i as int]));
            assert(out@ =~= old(out)@ + s@.take(i + 1));
        }
        i = i + 1;
    }
    proof {
        assert(s@.take(n as int) =~= s@);
    }
}

/// Append a JSON string literal holding the characters of `s`, escaped as
/// `spec_json_string` describes.
pub fn push_json_string(out: &mut Vec<char>, s: &str)
    ensures
        final(out)@ == old(out)@ + spec_json_string(s@),
{
    out.push('"');
    let n: usize = s.unicode_len();
    let mut i: usize = 0;
    while i < n
        invariant
            i <= n,
            n == s@.len(),
            out@ == old(out)@ + seq!['"'] + spec_escape(s@.take(i as int)),
        decreases n - i,
    {
        let c: char = s.get_char(i);
        if c == '"' {
            out.push('\\');
            out.push('"');
        } else if c == '\\' {
            out.push('\\');
            out.push('\\');
        } else if c == '\u{8}' {
            out.push('\\');
            out.push('b');
        } else if c == '\t' {
            out.push('\\');
            out.push('t');
        } else if c == '\n' {
            out.push('\\');
            out.push('n');
        } else if c == '\u{c}' {
            out.push('\\');
            out.push('f');
        } else if c == '\r' {
            out.push('\\');
            out.push('r');
        } else if (c as u32) < 0x20 {
            out.push('\\');
            out.push('u');
            out.push('0');
            out.push('0');
            out.push(hex_digit_char((c as u32) / 16));
            out.push(hex_digit_char((c as u32) % 16));
        } else {
            out.push(c);
        }
        proof {
            assert(out@ =~= old(out)@ + seq!['"'] + (spec_escape(s@.take(i as int))
                + spec_escape_char(s@[i as int])));
            lemma_escape_push(s@.take(i as int), s@[i as int]);
            assert(s@.take(i + 1) =~= s@.take(i as int).push(s@[i as int]));
        }
        i = i + 1;
    }
    out.push('"');
    proof {
        assert(s@.take(n as int) =~= s@);
        assert(out@ =~= old(out)@ + spec_json_string(s@));
    }
}

/// Append the decimal digits of `n`, most significant first.
pub fn push_u64(out: &mut Vec<char>, n: u64)
    ensures
        final(out)@ == old(out)@ + spec_u64_chars(n as nat),
    decreases n,
{
    if n < 10 {
        out.push(digit_char(n));
    } else {
        push_u64(out, n / 10);
        out.push(digit_char(n % 10));
    }
}

/// Append exactly `w` zero-padded decimal digits of `n`.
pub fn push_padded(out: &mut Vec<char>, n: u64, w: u32)
    ensures
        final(out)@ == old(out)@ + spec_padded_chars(n as nat, w as nat),
    decreases w,
{
    if w > 0 {
        push_padded(out, n / 10, w - 1);
        out.push(digit_char(n % 10));
    }
}

/// Append the numeral for the decimal `d`.
pub fn push_decimal(out: &mut Vec<char>, d: &DecimalNumber)
    requires
        d.wf(),
    ensures
        final(out)@ == old(out)@ + spec_decimal_chars(*d),
{
    if d.neg {
        out.push('-');
    }
    if d.scale == 0 {
        push_u64(out, d.mantissa);
    } else {
        let p: u64 = pow10(d.scale);
        proof {
            lemma_pow10_mono(0, d.scale as nat);
            assert(spec_pow10(0) == 1);
        }
        push_u64(out, d.mantissa / p);
        out.push('.');
        push_padded(out, d.mantissa % p, d.scale);
    }
    proof {
        assert(out@ =~= old(out)@ + spec_decimal_chars(*d));
    }
}

/// The comma-separated interior of a JSON array whose elements render to
/// the given character sequences.
pub open spec fn spec_items(rs: Seq<Seq<char>>) -> Seq<char>
    decreases rs.len(),
{
    if rs.len() == 0 {
        Seq::<char>::empty()
    } else {
        rs[0] + spec_rest(rs.drop_first())
    }
}

/// The continuation of an array interior: a comma before every element.
pub open spec fn spec_rest(rs: Seq<Seq<char>>) -> Seq<char>
    decreases rs.len(),
{
    if rs.len() == 0 {
        Seq::<char>::empty()
    } else {
        seq![','] + rs[0] + spec_rest(rs.drop_first())
    }
}

/// A complete JSON array around the rendered elements.
pub open spec fn spec_array(rs: Seq<Seq<char>>) -> Seq<char> {
    seq!['['] + spec_items(rs) + seq![']']
}

/// `spec_rest` distributes over appending one rendered element.
pub proof fn lemma_rest_push(rs: Seq<Seq<char>>, x: Seq<char>)
    ensures
        spec_rest(rs.push(x)) == spec_rest(rs) + seq![','] + x,
    decreases rs.len(),
{
    if rs.len() == 0 {
        let t = rs.push(x);
        assert(t.drop_first() =~= Seq::<Seq<char>>::empty());
        assert(t[0] == x);
        assert(spec_rest(Seq::<Seq<char>>::empty()) =~= Seq::<char>::empty());
        assert(spec_rest(t) == seq![','] + t[0] + spec_rest(t.drop_first()));
        assert(spec_rest(t) =~= spec_rest(rs) + seq![','] + x);
    } else {
        assert(rs.push(x).drop_first() =~= rs.drop_first().push(x));
        lemma_rest_push(rs.drop_first(), x);
        assert(spec_rest(rs.push(x)) =~= spec_rest(rs) + seq![','] + x);
    }
}

/// `spec_items` grows by a comma and the new element once nonempty.
pub proof fn lemma_items_push(rs: Seq<Seq<char>>, x: Seq<char>)
    ensures
        rs.len() == 0 ==> spec_items(rs.push(x)) == x,
        rs.len() > 0 ==> spec_items(rs.push(x)) == spec_items(rs) + seq![','] + x,
{
    if rs.len() == 0 {
        let t = rs.push(x);
        assert(t.drop_first() =~= Seq::<Seq<char>>::empty());
        assert(t[0] == x);
        assert(spec_items(t) =~= x);
    } else {
        assert(rs.push(x).drop_first() =~= rs.drop_first().push(x));
        lemma_rest_push(rs.drop_first(), x);
        assert(rs.push(x)[0] == rs[0]);
        assert(spec_items(rs.push(x)) =~= spec_items(rs) + seq![','] + x);
    }
}

/// Append a JSON array of string literals, one for each element of `ss`.
pub fn push_string_array(out: &mut Vec<char>, ss: &Vec<String>)
    ensures
        final(out)@ == old(out)@ + spec_array(
            ss.deep_view().map_values(|s: Seq<char>| spec_json_string(s)),
        ),
{
    let ghost rendered = ss.deep_view().map_values(|s: Seq<char>| spec_json_string(s));
    out.push('[');
    let mut i: usize = 0;
    while i < ss.len()
        invariant
            i <= ss.len(),
            rendered == ss.deep_view().map_values(|s: Seq<char>| spec_json_string(s)),
            rendered.len() == ss.len(),
            out@ == old(out)@ + seq!['['] + spec_items(rendered.take(i as int)),
        decreases ss.len() - i,
    {
        if i > 0 {
            out.push(',');
        }
        push_json_string(out, ss[i].as_str());
        proof {
            lemma_items_push(rendered.take(i as int), rendered[i as int]);
            assert(rendered.take(i + 1) =~= rendered.take(i as int).push(rendered[i as int]));
            assert(out@ =~= old(out)@ + seq!['['] + spec_items(rendered.take(i + 1)));
        }
        i = i + 1;
    }
    out.push(']');
    proof {
        assert(rendered.take(ss.len() as int) =~= rendered);
        assert(out@ =~= old(out)@ + spec_array(rendered));
    }
}

/// Whether two string slices hold the same characters.
pub fn str_eq(a: &str, b: &str) -> (r: bool)
    ensures
        r == (a@ == b@),
{
    let n: usize = a.unicode_len();
    if n != b.unicode_len() {
        return false;
    }
    let mut i: usize = 0;
    while i < n
        invariant
            i <= n,
            n == a@.len(),
            n == b@.len(),
            forall|k: int| 0 <= k < i ==> a@[k] == b@[k],
        decreases n - i,
    {
        if a.get_char(i) != b.get_char(i) {
            return false;
        }
        i = i + 1;
    }
    proof {
        assert(a@ =~= b@);
    }
    true
}

/// Relies on `String`'s `FromIterator<char>` implementation: collecting an
/// iterator of characters yields the string of exactly those characters,
/// in order.
#[verifier::external_body]
pub fn chars_to_string(v: &Vec<char>) -> (r: String)
    ensures
        r@ == v@,
{
    v.iter().collect()
}

/// The characters of `s`, as a vector.
pub fn str_to_chars(s: &str) -> (r: Vec<char>)
    ensures
        r@ == s@,
{
    let n: usize = s.unicode_len();
    let mut r: Vec<char> = Vec::new();
    let mut i: usize = 0;
    while i < n
        invariant
            i <= n,
            n == s@.len(),
            r@ == s@.take(i as int),
        decreases n - i,
    {
        r.push(s.get_char(i));
        proof {
            assert(s@.take(i + 1) =~= s@.take(i as int).push(s@[i as int]));
        }
        i = i + 1;
    }
    proof {
        assert(s@.take(n as int) =~= s@);
    }
    r
}

/// Whether `c` is a decimal digit character.
pub open spec fn spec_is_digit_char(c: char) -> bool {
    ||| c == '0'
    ||| c == '1'
    ||| c == '2'
    ||| c == '3'
    ||| c == '4'
    ||| c == '5'
    ||| c == '6'
    ||| c == '7'
    ||| c == '8'
    ||| c == '9'
}

/// Whether `c` is a lowercase hexadecimal digit character.
pub open spec fn spec_is_hex_char(c: char) -> bool {
    ||| spec_is_digit_char(c)
    ||| c == 'a'
    ||| c == 'b'
    ||| c == 'c'
    ||| c == 'd'
    ||| c == 'e'
    ||| c == 'f'
}

/// The numeric value of a decimal digit character, or `None` when `c` is
/// not one.
pub fn digit_val(c: char) -> (r: Option<u8>)
    ensures
        r is Some <==> spec_is_digit_char(c),
        r matches Some(v) ==> v < 10 && spec_digit(v as nat) == c,
{
    if c == '0' {
        Some(0)
    } else if c == '1' {
        Some(1)
    } else if c == '2' {
        Some(2)
    } else if c == '3' {
        Some(3)
    } else if c == '4' {
        Some(4)
    } else if c == '5' {
        Some(5)
    } else if c == '6' {
        Some(6)
    } else if c == '7' {
        Some(7)
    } else if c == '8' {
        Some(8)
    } else if c == '9' {
        Some(9)
    } else {
        None
    }
}

/// The numeric value of a lowercase hexadecimal digit character, or
/// `None` when `c` is not one.
pub fn hex_val(c: char) -> (r: Option<u8>)
    ensures
        r is Some <==> spec_is_hex_char(c),
        r matches Some(v) ==> v < 16 && spec_hex_digit(v as nat) == c,
{
    if c == 'a' {
        Some(10)
    } else if c == 'b' {
        Some(11)
    } else if c == 'c' {
        Some(12)
    } else if c == 'd' {
        Some(13)
    } else if c == 'e' {
        Some(14)
    } else if c == 'f' {
        Some(15)
    } else {
        digit_val(c)
    }
}

/// Match the literal `lit` at position `i` of `s`: on success the new
/// position, just past characters equal to the literal.
pub fn eat_lit(s: &Vec<char>, i: usize, lit: &str) -> (r: Option<usize>)
    ensures
        r matches Some(j) ==> {
            &&& j == i + lit@.len()
            &&& j <= s@.len()
            &&& s@.subrange(i as int, j as int) == lit@
        },
        r is None ==> !(i + lit@.len() <= s@.len() && s@.subrange(
            i as int,
            i + lit@.len(),
        ) == lit@),
{
    let n: usize = lit.unicode_len();
    if i > s.len() || n > s.len() - i {
        return None;
    }
    let mut k: usize = 0;
    while k < n
        invariant
            k <= n,
            n == lit@.len(),
            i + n <= s@.len(),
            s@.len() <= usize::MAX,
            forall|t: int| 0 <= t < k ==> s@[i + t] == lit@[t],
        decreases n - k,
    {
        if s[i + k] != lit.get_char(k) {
            proof {
                assert(s@.subrange(i as int, i + lit@.len())[k as int] != lit@[k as int]);
            }
            return None;
        }
        k = k + 1;
    }
    proof {
        assert(s@.subrange(i as int, (i + n) as int) =~= lit@);
    }
    Some(i + n)
}

/// The control character with code `v`.
fn control_char(v: u8) -> (c: char)
    requires
        v < 0x20,
    ensures
        c as u32 == v as u32,
{
    v as char
}

/// Parse a JSON string literal starting at `i`: on success the decoded
/// characters and the position just past the closing quote, where the
/// consumed segment is exactly the canonical literal for those characters.
/// Fails on a missing or unterminated literal, an unescaped control
/// character, or any escape the canonical encoder would not write.
pub fn parse_json_string(s: &Vec<char>, i: usize, out: &mut Vec<char>) -> (r: Option<usize>)
    requires
        old(out)@.len() == 0,
    ensures
        r matches Some(j) ==> {
            &&& i < j <= s@.len()
            &&& s@.subrange(i as int, j as int) == spec_json_string(final(out)@)
        },
{
    if i >= s.len() || s[i] != '"' {
        return None;
    }
    let mut k: usize = i + 1;
    while k < s.len()
        invariant
            i + 1 <= k <= s@.len(),
            i < s@.len(),
            s@[i as int] == '"',
            s@.subrange(i + 1, k as int) == spec_escape(out@),
        decreases s@.len() - k,
    {
        let c: char = s[k];
        if c == '"' {
            proof {
                assert(s@.subrange(i as int, k + 1) =~= seq!['"'] + s@.subrange(i + 1, k as int)
                    + seq!['"']);
            }
            return Some(k + 1);
        } else if c == '\\' {
            if s.len() - k < 2 {
                return None;
            }
            let e: char = s[k + 1];
            let decoded: char;
            if e == '"' {
                decoded = '"';
            } else if e == '\\' {
                decoded = '\\';
            } else if e == 'b' {
                decoded = '\u{8}';
            } else if e == 't' {
                decoded = '\t';
            } else if e == 'n' {
                decoded = '\n';
            } else if e == 'f' {
                decoded = '\u{c}';
            } else if e == 'r' {
                decoded = '\r';
            } else if e == 'u' {
                if s.len() - k < 6 {
                    return None;
                }
                if s[k + 2] != '0' || s[k + 3] != '0' {
                    return None;
                }
                let h: u8 = match hex_val(s[k + 4]) {
                    Some(v) => v,
                    None => { return None; },
                };
                let l: u8 = match hex_val(s[k + 5]) {
                    Some(v) => v,
                    None => { return None; },
                };
                let v: u8 = h * 16 + l;
                if v >= 0x20 {
                    return None;
                }
                if v == 0x08 || v == 0x09 || v == 0x0a || v == 0x0c || v == 0x0d {
                    return None;
                }
                let u: char = control_char(v);
                let ghost prev = out@;
                out.push(u);
                proof {
                    lemma_escape_push(prev, u);
                    vstd::arithmetic::div_mod::lemma_fundamental_div_mod_converse(
                        v as int,
                        16,
                        h as int,
                        l as int,
                    );
                    assert(spec_escape_char(u) =~= seq!['\\', 'u', '0', '0', spec_hex_digit(
                        h as nat,
                    ), spec_hex_digit(l as nat)]);
                    assert(s@.subrange(i + 1, k + 6) =~= s@.subrange(i + 1, k as int) + seq![
                        s@[k as int], s@[k + 1], s@[k + 2], s@[k + 3], s@[k + 4], s@[k + 5]]);
                    assert(s@.subrange(i + 1, k + 6) =~= spec_escape(out@));
                }
                k = k + 6;
                continue ;
            } else {
                return None;
            }
            let ghost prev = out@;
            out.push(decoded);
            proof {
                lemma_escape_push(prev, decoded);
                assert(s@.subrange(i + 1, k + 2) =~= s@.subrange(i + 1, k as int) + seq![
                    s@[k as int], s@[k + 1]]);
                assert(s@.subrange(i + 1, k + 2) =~= spec_escape(out@));
            }
            k = k + 2;
        } else {
            if (c as u32) < 0x20 {
                return None;
            }
            let ghost prev = out@;
            out.push(c);
            proof {
                lemma_escape_push(prev, c);
                assert(s@.subrange(i + 1, k + 1) =~= s@.subrange(i + 1, k as int) + seq![
                    s@[k as int]]);
                assert(s@.subrange(i + 1, k + 1) =~= spec_escape(out@));
            }
            k = k + 1;
        }
    }
    None
}

/// Parse a canonical unsigned numeral at `i`: digits with no leading zero
/// (a single `0` stands alone). On success the value and the position just
/// past the digits consumed, the consumed segment being exactly the
/// numeral of the value; fails on a missing digit or a value beyond `u64`.
pub fn parse_u64(s: &Vec<char>, i: usize) -> (r: Option<(u64, usize)>)
    ensures
        r matches Some(p) ==> {
            &&& i < p.1 <= s@.len()
            &&& s@.subrange(i as int, p.1 as int) == spec_u64_chars(p.0 as nat)
            &&& (p.0 == 0 || p.1 == s@.len() || !spec_is_digit_char(s@[p.1 as int]))
        },
{
    if i >= s.len() {
        return None;
    }
    let d0: u64 = match digit_val(s[i]) {
        Some(v) => v as u64,
        None => { return None; },
    };
    proof {
        assert(s@.subrange(i as int, i + 1) =~= seq![s@[i as int]]);
    }
    if d0 == 0 {
        return Some((0, i + 1));
    }
    let mut n: u64 = d0;
    let mut k: usize = i + 1;
    while k < s.len()
        invariant
            i < k <= s@.len(),
            s@.len() <= usize::MAX,
            n >= 1,
            s@.subrange(i as int, k as int) == spec_u64_chars(n as nat),
        decreases s@.len() - k,
    {
        let d: u64 = match digit_val(s[k]) {
            Some(v) => v as u64,
            None => { return Some((n, k)); },
        };
        if n > 1844674407370955160 {
            return None;
        }
        let ghost n_old = n as nat;
        n = n * 10 + d;
        proof {
            vstd::arithmetic::div_mod::lemma_fundamental_div_mod_converse(
                n as int,
                10,
                n_old as int,
                d as int,
            );
            assert(spec_u64_chars(n as nat) == spec_u64_chars(n_old).push(spec_digit(d as nat)));
            assert(s@.subrange(i as int, k + 1) =~= s@.subrange(i as int, k as int).push(
                s@[k as int],
            ));
        }
        k = k + 1;
    }
    Some((n, k))
}

/// Parse a canonical decimal numeral at `i`: an optional minus sign, the
/// integral digits, and optionally a point followed by one to eighteen
/// fractional digits. On success the consumed segment is exactly the
/// numeral of the returned decimal; fails when no digit follows, the
/// fraction is empty or too wide, or the digits exceed `u64`.
pub fn parse_decimal(s: &Vec<char>, i: usize) -> (r: Option<(DecimalNumber, usize)>)
    ensures
        r matches Some(p) ==> {
            &&& i < p.1 <= s@.len()
            &&& s@.subrange(i as int, p.1 as int) == spec_decimal_chars(p.0)
            &&& p.0.wf()
        },
{
    let mut start: usize = i;
    let mut neg: bool = false;
    if i < s.len() && s[i] == '-' {
        neg = true;
        start = i + 1;
    }
    let (a, k) = match parse_u64(s, start) {
        Some(p) => p,
        None => { return None; },
    };
    if k < s.len() && s[k] == '.' {
        let mut f: u64 = 0;
        let mut w: u32 = 0;
        let mut j: usize = k + 1;
        while j < s.len() && w < 18
            invariant
                k + 1 <= j <= s@.len(),
                s@.len() <= usize::MAX,
                w <= 18,
                w == j - k - 1,
                f < spec_pow10(w as nat),
                s@.subrange(k + 1, j as int) == spec_padded_chars(f as nat, w as nat),
            decreases s@.len() - j,
        {
            let d: u64 = match digit_val(s[j]) {
                Some(v) => v as u64,
                None => { break ; },
            };
            proof {
                lemma_pow10_mono(w as nat, 17);
                lemma_pow10_mono(17, 18);
                lemma_pow10_18();
                assert(spec_pow10(w as nat + 1) == 10 * spec_pow10(w as nat));
            }
            let ghost f_old = f as nat;
            f = f * 10 + d;
            w = w + 1;
            proof {
                vstd::arithmetic::div_mod::lemma_fundamental_div_mod_converse(
                    f as int,
                    10,
                    f_old as int,
                    d as int,
                );
                assert(spec_padded_chars(f as nat, w as nat) == spec_padded_chars(
                    f_old,
                    (w - 1) as nat,
                ).push(spec_digit(d as nat)));
                assert(s@.subrange(k + 1, j + 1) =~= s@.subrange(k + 1, j as int).push(
                    s@[j as int],
                ));
            }
            j = j + 1;
        }
        if w == 0 {
            return None;
        }
        let p: u64 = pow10(w);
        if a > (u64::MAX - f) / p {
            return None;
        }
        proof {
            let rem: int = u64::MAX - f;
            let q: int = rem / (p as int);
            vstd::arithmetic::div_mod::lemma_fundamental_div_mod(rem, p as int);
            vstd::arithmetic::div_mod::lemma_mod_bound(rem, p as int);
            vstd::arithmetic::mul::lemma_mul_is_commutative(p as int, q);
            assert(q * (p as int) <= rem);
            vstd::arithmetic::mul::lemma_mul_inequality(a as int, q, p as int);
            assert(a as int * (p as int) <= rem);
        }
        let m: u64 = a * p + f;
        let d = DecimalNumber { mantissa: m, scale: w, neg };
        proof {
            vstd::arithmetic::div_mod::lemma_fundamental_div_mod_converse(
                m as int,
                p as int,
                a as int,
                f as int,
            );
            assert(s@.subrange(i as int, j as int) =~= spec_decimal_chars(d));
        }
        Some((d, j))
    } else {
        let d = DecimalNumber { mantissa: a, scale: 0, neg };
        proof {
            assert(s@.subrange(i as int, k as int) =~= spec_decimal_chars(d));
        }
        Some((d, k))
    }
}

/// Parse a canonical signed 32-bit numeral at `i`; the consumed segment is
/// exactly the numeral of the returned value.
pub fn parse_i32(s: &Vec<char>, i: usize) -> (r: Option<(i32, usize)>)
    ensures
        r matches Some(p) ==> {
            &&& i < p.1 <= s@.len()
            &&& s@.subrange(i as int, p.1 as int) == spec_i32_chars(p.0)
        },
{
    if i < s.len() && s[i] == '-' {
        let (a, k) = match parse_u64(s, i + 1) {
            Some(p) => p,
            None => { return None; },
        };
        if a > 2147483648 {
            return None;
        }
        if a == 0 {
            return None;
        }
        let v: i32 = (0 - (a as i64)) as i32;
        proof {
            assert(s@.subrange(i as int, k as int) =~= seq!['-'] + s@.subrange(i + 1, k as int));
            assert(s@.subrange(i as int, k as int) =~= spec_i32_chars(v));
        }
        Some((v, k))
    } else {
        let (a, k) = match parse_u64(s, i) {
            Some(p) => p,
            None => { return None; },
        };
        if a > 2147483647 {
            return None;
        }
        Some(((a as i32), k))
    }
}


/// A range of a sequence splits at any interior point.
pub proof fn lemma_subrange_split(t: Seq<char>, a: int, b: int, c: int)
    requires
        0 <= a <= b <= c <= t.len(),
    ensures
        t.subrange(a, c) == t.subrange(a, b) + t.subrange(b, c),
{
    assert(t.subrange(a, c) =~= t.subrange(a, b) + t.subrange(b, c));
}

/// Parse a JSON string literal and hand it over as a `String`.
pub fn parse_string_field(s: &Vec<char>, i: usize) -> (r: Option<(String, usize)>)
    ensures
        r matches Some(p) ==> {
            &&& i < p.1 <= s@.len()
            &&& s@.subrange(i as int, p.1 as int) == spec_json_string(p.0@)
        },
{
    let mut buf: Vec<char> = Vec::new();
    let j: usize = match parse_json_string(s, i, &mut buf) {
        Some(j) => j,
        None => { return None; },
    };
    Some((chars_to_string(&buf), j))
}

/// Parse an unsigned numeral that must fit a `u32`.
pub fn parse_u32(s: &Vec<char>, i: usize) -> (r: Option<(u32, usize)>)
    ensures
        r matches Some(p) ==> {
            &&& i < p.1 <= s@.len()
            &&& s@.subrange(i as int, p.1 as int) == spec_u64_chars(p.0 as nat)
        },
{
    let (n, j) = match parse_u64(s, i) {
        Some(p) => p,
        None => { return None; },
    };
    if n > 0xffff_ffff {
        return None;
    }
    Some(((n as u32), j))
}


} // verus!
