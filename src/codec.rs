use vstd::prelude::*;

use crate::jwt::{Claims, ClaimsView, TokenType};
use crate::text::{has_at, push_str, string_of, chars_of};

verus! {

// ---------------------------------------------------------------------------
// Decimal integers
// ---------------------------------------------------------------------------

pub open spec fn is_digit(c: char) -> bool {
    '0' <= c && c <= '9'
}

pub open spec fn digit_value(c: char) -> nat {
    ((c as u32) - ('0' as u32)) as nat
}

pub open spec fn digit_char(d: nat) -> char {
    if d == 0 { '0' }
    else if d == 1 { '1' }
    else if d == 2 { '2' }
    else if d == 3 { '3' }
    else if d == 4 { '4' }
    else if d == 5 { '5' }
    else if d == 6 { '6' }
    else if d == 7 { '7' }
    else if d == 8 { '8' }
    else { '9' }
}

/// Decimal text of a natural number, without leading zeros.
pub open spec fn nat_text(n: nat) -> Seq<char>
    decreases n,
{
    if n < 10 {
        seq![digit_char(n)]
    } else {
        nat_text(n / 10) + seq![digit_char(n % 10)]
    }
}

/// Decimal text of an integer, as JSON writes it.
pub open spec fn int_text(n: int) -> Seq<char> {
    if n < 0 {
        seq!['-'] + nat_text((-n) as nat)
    } else {
        nat_text(n as nat)
    }
}

/// Value of a run of decimal digits.
pub open spec fn digits_value(d: Seq<char>) -> nat
    decreases d.len(),
{
    if d.len() == 0 {
        0
    } else {
        digits_value(d.drop_last()) * 10 + digit_value(d.last())
    }
}

proof fn lemma_digit_char(d: nat)
    requires
        d < 10,
    ensures
        is_digit(digit_char(d)),
        digit_value(digit_char(d)) == d,
{
}

proof fn lemma_nat_text_digits(n: nat)
    ensures
        nat_text(n).len() >= 1,
        forall|i: int| 0 <= i < nat_text(n).len() ==> is_digit(#[trigger] nat_text(n)[i]),
        digits_value(nat_text(n)) == n,
        n > 0 ==> nat_text(n)[0] != '0',
        n == 0 ==> nat_text(n).len() == 1,
    decreases n,
{
    if n < 10 {
        lemma_digit_char(n);
        assert(nat_text(n).drop_last() =~= Seq::<char>::empty());
        assert(digits_value(Seq::<char>::empty()) == 0);
    } else {
        lemma_nat_text_digits(n / 10);
        lemma_digit_char(n % 10);
        let t = nat_text(n);
        assert(t.drop_last() =~= nat_text(n / 10));
        assert(n == (n / 10) * 10 + n % 10);
        assert(t[0] == nat_text(n / 10)[0]);
    }
}

/// Ten to the power `k`.
pub open spec fn pow10(k: nat) -> nat
    decreases k,
{
    if k == 0 { 1 } else { 10 * pow10((k - 1) as nat) }
}

/// Each digit run of length `k` has a value below `10^k`.
proof fn lemma_digits_value_bound(d: Seq<char>)
    requires
        forall|i: int| 0 <= i < d.len() ==> is_digit(#[trigger] d[i]),
    ensures
        digits_value(d) < pow10(d.len()),
    decreases d.len(),
{
    if d.len() > 0 {
        let p = d.drop_last();
        assert forall|i: int| 0 <= i < p.len() implies is_digit(#[trigger] p[i]) by {
            assert(p[i] == d[i]);
        }
        lemma_digits_value_bound(p);
        assert(is_digit(d[d.len() - 1]));
    }
}

proof fn lemma_pow10_19()
    ensures
        pow10(19) == 10_000_000_000_000_000_000nat,
{
    reveal_with_fuel(pow10, 20);
}

proof fn lemma_nat_text_short(n: nat, k: nat)
    requires
        n < pow10(k),
        k >= 1,
    ensures
        nat_text(n).len() <= k,
    decreases n,
{
    if n >= 10 {
        assert(k >= 2) by {
            if k == 1 {
                assert(pow10(1) == 10) by { reveal_with_fuel(pow10, 2); }
            }
        }
        assert(n / 10 < pow10((k - 1) as nat));
        lemma_nat_text_short(n / 10, (k - 1) as nat);
    }
}

/// A canonical run of digits is the text of its own value.
proof fn lemma_canonical_digits(d: Seq<char>)
    requires
        d.len() >= 1,
        forall|i: int| 0 <= i < d.len() ==> is_digit(#[trigger] d[i]),
        d.len() > 1 ==> d[0] != '0',
    ensures
        nat_text(digits_value(d)) == d,
        d.len() > 1 ==> digits_value(d) >= 10,
        d[0] != '0' ==> digits_value(d) > 0,
    decreases d.len(),
{
    let v = digits_value(d);
    let last = d.last();
    assert(is_digit(last));
    if d.len() == 1 {
        assert(d.drop_last() =~= Seq::<char>::empty());
        assert(digits_value(Seq::<char>::empty()) == 0);
        assert(v == digit_value(last));
        assert(digit_char(v) == last);
        assert(nat_text(v) =~= d);
    } else {
        let p = d.drop_last();
        assert forall|i: int| 0 <= i < p.len() implies is_digit(#[trigger] p[i]) by {
            assert(p[i] == d[i]);
        }
        assert(p[0] == d[0]);
        lemma_canonical_digits(p);
        let pv = digits_value(p);
        assert(pv > 0);
        assert(v == pv * 10 + digit_value(last));
        assert(v / 10 == pv && v % 10 == digit_value(last));
        assert(digit_char(v % 10) == last);
        assert(nat_text(v) =~= nat_text(pv) + seq![last]);
        assert(d =~= p + seq![last]);
    }
}

fn digit_of(d: u64) -> (c: char)
    requires
        d < 10,
    ensures
        c == digit_char(d as nat),
{
    if d == 0 { '0' }
    else if d == 1 { '1' }
    else if d == 2 { '2' }
    else if d == 3 { '3' }
    else if d == 4 { '4' }
    else if d == 5 { '5' }
    else if d == 6 { '6' }
    else if d == 7 { '7' }
    else if d == 8 { '8' }
    else { '9' }
}

fn push_nat_text(out: &mut Vec<char>, n: u64)
    ensures
        final(out)@ == old(out)@ + nat_text(n as nat),
    decreases n,
{
    if n >= 10 {
        push_nat_text(out, n / 10);
    }
    let d = digit_of(n % 10);
    out.push(d);
    proof {
        if n < 10 {
            assert(n % 10 == n);
        }
    }
}

/// Appends the decimal text of `n`.
pub fn push_int_text(out: &mut Vec<char>, n: i64)
    ensures
        final(out)@ == old(out)@ + int_text(n as int),
{
    if n < 0 {
        out.push('-');
        let mag: u64 = ((-(n + 1)) as u64) + 1;
        push_nat_text(out, mag);
        assert(final(out)@ =~= old(out)@ + int_text(n as int));
    } else {
        push_nat_text(out, n as u64);
    }
}

/// Reads a canonical decimal integer that starts at `pos` and fits in
/// `[lo, hi]`: an optional minus, then a maximal run of digits without a
/// leading zero, and no minus before a zero.
pub fn read_int(s: &Vec<char>, pos: usize, lo: i64, hi: i64) -> (r: Option<(i64, usize)>)
    requires
        lo < 0 < hi,
    ensures
        r matches Some((v, e)) ==> {
            &&& pos < e <= s@.len()
            &&& s@.subrange(pos as int, e as int) == int_text(v as int)
            &&& (e == s@.len() || !is_digit(s@[e as int]))
            &&& lo <= v <= hi
        },
        forall|v: int|
            lo <= v <= hi && pos + int_text(v).len() <= s@.len()
                && #[trigger] s@.subrange(pos as int, pos + int_text(v).len()) == int_text(v)
                && (pos + int_text(v).len() == s@.len() || !is_digit(s@[pos + int_text(v).len()]))
                ==> r == Some((v as i64, (pos + int_text(v).len()) as usize)),
{
    let n = s.len();
    if pos >= n {
        proof {
            assert forall|v: int| lo <= v <= hi && pos + int_text(v).len() <= s@.len() implies false by {
                lemma_nat_text_digits(if v < 0 { (-v) as nat } else { v as nat });
            }
        }
        return None;
    }
    let neg = s[pos] == '-';
    let start: usize = if neg { pos + 1 } else { pos };
    let mut end: usize = start;
    let mut mag: u64 = 0;
    while end < n && '0' <= s[end] && s[end] <= '9' && end - start < 19
        invariant
            start <= end <= n,
            n == s@.len(),
            end - start <= 19,
            forall|i: int| start <= i < end ==> is_digit(#[trigger] s@[i]),
            mag == digits_value(s@.subrange(start as int, end as int)),
        decreases n - end,
    {
        proof {
            lemma_digits_value_bound(s@.subrange(start as int, end as int));
            assert(pow10((end - start) as nat) <= pow10(18)) by {
                lemma_pow10_mono((end - start) as nat, 18);
            }
            assert(pow10(18) == 1_000_000_000_000_000_000nat) by { reveal_with_fuel(pow10, 19); }
            assert(s@.subrange(start as int, end + 1).drop_last() =~= s@.subrange(start as int, end as int));
        }
        let dv = (s[end] as u32 - '0' as u32) as u64;
        mag = mag * 10 + dv;
        end = end + 1;
    }
    let digits = Ghost(s@.subrange(start as int, end as int));
    // The run must be maximal, non-empty, and canonical.
    let run_ok = end > start && (end == n || !('0' <= s[end] && s[end] <= '9'))
        && (end - start == 1 || s[start] != '0') && !(neg && s[start] == '0');
    proof {
        // Whatever integer's text stands at `pos`, the scan above read exactly its digits.
        assert forall|v: int|
            lo <= v <= hi && pos + int_text(v).len() <= s@.len()
                && #[trigger] s@.subrange(pos as int, pos + int_text(v).len()) == int_text(v)
                && (pos + int_text(v).len() == s@.len() || !is_digit(s@[pos + int_text(v).len()]))
            implies {
                let m: nat = if v < 0 { (-v) as nat } else { v as nat };
                &&& run_ok
                &&& end == pos + int_text(v).len()
                &&& digits@ == nat_text(m)
                &&& neg == (v < 0)
                &&& mag == m
            } by {
            let m: nat = if v < 0 { (-v) as nat } else { v as nat };
            lemma_nat_text_digits(m);
            let t = nat_text(m);
            let off: int = if v < 0 { 1 } else { 0 };
            assert(int_text(v) =~= if v < 0 { seq!['-'] + t } else { t });
            assert(s@[pos as int] == int_text(v)[0]);
            assert(neg == (v < 0));
            assert(start == pos + off);
            assert forall|i: int| 0 <= i < t.len() implies s@[start + i] == #[trigger] t[i] by {
                assert(s@.subrange(pos as int, pos + int_text(v).len())[off + i] == int_text(v)[off + i]);
            }
            assert(m <= 9_223_372_036_854_775_808nat);
            lemma_pow10_19();
            lemma_nat_text_short(m, 19);
            // the scan cannot stop inside the run nor run past it
            assert(end == start + t.len()) by {
                if end < start + t.len() {
                    assert(is_digit(s@[end as int])) by { assert(s@[start + (end - start)] == t[end - start]); }
                    assert(end - start < 19);
                }
                if end > start + t.len() {
                    assert(is_digit(s@[start + t.len()]));
                }
            }
            assert(digits@ =~= t);
            assert(t.len() > 1 ==> s@[start as int] != '0') by {
                assert(s@[start + 0] == t[0]);
            }
            assert(v < 0 ==> s@[start as int] != '0') by {
                assert(s@[start + 0] == t[0]);
            }
        }
    }
    if !run_ok {
        return None;
    }
    proof {
        lemma_canonical_digits(digits@);
    }
    if neg {
        if mag > 9_223_372_036_854_775_808u64 || (mag as i128) > -(lo as i128) {
            return None;
        }
        let v: i64 = if mag == 9_223_372_036_854_775_808u64 { i64::MIN } else { -(mag as i64) };
        assert(s@.subrange(pos as int, end as int) =~= seq!['-'] + digits@);
        Some((v, end))
    } else {
        if mag > hi as u64 {
            return None;
        }
        let v: i64 = mag as i64;
        Some((v, end))
    }
}

proof fn lemma_pow10_mono(a: nat, b: nat)
    requires
        a <= b,
    ensures
        pow10(a) <= pow10(b),
    decreases b,
{
    if a < b {
        lemma_pow10_mono(a, (b - 1) as nat);
    }
}

// ---------------------------------------------------------------------------
// JSON strings
// ---------------------------------------------------------------------------

pub open spec fn hex_char(d: nat) -> char {
    if d < 10 { digit_char(d) }
    else if d == 10 { 'a' }
    else if d == 11 { 'b' }
    else if d == 12 { 'c' }
    else if d == 13 { 'd' }
    else if d == 14 { 'e' }
    else { 'f' }
}

/// The JSON text of one character inside a string literal: quote, backslash
/// and control characters are escaped, short forms first; all else stands as is.
pub open spec fn esc(c: char) -> Seq<char> {
    if c == '"' { seq!['\\', '"'] }
    else if c == '\\' { seq!['\\', '\\'] }
    else if c == '\n' { seq!['\\', 'n'] }
    else if c == '\r' { seq!['\\', 'r'] }
    else if c == '\t' { seq!['\\', 't'] }
    else if c == '\x08' { seq!['\\', 'b'] }
    else if c == '\x0c' { seq!['\\', 'f'] }
    else if (c as u32) < 0x20 {
        seq!['\\', 'u', '0', '0', hex_char((c as u32 / 16) as nat), hex_char((c as u32 % 16) as nat)]
    } else { seq![c] }
}

pub open spec fn esc_all(t: Seq<char>) -> Seq<char>
    decreases t.len(),
{
    if t.len() == 0 { seq![] } else { esc_all(t.drop_last()) + esc(t.last()) }
}

/// A JSON string literal holding exactly `t`.
pub open spec fn json_str(t: Seq<char>) -> Seq<char> {
    seq!['"'] + esc_all(t) + seq!['"']
}

proof fn lemma_esc_all_concat(a: Seq<char>, b: Seq<char>)
    ensures
        esc_all(a + b) == esc_all(a) + esc_all(b),
    decreases b.len(),
{
    if b.len() == 0 {
        assert(a + b =~= a);
        assert(esc_all(a) + esc_all(b) =~= esc_all(a));
    } else {
        lemma_esc_all_concat(a, b.drop_last());
        assert((a + b).drop_last() =~= a + b.drop_last());
        assert((a + b).last() == b.last());
        assert(esc_all(a + b) =~= esc_all(a) + esc_all(b));
    }
}

proof fn lemma_esc_all_single(c: char)
    ensures
        esc_all(seq![c]) == esc(c),
{
    assert(seq![c].drop_last() =~= Seq::<char>::empty());
    assert(esc_all(Seq::<char>::empty()) =~= Seq::<char>::empty());
    assert(esc_all(seq![c]) =~= esc(c));
}

proof fn lemma_esc_shape(c: char)
    ensures
        esc(c).len() >= 1,
        esc(c)[0] != '"',
        esc(c).len() == 1 <==> (c != '"' && c != '\\' && (c as u32) >= 0x20),
{
}

fn hex_of(d: u32) -> (c: char)
    requires
        d < 16,
    ensures
        c == hex_char(d as nat),
{
    if d < 10 { digit_of(d as u64) }
    else if d == 10 { 'a' }
    else if d == 11 { 'b' }
    else if d == 12 { 'c' }
    else if d == 13 { 'd' }
    else if d == 14 { 'e' }
    else { 'f' }
}

/// Appends the JSON string literal of `t`.
pub fn push_json_str(out: &mut Vec<char>, t: &Vec<char>)
    ensures
        final(out)@ == old(out)@ + json_str(t@),
{
    out.push('"');
    let mut i: usize = 0;
    while i < t.len()
        invariant
            i <= t@.len(),
            out@ == old(out)@ + seq!['"'] + esc_all(t@.subrange(0, i as int)),
        decreases t@.len() - i,
    {
        let c = t[i];
        let ghost before = out@;
        if c == '"' {
            out.push('\\');
            out.push('"');
        } else if c == '\\' {
            out.push('\\');
            out.push('\\');
        } else if c == '\n' {
            out.push('\\');
            out.push('n');
        } else if c == '\r' {
            out.push('\\');
            out.push('r');
        } else if c == '\t' {
            out.push('\\');
            out.push('t');
        } else if c == '\x08' {
            out.push('\\');
            out.push('b');
        } else if c == '\x0c' {
            out.push('\\');
            out.push('f');
        } else if (c as u32) < 0x20 {
            out.push('\\');
            out.push('u');
            out.push('0');
            out.push('0');
            let h = hex_of(c as u32 / 16);
            out.push(h);
            let l = hex_of(c as u32 % 16);
            out.push(l);
        } else {
            out.push(c);
        }
        proof {
            assert(out@ =~= before + esc(c));
            assert(t@.subrange(0, i + 1).drop_last() =~= t@.subrange(0, i as int));
        }
        i = i + 1;
    }
    assert(t@.subrange(0, i as int) =~= t@);
    out.push('"');
}

pub open spec fn hex_value(c: char) -> nat {
    if is_digit(c) { digit_value(c) } else { ((c as u32) - ('a' as u32) + 10) as nat }
}

pub open spec fn is_lower_hex(c: char) -> bool {
    is_digit(c) || ('a' <= c && c <= 'f')
}

proof fn lemma_hex_char(d: nat)
    requires
        d < 16,
    ensures
        is_lower_hex(hex_char(d)),
        hex_value(hex_char(d)) == d,
        d < 2 ==> hex_char(d) == digit_char(d),
{
}

/// Reads the escape unit (or plain character) at `i` of a string body.
fn read_unit(s: &Vec<char>, i: usize) -> (r: Option<(char, usize)>)
    requires
        i < s@.len(),
    ensures
        r matches Some((c, k)) ==> i + k <= s@.len() && s@.subrange(i as int, i + k) == esc(c),
        forall|c: char|
            i + esc(c).len() <= s@.len() && #[trigger] s@.subrange(i as int, i + esc(c).len()) == esc(c)
                ==> r == Some((c, esc(c).len() as usize)),
{
    let n = s.len();
    let c = s[i];
    if c == '\\' {
        if i + 1 >= n {
            proof {
                assert forall|x: char| i + esc(x).len() <= s@.len() implies
                    #[trigger] s@.subrange(i as int, i + esc(x).len()) != esc(x) by {
                    if s@.subrange(i as int, i + esc(x).len()) == esc(x) {
                        assert(s@.subrange(i as int, i + esc(x).len())[0] == c);
                    }
                }
            }
            return None;
        }
        let e = s[i + 1];
        let ghost pair = s@.subrange(i as int, i + 2);
        proof {
            assert(pair =~= seq![c, e]);
            assert forall|x: char| i + esc(x).len() <= s@.len()
                && #[trigger] s@.subrange(i as int, i + esc(x).len()) == esc(x)
                implies esc(x).len() >= 2 && esc(x)[1] == e by {
                assert(s@.subrange(i as int, i + esc(x).len())[0] == c);
                if esc(x).len() >= 2 {
                    assert(s@.subrange(i as int, i + esc(x).len())[1] == e);
                }
            }
        }
        if e == '"' {
            return Some(('"', 2));
        } else if e == '\\' {
            return Some(('\\', 2));
        } else if e == 'n' {
            return Some(('\n', 2));
        } else if e == 'r' {
            return Some(('\r', 2));
        } else if e == 't' {
            return Some(('\t', 2));
        } else if e == 'b' {
            return Some(('\x08', 2));
        } else if e == 'f' {
            return Some(('\x0c', 2));
        } else if e == 'u' {
            if n - i <= 5 {
                return None;
            }
            let d0 = s[i + 2];
            let d1 = s[i + 3];
            let h = s[i + 4];
            let l = s[i + 5];
            let ghost six = s@.subrange(i as int, i + 6);
            proof {
                assert(six =~= seq![c, e, d0, d1, h, l]);
                assert forall|x: char| i + esc(x).len() <= s@.len()
                    && #[trigger] s@.subrange(i as int, i + esc(x).len()) == esc(x)
                    implies esc(x) == six && (x as u32) < 0x20 && x != '\x08' && x != '\t'
                        && x != '\n' && x != '\x0c' && x != '\r' by {
                    assert(esc(x).len() == 6);
                    assert(s@.subrange(i as int, i + esc(x).len()) =~= six);
                }
            }
            let l_digit = '0' <= l && l <= '9';
            let l_af = 'a' <= l && l <= 'f';
            if !(d0 == '0' && d1 == '0' && (h == '0' || h == '1') && (l_digit || l_af)) {
                proof {
                    assert forall|x: char| i + esc(x).len() <= s@.len() implies
                        #[trigger] s@.subrange(i as int, i + esc(x).len()) != esc(x) by {
                        if s@.subrange(i as int, i + esc(x).len()) == esc(x) {
                            lemma_hex_char((x as u32 / 16) as nat);
                            lemma_hex_char((x as u32 % 16) as nat);
                        }
                    }
                }
                return None;
            }
            let lv: u32 = if l_digit { l as u32 - '0' as u32 } else { l as u32 - 'a' as u32 + 10 };
            let hv: u32 = h as u32 - '0' as u32;
            let v: u32 = hv * 16 + lv;
            proof {
                assert forall|x: char| i + esc(x).len() <= s@.len()
                    && #[trigger] s@.subrange(i as int, i + esc(x).len()) == esc(x)
                    implies x as u32 == v by {
                    lemma_hex_char((x as u32 / 16) as nat);
                    lemma_hex_char((x as u32 % 16) as nat);
                }
            }
            if v == 8 || v == 9 || v == 10 || v == 12 || v == 13 {
                proof {
                    assert forall|x: char| i + esc(x).len() <= s@.len() implies
                        #[trigger] s@.subrange(i as int, i + esc(x).len()) != esc(x) by {
                        if s@.subrange(i as int, i + esc(x).len()) == esc(x) {
                            vstd::utf8::char_u32_cast(x, v);
                            vstd::utf8::char_u32_cast('\x08', 8);
                            vstd::utf8::char_u32_cast('\t', 9);
                            vstd::utf8::char_u32_cast('\n', 10);
                            vstd::utf8::char_u32_cast('\x0c', 12);
                            vstd::utf8::char_u32_cast('\r', 13);
                        }
                    }
                }
                return None;
            }
            let ch = (v as u8) as char;
            proof {
                assert(ch as u32 == v);
                lemma_hex_char((v / 16) as nat);
                lemma_hex_char((v % 16) as nat);
                assert(esc(ch) =~= six);
                assert forall|x: char| i + esc(x).len() <= s@.len()
                    && #[trigger] s@.subrange(i as int, i + esc(x).len()) == esc(x)
                    implies x == ch by {
                    vstd::utf8::char_u32_cast(x, v);
                    vstd::utf8::char_u32_cast(ch, v);
                }
            }
            return Some((ch, 6));
        } else {
            return None;
        }
    } else if c == '"' || (c as u32) < 0x20 {
        proof {
            assert forall|x: char| i + esc(x).len() <= s@.len() implies
                #[trigger] s@.subrange(i as int, i + esc(x).len()) != esc(x) by {
                if s@.subrange(i as int, i + esc(x).len()) == esc(x) {
                    assert(s@.subrange(i as int, i + esc(x).len())[0] == c);
                }
            }
        }
        return None;
    } else {
        proof {
            assert(s@.subrange(i as int, i + 1) =~= esc(c));
            assert forall|x: char| i + esc(x).len() <= s@.len()
                && #[trigger] s@.subrange(i as int, i + esc(x).len()) == esc(x)
                implies x == c by {
                assert(s@.subrange(i as int, i + esc(x).len())[0] == c);
            }
        }
        return Some((c, 1));
    }
}

/// Reads the JSON string literal that starts at `pos`. It accepts exactly the
/// literals that `push_json_str` writes.
pub fn read_json_str(s: &Vec<char>, pos: usize) -> (r: Option<(Vec<char>, usize)>)
    ensures
        r matches Some((t, e)) ==> pos < e <= s@.len() && s@.subrange(pos as int, e as int) == json_str(t@),
        forall|t: Seq<char>|
            pos + json_str(t).len() <= s@.len()
                && #[trigger] s@.subrange(pos as int, pos + json_str(t).len()) == json_str(t)
                ==> (r matches Some((u, e)) && u@ == t && e == pos + json_str(t).len()),
{
    let n = s.len();
    if pos >= n || s[pos] != '"' {
        proof {
            assert forall|t: Seq<char>| pos + json_str(t).len() <= s@.len() implies
                #[trigger] s@.subrange(pos as int, pos + json_str(t).len()) != json_str(t) by {
                if s@.subrange(pos as int, pos + json_str(t).len()) == json_str(t) {
                    assert(s@.subrange(pos as int, pos + json_str(t).len())[0] == s@[pos as int]);
                }
            }
        }
        return None;
    }
    let mut out: Vec<char> = Vec::new();
    let mut i: usize = pos + 1;
    proof {
        assert(s@.subrange(pos as int, i as int) =~= seq!['"'] + esc_all(out@));
    }
    while i < n
        invariant
            n == s@.len(),
            pos < i <= n,
            s@.subrange(pos as int, i as int) == seq!['"'] + esc_all(out@),
            forall|t: Seq<char>|
                pos + json_str(t).len() <= s@.len()
                    && #[trigger] s@.subrange(pos as int, pos + json_str(t).len()) == json_str(t)
                    ==> out@.len() <= t.len() && out@ == t.subrange(0, out@.len() as int),
        decreases n - i,
    {
        // For a literal of `t` at `pos`, what stands at `i` is the unit of the
        // next character of `t`, or the closing quote once all of `t` is read.
        proof {
            assert forall|t: Seq<char>|
                pos + json_str(t).len() <= s@.len()
                    && #[trigger] s@.subrange(pos as int, pos + json_str(t).len()) == json_str(t)
                implies ({
                    let k = out@.len() as int;
                    &&& i == pos + 1 + esc_all(t.subrange(0, k)).len()
                    &&& (k == t.len() ==> s@[i as int] == '"')
                    &&& (k < t.len() ==> i + esc(t[k]).len() <= s@.len()
                        && s@.subrange(i as int, i + esc(t[k]).len()) == esc(t[k]))
                }) by {
                let k = out@.len() as int;
                let lit = json_str(t);
                lemma_esc_all_concat(t.subrange(0, k), t.subrange(k, t.len() as int));
                assert(t.subrange(0, k) + t.subrange(k, t.len() as int) =~= t);
                assert(t.subrange(0, k) =~= out@);
                let pre = esc_all(out@);
                let rest = esc_all(t.subrange(k, t.len() as int));
                assert(lit =~= seq!['"'] + pre + rest + seq!['"']);
                assert(s@.subrange(pos as int, i as int) =~= lit.subrange(0, i - pos)) by {
                    assert(s@.subrange(pos as int, i as int) =~= seq!['"'] + pre);
                    assert(s@.subrange(pos as int, pos + lit.len()).subrange(0, i - pos) =~= s@.subrange(pos as int, i as int));
                }
                assert(i == pos + 1 + pre.len());
                if k == t.len() {
                    assert(rest.len() == 0) by {
                        assert(t.subrange(k, t.len() as int) =~= Seq::<char>::empty());
                    }
                    assert(s@[i as int] == s@.subrange(pos as int, pos + lit.len())[i - pos]);
                } else {
                    let tail = t.subrange(k, t.len() as int);
                    lemma_esc_all_concat(seq![t[k]], tail.subrange(1, tail.len() as int));
                    assert(seq![t[k]] + tail.subrange(1, tail.len() as int) =~= tail);
                    lemma_esc_all_single(t[k]);
                    let u = esc(t[k]);
                    assert(s@.subrange(i as int, i + u.len()) =~= u) by {
                        assert forall|j: int| 0 <= j < u.len() implies s@.subrange(i as int, i + u.len())[j] == u[j] by {
                            assert(s@.subrange(pos as int, pos + lit.len())[i - pos + j] == lit[i - pos + j]);
                            assert(lit[i - pos + j] == rest[j]);
                        }
                    }
                }
            }
        }
        if s[i] == '"' {
            proof {
                assert forall|t: Seq<char>|
                    pos + json_str(t).len() <= s@.len()
                        && #[trigger] s@.subrange(pos as int, pos + json_str(t).len()) == json_str(t)
                    implies out@ == t by {
                    let k = out@.len() as int;
                    if k < t.len() {
                        lemma_esc_shape(t[k]);
                        assert(s@.subrange(i as int, i + esc(t[k]).len())[0] == s@[i as int]);
                    }
                    assert(out@ =~= t);
                }
                assert(s@.subrange(pos as int, i + 1) =~= json_str(out@));
            }
            return Some((out, i + 1));
        }
        let unit = read_unit(s, i);
        match unit {
            None => {
                proof {
                    assert forall|t: Seq<char>| pos + json_str(t).len() <= s@.len() implies
                        #[trigger] s@.subrange(pos as int, pos + json_str(t).len()) != json_str(t) by {
                        if s@.subrange(pos as int, pos + json_str(t).len()) == json_str(t) {
                            let k = out@.len() as int;
                            if k < t.len() {
                                assert(s@.subrange(i as int, i + esc(t[k]).len()) == esc(t[k]));
                            }
                        }
                    }
                }
                return None;
            },
            Some((c, k)) => {
                let ghost old_out = out@;
                proof {
                    assert forall|t: Seq<char>|
                        pos + json_str(t).len() <= s@.len()
                            && #[trigger] s@.subrange(pos as int, pos + json_str(t).len()) == json_str(t)
                        implies old_out.len() < t.len() && t[old_out.len() as int] == c by {
                        let m = old_out.len() as int;
                        if m == t.len() {
                            assert(s@.subrange(i as int, i + k)[0] == s@[i as int]);
                            lemma_esc_shape(c);
                        } else {
                            assert(s@.subrange(i as int, i + esc(t[m]).len()) == esc(t[m]));
                        }
                    }
                }
                out.push(c);
                proof {
                    assert(out@.drop_last() =~= old_out);
                    assert(s@.subrange(pos as int, i + k) =~= s@.subrange(pos as int, i as int) + s@.subrange(i as int, i + k));
                    assert forall|t: Seq<char>|
                        pos + json_str(t).len() <= s@.len()
                            && #[trigger] s@.subrange(pos as int, pos + json_str(t).len()) == json_str(t)
                        implies out@.len() <= t.len() && out@ == t.subrange(0, out@.len() as int) by {
                        assert(out@ =~= t.subrange(0, out@.len() as int));
                    }
                }
                i = i + k;
            },
        }
    }
    proof {
        assert forall|t: Seq<char>| pos + json_str(t).len() <= s@.len() implies
            #[trigger] s@.subrange(pos as int, pos + json_str(t).len()) != json_str(t) by {
            if s@.subrange(pos as int, pos + json_str(t).len()) == json_str(t) {
                let k = out@.len() as int;
                lemma_esc_all_concat(t.subrange(0, k), t.subrange(k, t.len() as int));
                assert(t.subrange(0, k) + t.subrange(k, t.len() as int) =~= t);
                assert(t.subrange(0, k) =~= out@);
                assert(i - pos == 1 + esc_all(out@).len()) by {
                    assert(s@.subrange(pos as int, i as int).len() == i - pos);
                }
            }
        }
    }
    None
}

// ---------------------------------------------------------------------------
// The claims object
// ---------------------------------------------------------------------------

pub open spec fn type_text(t: TokenType) -> Seq<char> {
    match t {
        TokenType::Access => "\"access\""@,
        TokenType::Refresh => "\"refresh\""@,
    }
}

/// The pieces of the JSON object of a claims value, in order: its members
/// in declaration order, with no white space.
pub open spec fn claims_piece(v: ClaimsView, k: int) -> Seq<char> {
    if k == 0 { "{\"sub\":"@ }
    else if k == 1 { int_text(v.sub as int) }
    else if k == 2 { ",\"username\":"@ }
    else if k == 3 { json_str(v.username) }
    else if k == 4 { ",\"role_id\":"@ }
    else if k == 5 { int_text(v.role_id as int) }
    else if k == 6 { ",\"exp\":"@ }
    else if k == 7 { int_text(v.exp as int) }
    else if k == 8 { ",\"iat\":"@ }
    else if k == 9 { int_text(v.iat as int) }
    else if k == 10 { ",\"iss\":"@ }
    else if k == 11 { json_str(v.iss) }
    else if k == 12 { ",\"token_type\":"@ }
    else if k == 13 { type_text(v.token_type) }
    else { "}"@ }
}

#[verifier::opaque]
pub open spec fn claims_pieces_from(v: ClaimsView, k: nat) -> Seq<char>
    decreases 15 - k,
{
    if k >= 15 { seq![] } else { claims_piece(v, k as int) + claims_pieces_from(v, k + 1) }
}

proof fn lemma_pieces_unfold(v: ClaimsView, k: nat)
    ensures
        k < 15 ==> claims_pieces_from(v, k) == claims_piece(v, k as int) + claims_pieces_from(v, k + 1),
        k >= 15 ==> claims_pieces_from(v, k) == Seq::<char>::empty(),
{
    reveal(claims_pieces_from);
}

/// The JSON object of a claims value.
pub open spec fn claims_text(v: ClaimsView) -> Seq<char> {
    claims_pieces_from(v, 0)
}

proof fn lemma_append_piece(before: Seq<char>, out: Seq<char>, v: ClaimsView, k: nat)
    requires
        k < 15,
        out == before + claims_piece(v, k as int),
    ensures
        out + claims_pieces_from(v, k + 1) == before + claims_pieces_from(v, k),
{
    lemma_pieces_unfold(v, k);
    assert(out + claims_pieces_from(v, k + 1) =~= before + claims_pieces_from(v, k));
}

/// Writes the JSON object of `c`.
pub fn write_claims(c: &Claims) -> (r: Vec<char>)
    ensures
        r@ == claims_text(c@),
{
    let ghost v = c@;
    let mut out: Vec<char> = Vec::new();
    assert(out@ + claims_pieces_from(v, 0) =~= claims_pieces_from(v, 0));
    let ghost b = out@;
    push_str(&mut out, "{\"sub\":");
    proof { lemma_append_piece(b, out@, v, 0); }
    let ghost b = out@;
    push_int_text(&mut out, c.sub as i64);
    proof { lemma_append_piece(b, out@, v, 1); }
    let ghost b = out@;
    push_str(&mut out, ",\"username\":");
    proof { lemma_append_piece(b, out@, v, 2); }
    let ghost b = out@;
    push_json_str(&mut out, &chars_of(c.username.as_str()));
    proof { lemma_append_piece(b, out@, v, 3); }
    let ghost b = out@;
    push_str(&mut out, ",\"role_id\":");
    proof { lemma_append_piece(b, out@, v, 4); }
    let ghost b = out@;
    push_int_text(&mut out, c.role_id as i64);
    proof { lemma_append_piece(b, out@, v, 5); }
    let ghost b = out@;
    push_str(&mut out, ",\"exp\":");
    proof { lemma_append_piece(b, out@, v, 6); }
    let ghost b = out@;
    push_int_text(&mut out, c.exp);
    proof { lemma_append_piece(b, out@, v, 7); }
    let ghost b = out@;
    push_str(&mut out, ",\"iat\":");
    proof { lemma_append_piece(b, out@, v, 8); }
    let ghost b = out@;
    push_int_text(&mut out, c.iat);
    proof { lemma_append_piece(b, out@, v, 9); }
    let ghost b = out@;
    push_str(&mut out, ",\"iss\":");
    proof { lemma_append_piece(b, out@, v, 10); }
    let ghost b = out@;
    push_json_str(&mut out, &chars_of(c.iss.as_str()));
    proof { lemma_append_piece(b, out@, v, 11); }
    let ghost b = out@;
    push_str(&mut out, ",\"token_type\":");
    proof { lemma_append_piece(b, out@, v, 12); }
    let ghost b = out@;
    match c.token_type {
        TokenType::Access => push_str(&mut out, "\"access\""),
        TokenType::Refresh => push_str(&mut out, "\"refresh\""),
    }
    proof { lemma_append_piece(b, out@, v, 13); }
    let ghost b = out@;
    push_str(&mut out, "}");
    proof {
        lemma_append_piece(b, out@, v, 14);
        lemma_pieces_unfold(v, 15);
        assert(out@ + claims_pieces_from(v, 15) =~= out@);
    }
    out
}

/// The literal `lit` at `pos`: the position after it.
fn expect(s: &Vec<char>, pos: usize, lit: &str) -> (r: Option<usize>)
    ensures
        r is Some == (pos + lit@.len() <= s@.len() && s@.subrange(pos as int, pos + lit@.len()) == lit@),
        r matches Some(e) ==> e == pos + lit@.len(),
{
    let n = s.len();
    if has_at(s, pos, lit) {
        Some(pos + lit.unicode_len())
    } else {
        None
    }
}

proof fn lemma_step(s: Seq<char>, p: int, piece: Seq<char>, rest: Seq<char>)
    requires
        0 <= p <= s.len(),
        s.subrange(p, s.len() as int) == piece + rest,
    ensures
        p + piece.len() <= s.len(),
        s.subrange(p, p + piece.len()) == piece,
        s.subrange(p + piece.len(), s.len() as int) == rest,
{
    let t = s.subrange(p, s.len() as int);
    assert(t.len() == piece.len() + rest.len());
    assert(t.subrange(0, piece.len() as int) =~= piece);
    assert(t.subrange(piece.len() as int, t.len() as int) =~= rest);
    assert(s.subrange(p, p + piece.len()) =~= t.subrange(0, piece.len() as int));
    assert(s.subrange(p + piece.len(), s.len() as int) =~= t.subrange(piece.len() as int, t.len() as int));
}

/// No claims value has `s` as its text.
pub open spec fn no_claims_text(s: Seq<char>) -> bool {
    forall|v: ClaimsView| #[trigger] claims_text(v) != s
}

/// For every claims value whose text is `s`, what stands from `p` on is its
/// text from piece `k` on.
pub open spec fn at_piece(s: Seq<char>, p: int, k: nat) -> bool {
    forall|v: ClaimsView| #[trigger] claims_text(v) == s ==> s.subrange(p, s.len() as int) == claims_pieces_from(v, k)
}

pub open spec fn int_field(v: ClaimsView, k: int) -> int {
    if k == 1 { v.sub as int } else if k == 5 { v.role_id as int } else if k == 7 { v.exp as int } else { v.iat as int }
}

pub open spec fn str_field(v: ClaimsView, k: int) -> Seq<char> {
    if k == 3 { v.username } else { v.iss }
}

fn lit_piece(s: &Vec<char>, p: usize, k: Ghost<nat>, lit: &str) -> (r: Option<usize>)
    requires
        k@ < 15,
        p <= s@.len(),
        at_piece(s@, p as int, k@),
        forall|v: ClaimsView| claims_piece(v, k@ as int) == lit@,
    ensures
        r matches Some(e) ==> e == p + lit@.len() && e <= s@.len() && s@.subrange(p as int, e as int) == lit@
            && at_piece(s@, e as int, k@ + 1),
        r is None ==> no_claims_text(s@),
{
    let r = expect(s, p, lit);
    proof {
        assert forall|v: ClaimsView| #[trigger] claims_text(v) == s@ implies
            p + lit@.len() <= s@.len() && s@.subrange(p as int, p + lit@.len()) == lit@
            && s@.subrange(p + lit@.len(), s@.len() as int) == claims_pieces_from(v, k@ + 1) by {
            lemma_pieces_unfold(v, k@);
            lemma_step(s@, p as int, claims_piece(v, k@ as int), claims_pieces_from(v, k@ + 1));
        }
    }
    r
}

fn int_piece(s: &Vec<char>, p: usize, k: Ghost<nat>, lo: i64, hi: i64) -> (r: Option<(i64, usize)>)
    requires
        k@ == 1 || k@ == 5 || k@ == 7 || k@ == 9,
        lo < 0 < hi,
        forall|v: ClaimsView| lo <= #[trigger] int_field(v, k@ as int) <= hi,
        p <= s@.len(),
        at_piece(s@, p as int, k@),
    ensures
        r matches Some((x, e)) ==> p < e <= s@.len() && s@.subrange(p as int, e as int) == int_text(x as int)
            && lo <= x <= hi && at_piece(s@, e as int, k@ + 1)
            && forall|v: ClaimsView| #[trigger] claims_text(v) == s@ ==> x == int_field(v, k@ as int),
        r is None ==> no_claims_text(s@),
{
    proof {
        reveal_strlit(",\"username\":");
        reveal_strlit(",\"exp\":");
        reveal_strlit(",\"iat\":");
        reveal_strlit(",\"iss\":");
        assert forall|v: ClaimsView| #[trigger] claims_text(v) == s@ implies ({
            let t = int_text(int_field(v, k@ as int));
            &&& p + t.len() <= s@.len()
            &&& s@.subrange(p as int, p + t.len()) == t
            &&& s@.subrange(p + t.len(), s@.len() as int) == claims_pieces_from(v, k@ + 1)
            &&& (p + t.len() == s@.len() || !is_digit(s@[p + t.len()]))
        }) by {
            let t = int_text(int_field(v, k@ as int));
            lemma_pieces_unfold(v, k@);
            lemma_pieces_unfold(v, k@ + 1);
            lemma_step(s@, p as int, claims_piece(v, k@ as int), claims_pieces_from(v, k@ + 1));
            let nx = claims_piece(v, k@ + 1int);
            lemma_step(s@, p + t.len(), nx, claims_pieces_from(v, k@ + 2));
            assert(s@.subrange(p + t.len(), p + t.len() + nx.len())[0] == nx[0]);
        }
    }
    read_int(s, p, lo, hi)
}

fn str_piece(s: &Vec<char>, p: usize, k: Ghost<nat>) -> (r: Option<(Vec<char>, usize)>)
    requires
        k@ == 3 || k@ == 11,
        p <= s@.len(),
        at_piece(s@, p as int, k@),
    ensures
        r matches Some((x, e)) ==> p < e <= s@.len() && s@.subrange(p as int, e as int) == json_str(x@)
            && at_piece(s@, e as int, k@ + 1)
            && forall|v: ClaimsView| #[trigger] claims_text(v) == s@ ==> x@ == str_field(v, k@ as int),
        r is None ==> no_claims_text(s@),
{
    proof {
        assert forall|v: ClaimsView| #[trigger] claims_text(v) == s@ implies ({
            let t = json_str(str_field(v, k@ as int));
            &&& p + t.len() <= s@.len()
            &&& s@.subrange(p as int, p + t.len()) == t
            &&& s@.subrange(p + t.len(), s@.len() as int) == claims_pieces_from(v, k@ + 1)
        }) by {
            lemma_pieces_unfold(v, k@);
            lemma_step(s@, p as int, claims_piece(v, k@ as int), claims_pieces_from(v, k@ + 1));
        }
    }
    read_json_str(s, p)
}

fn type_piece(s: &Vec<char>, p: usize) -> (r: Option<(TokenType, usize)>)
    requires
        p <= s@.len(),
        at_piece(s@, p as int, 13),
    ensures
        r matches Some((x, e)) ==> p < e <= s@.len() && s@.subrange(p as int, e as int) == type_text(x)
            && at_piece(s@, e as int, 14)
            && forall|v: ClaimsView| #[trigger] claims_text(v) == s@ ==> x == v.token_type,
        r is None ==> no_claims_text(s@),
{
    proof {
        reveal_strlit("\"access\"");
        reveal_strlit("\"refresh\"");
        assert forall|v: ClaimsView| #[trigger] claims_text(v) == s@ implies ({
            let t = type_text(v.token_type);
            &&& p + t.len() <= s@.len()
            &&& s@.subrange(p as int, p + t.len()) == t
            &&& s@.subrange(p + t.len(), s@.len() as int) == claims_pieces_from(v, 14)
        }) by {
            lemma_pieces_unfold(v, 13);
            lemma_step(s@, p as int, claims_piece(v, 13), claims_pieces_from(v, 14));
        }
    }
    match expect(s, p, "\"access\"") {
        Some(e) => {
            proof {
                assert forall|v: ClaimsView| #[trigger] claims_text(v) == s@ implies v.token_type == TokenType::Access by {
                    if v.token_type == TokenType::Refresh {
                        assert(s@.subrange(p as int, p + 9)[1] == s@.subrange(p as int, p + 8)[1]);
                    }
                }
            }
            Some((TokenType::Access, e))
        },
        None => match expect(s, p, "\"refresh\"") {
            Some(e) => Some((TokenType::Refresh, e)),
            None => None,
        },
    }
}

proof fn lemma_join(s: Seq<char>, a: int, b: int)
    requires
        0 <= a <= b <= s.len(),
    ensures
        s.subrange(a, s.len() as int) == s.subrange(a, b) + s.subrange(b, s.len() as int),
{
    assert(s.subrange(a, s.len() as int) =~= s.subrange(a, b) + s.subrange(b, s.len() as int));
}

/// Pieces read one after another make up the text from the first position on.
proof fn lemma_pieces_read(s: Seq<char>, v: ClaimsView, ps: Seq<int>, k: nat)
    requires
        ps.len() == 16,
        k <= 15,
        ps[15] == s.len(),
        forall|j: int| k <= j < 15 ==> 0 <= #[trigger] ps[j] <= ps[j + 1] <= s.len(),
        forall|j: int| k <= j < 15 ==> s.subrange(ps[j], ps[j + 1]) == #[trigger] claims_piece(v, j),
    ensures
        s.subrange(ps[k as int], s.len() as int) == claims_pieces_from(v, k),
    decreases 15 - k,
{
    lemma_pieces_unfold(v, k);
    if k == 15 {
        assert(s.subrange(ps[15], s.len() as int) =~= Seq::<char>::empty());
    } else {
        lemma_pieces_read(s, v, ps, k + 1);
        lemma_join(s, ps[k as int], ps[k + 1int]);
        assert(s.subrange(ps[k as int], ps[k + 1int]) == claims_piece(v, k as int));
    }
}

/// Reads a claims object. It accepts exactly the texts that `write_claims`
/// writes.
pub fn read_claims(s: &Vec<char>) -> (r: Option<Claims>)
    ensures
        r matches Some(c) ==> claims_text(c@) == s@,
        r is None ==> no_claims_text(s@),
        forall|v: ClaimsView| #[trigger] claims_text(v) == s@ ==> (r matches Some(c) && c@ == v),
{
    proof {
        reveal_strlit("{\"sub\":");
        reveal_strlit(",\"username\":");
        reveal_strlit(",\"role_id\":");
        reveal_strlit(",\"exp\":");
        reveal_strlit(",\"iat\":");
        reveal_strlit(",\"iss\":");
        reveal_strlit(",\"token_type\":");
        reveal_strlit("}");
        assert forall|v: ClaimsView| #[trigger] claims_text(v) == s@ implies
            s@.subrange(0, s@.len() as int) == claims_pieces_from(v, 0) by {
            assert(s@.subrange(0, s@.len() as int) =~= s@);
        }
    }
    let p1 = match lit_piece(s, 0, Ghost(0), "{\"sub\":") { Some(e) => e, None => return None };
    let (sub, p2) = match int_piece(s, p1, Ghost(1), i32::MIN as i64, i32::MAX as i64) { Some(x) => x, None => return None };
    let p3 = match lit_piece(s, p2, Ghost(2), ",\"username\":") { Some(e) => e, None => return None };
    let (username, p4) = match str_piece(s, p3, Ghost(3)) { Some(x) => x, None => return None };
    let p5 = match lit_piece(s, p4, Ghost(4), ",\"role_id\":") { Some(e) => e, None => return None };
    let (role_id, p6) = match int_piece(s, p5, Ghost(5), i32::MIN as i64, i32::MAX as i64) { Some(x) => x, None => return None };
    let p7 = match lit_piece(s, p6, Ghost(6), ",\"exp\":") { Some(e) => e, None => return None };
    let (exp, p8) = match int_piece(s, p7, Ghost(7), i64::MIN, i64::MAX) { Some(x) => x, None => return None };
    let p9 = match lit_piece(s, p8, Ghost(8), ",\"iat\":") { Some(e) => e, None => return None };
    let (iat, p10) = match int_piece(s, p9, Ghost(9), i64::MIN, i64::MAX) { Some(x) => x, None => return None };
    let p11 = match lit_piece(s, p10, Ghost(10), ",\"iss\":") { Some(e) => e, None => return None };
    let (iss, p12) = match str_piece(s, p11, Ghost(11)) { Some(x) => x, None => return None };
    let p13 = match lit_piece(s, p12, Ghost(12), ",\"token_type\":") { Some(e) => e, None => return None };
    let (token_type, p14) = match type_piece(s, p13) { Some(x) => x, None => return None };
    let p15 = match lit_piece(s, p14, Ghost(14), "}") { Some(e) => e, None => return None };
    if p15 != s.len() {
        proof {
            assert forall|v: ClaimsView| #[trigger] claims_text(v) != s@ by {
                if claims_text(v) == s@ {
                    lemma_pieces_unfold(v, 15);
                }
            }
        }
        return None;
    }
    let c = Claims {
        sub: sub as i32,
        username: string_of(&username),
        role_id: role_id as i32,
        exp,
        iat,
        iss: string_of(&iss),
        token_type,
    };
    proof {
        let ps = seq![0int, p1 as int, p2 as int, p3 as int, p4 as int, p5 as int, p6 as int, p7 as int,
            p8 as int, p9 as int, p10 as int, p11 as int, p12 as int, p13 as int, p14 as int, p15 as int];
        assert(ps[0] == 0);
        assert(ps[1] == p1);
        assert(ps[2] == p2);
        assert(ps[3] == p3);
        assert(ps[4] == p4);
        assert(ps[5] == p5);
        assert(ps[6] == p6);
        assert(ps[7] == p7);
        assert(ps[8] == p8);
        assert(ps[9] == p9);
        assert(ps[10] == p10);
        assert(ps[11] == p11);
        assert(ps[12] == p12);
        assert(ps[13] == p13);
        assert(ps[14] == p14);
        assert(ps[15] == p15);
        assert forall|j: int| 0 <= j < 15 implies 0 <= #[trigger] ps[j] <= ps[j + 1] <= s@.len() by {
            if j == 0 {} else if j == 1 {} else if j == 2 {} else if j == 3 {} else if j == 4 {}
            else if j == 5 {} else if j == 6 {} else if j == 7 {} else if j == 8 {} else if j == 9 {}
            else if j == 10 {} else if j == 11 {} else if j == 12 {} else if j == 13 {} else {}
        }
        assert forall|j: int| 0 <= j < 15 implies s@.subrange(ps[j], ps[j + 1]) == #[trigger] claims_piece(c@, j) by {
            if j == 0 {} else if j == 1 {} else if j == 2 {} else if j == 3 {} else if j == 4 {}
            else if j == 5 {} else if j == 6 {} else if j == 7 {} else if j == 8 {} else if j == 9 {}
            else if j == 10 {} else if j == 11 {} else if j == 12 {} else if j == 13 {} else {}
        }
        lemma_pieces_read(s@, c@, ps, 0);
        assert(s@.subrange(0, s@.len() as int) =~= s@);
    }
    Some(c)
}

} // verus!
