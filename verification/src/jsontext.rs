//! The textual building blocks of the wire format: decimal numbers and
//! escaped JSON strings, with their exact character-level definitions.
//!
//! Every packet frame is a JSON object in a fixed, canonical shape: no
//! whitespace, fields in declaration order, strings escaped minimally.  The
//! spec functions here define that canonical text; the exec functions
//! produce and consume it.

use vstd::prelude::*;

verus! {

// ---------------------------------------------------------------------------
// decimal numbers
// ---------------------------------------------------------------------------

/// Whether `c` is a decimal digit.
pub open spec fn is_digit(c: char) -> bool {
    48 <= c as int <= 57
}

/// The digit character for `d` (`0 <= d <= 9`).
pub open spec fn digit_char(d: int) -> char {
    (48 + d) as char
}

/// The numeric value of a digit character.
pub open spec fn digit_val(c: char) -> int {
    c as int - 48
}

/// Canonical decimal text of `n`: no sign, no leading zeros.
pub open spec fn dec_of(n: nat) -> Seq<char>
    decreases n,
{
    if n < 10 {
        seq![digit_char(n as int)]
    } else {
        dec_of(n / 10).push(digit_char((n % 10) as int))
    }
}

/// The value of a digit string, read left to right.
pub open spec fn dec_val(s: Seq<char>) -> int
    decreases s.len(),
{
    if s.len() == 0 {
        0
    } else {
        dec_val(s.drop_last()) * 10 + digit_val(s.last())
    }
}

/// Canonical JSON text of a signed integer.
pub open spec fn int_json(n: int) -> Seq<char> {
    if n < 0 {
        seq!['-'] + dec_of((-n) as nat)
    } else {
        dec_of(n as nat)
    }
}

/// Canonical JSON text of a boolean.
pub open spec fn bool_json(b: bool) -> Seq<char> {
    if b {
        "true"@
    } else {
        "false"@
    }
}

/// The decimal text of `n` consists of digits, starts with a non-zero digit
/// unless `n` is zero, and reads back as `n`.
pub proof fn lemma_dec_of(n: nat)
    ensures
        dec_of(n).len() >= 1,
        forall|k: int| 0 <= k < dec_of(n).len() ==> is_digit(#[trigger] dec_of(n)[k]),
        dec_val(dec_of(n)) == n,
        n > 0 ==> dec_of(n)[0] != '0',
        n < 10 ==> dec_of(n).len() == 1,
    decreases n,
{
    if n < 10 {
        assert(digit_char(n as int) as int == 48 + n);
        assert(dec_val(dec_of(n)) == dec_val(seq![digit_char(n as int)].drop_last()) * 10
            + digit_val(digit_char(n as int)));
        assert(seq![digit_char(n as int)].drop_last() =~= Seq::<char>::empty());
    } else {
        lemma_dec_of(n / 10);
        let s = dec_of(n / 10).push(digit_char((n % 10) as int));
        assert(s.drop_last() =~= dec_of(n / 10));
        assert(digit_char((n % 10) as int) as int == 48 + (n % 10) as int);
        assert(dec_val(s) == (n / 10) * 10 + (n % 10));
        assert((n / 10) * 10 + (n % 10) == n) by (nonlinear_arith);
        assert(s[0] == dec_of(n / 10)[0]);
    }
}

/// A digit string never reads as a negative value.
pub proof fn lemma_dec_val_nonneg(s: Seq<char>)
    requires
        forall|k: int| 0 <= k < s.len() ==> is_digit(#[trigger] s[k]),
    ensures
        dec_val(s) >= 0,
    decreases s.len(),
{
    if s.len() > 0 {
        assert(forall|k: int| 0 <= k < s.drop_last().len() ==> is_digit(#[trigger] s.drop_last()[k]));
        lemma_dec_val_nonneg(s.drop_last());
        assert(dec_val(s.drop_last()) * 10 >= 0) by (nonlinear_arith)
            requires dec_val(s.drop_last()) >= 0;
    }
}

/// The value of a prefix of a digit string never exceeds the whole.
pub proof fn lemma_dec_val_prefix_le(s: Seq<char>, k: int)
    requires
        forall|m: int| 0 <= m < s.len() ==> is_digit(#[trigger] s[m]),
        0 <= k <= s.len(),
    ensures
        dec_val(s.subrange(0, k)) <= dec_val(s),
    decreases s.len() - k,
{
    if k == s.len() {
        assert(s.subrange(0, k) =~= s);
    } else {
        lemma_dec_val_prefix_le(s, k + 1);
        let p = s.subrange(0, k);
        let q = s.subrange(0, k + 1);
        assert(q.drop_last() =~= p);
        assert(forall|m: int| 0 <= m < p.len() ==> is_digit(#[trigger] p[m]));
        lemma_dec_val_nonneg(p);
        assert(dec_val(q) == dec_val(p) * 10 + digit_val(q.last()));
        assert(dec_val(p) * 10 >= dec_val(p)) by (nonlinear_arith)
            requires dec_val(p) >= 0;
        assert(digit_val(q.last()) >= 0);
    }
}

// ---------------------------------------------------------------------------
// escaped strings
// ---------------------------------------------------------------------------

/// The lowercase hex digit for `d` (`0 <= d <= 15`).
pub open spec fn hex_char(d: int) -> char {
    if d < 10 {
        digit_char(d)
    } else {
        (87 + d) as char
    }
}

/// The escape text of one character inside a JSON string: quotes and
/// backslashes get a two-character escape, the five named control characters
/// their short form, other control characters a `\u00xx` escape, and
/// everything else stands as itself.
pub open spec fn esc_char(c: char) -> Seq<char> {
    if c == '"' {
        seq!['\\', '"']
    } else if c == '\\' {
        seq!['\\', '\\']
    } else if c == '\u{8}' {
        seq!['\\', 'b']
    } else if c == '\t' {
        seq!['\\', 't']
    } else if c == '\n' {
        seq!['\\', 'n']
    } else if c == '\u{c}' {
        seq!['\\', 'f']
    } else if c == '\r' {
        seq!['\\', 'r']
    } else if (c as u32) < 32 {
        seq!['\\', 'u', '0', '0', hex_char((c as u32) as int / 16), hex_char((c as u32) as int % 16)]
    } else {
        seq![c]
    }
}

/// The escape text of a whole string body.
pub open spec fn esc_seq(v: Seq<char>) -> Seq<char>
    decreases v.len(),
{
    if v.len() == 0 {
        Seq::<char>::empty()
    } else {
        esc_char(v[0]) + esc_seq(v.subrange(1, v.len() as int))
    }
}

/// A complete JSON string: the escaped body between two quotes.
pub open spec fn quoted(v: Seq<char>) -> Seq<char> {
    seq!['"'] + esc_seq(v) + seq!['"']
}

/// Escaping distributes over concatenation.
pub proof fn lemma_esc_seq_concat(a: Seq<char>, b: Seq<char>)
    ensures
        esc_seq(a + b) == esc_seq(a) + esc_seq(b),
    decreases a.len(),
{
    if a.len() == 0 {
        assert(a + b =~= b);
        assert(esc_seq(a) + esc_seq(b) =~= esc_seq(b));
    } else {
        let t = a.subrange(1, a.len() as int);
        lemma_esc_seq_concat(t, b);
        assert((a + b).subrange(1, (a + b).len() as int) =~= t + b);
        assert((a + b)[0] == a[0]);
        assert(esc_char(a[0]) + (esc_seq(t) + esc_seq(b)) =~= (esc_char(a[0]) + esc_seq(t))
            + esc_seq(b));
    }
}

/// Escaping a string extended by one character appends that character's
/// escape text.
pub proof fn lemma_esc_seq_push(v: Seq<char>, c: char)
    ensures
        esc_seq(v.push(c)) == esc_seq(v) + esc_char(c),
{
    lemma_esc_seq_concat(v, seq![c]);
    assert(v.push(c) =~= v + seq![c]);
    assert(esc_seq(seq![c]) =~= esc_char(c)) by {
        assert(seq![c].subrange(1, 1) =~= Seq::<char>::empty());
        assert(esc_seq(seq![c]) == esc_char(seq![c][0]) + esc_seq(seq![c].subrange(1, 1)));
        assert(seq![c][0] == c);
        assert(esc_seq(Seq::<char>::empty()) == Seq::<char>::empty());
        assert(esc_char(c) + Seq::<char>::empty() =~= esc_char(c));
    }
}

/// The escape text of a character never starts with a quote, and starts with
/// a backslash exactly when the character does not stand as itself.
pub proof fn lemma_esc_char_shape(c: char)
    ensures
        esc_char(c).len() == 1 || esc_char(c).len() == 2 || esc_char(c).len() == 6,
        esc_char(c)[0] != '"',
        esc_char(c).len() == 1 ==> esc_char(c)[0] == c && c != '"' && c != '\\',
        esc_char(c).len() != 1 ==> esc_char(c)[0] == '\\',
{
}

// ---------------------------------------------------------------------------
// emitting
// ---------------------------------------------------------------------------

/// Appends the decimal text of `n`.
pub fn push_u64(out: &mut Vec<char>, n: u64)
    ensures
        final(out)@ == old(out)@ + dec_of(n as nat),
    decreases n,
{
    if n < 10 {
        let d: u8 = 48 + (n as u8);
        out.push(d as char);
        proof {
            assert(d as char == digit_char(n as int));
            assert(old(out)@ + dec_of(n as nat) =~= out@);
        }
    } else {
        push_u64(out, n / 10);
        let d: u8 = 48 + ((n % 10) as u8);
        out.push(d as char);
        proof {
            assert(d as char == digit_char((n as nat % 10) as int));
            assert(old(out)@ + dec_of(n as nat) =~= out@);
        }
    }
}

/// Appends the JSON text of a signed integer.
pub fn push_i64_json(out: &mut Vec<char>, n: i64)
    ensures
        final(out)@ == old(out)@ + int_json(n as int),
{
    if n < 0 {
        out.push('-');
        let m: u64 = (-(n as i128)) as u64;
        push_u64(out, m);
        proof {
            assert(m as nat == (-(n as int)) as nat);
            assert(old(out)@ + int_json(n as int) =~= out@);
        }
    } else {
        push_u64(out, n as u64);
        proof {
            assert(n as u64 as nat == (n as int) as nat);
        }
    }
}

/// Appends the JSON text of a boolean.
pub fn push_bool_json(out: &mut Vec<char>, b: bool)
    ensures
        final(out)@ == old(out)@ + bool_json(b),
{
    if b {
        crate::chars::push_str_chars(out, "true");
    } else {
        crate::chars::push_str_chars(out, "false");
    }
}

/// Appends the escape text of one character.
fn push_esc_char(out: &mut Vec<char>, c: char)
    ensures
        final(out)@ == old(out)@ + esc_char(c),
{
    if c == '"' {
        out.push('\\');
        out.push('"');
    } else if c == '\\' {
        out.push('\\');
        out.push('\\');
    } else if c == '\u{8}' {
        out.push('\\');
        out.push('b');
    } else if c == '\t' {
        out.push('\\');
        out.push('t');
    } else if c == '\n' {
        out.push('\\');
        out.push('n');
    } else if c == '\u{c}' {
        out.push('\\');
        out.push('f');
    } else if c == '\r' {
        out.push('\\');
        out.push('r');
    } else {
        match control_value(c) {
            Some(x) => {
                out.push('\\');
                out.push('u');
                out.push('0');
                out.push('0');
                let hi: u8 = x / 16;
                let lo: u8 = x % 16;
                let hc: u8 = if hi < 10 { 48 + hi } else { 87 + hi };
                let lc: u8 = if lo < 10 { 48 + lo } else { 87 + lo };
                out.push(hc as char);
                out.push(lc as char);
                proof {
                    assert(hc as char == hex_char((c as u32) as int / 16));
                    assert(lc as char == hex_char((c as u32) as int % 16));
                }
            },
            None => {
                out.push(c);
            },
        }
    }
    proof {
        assert(out@ =~= old(out)@ + esc_char(c));
    }
}

/// Appends the complete JSON string for `s`: quotes around the escaped body.
pub fn push_quoted(out: &mut Vec<char>, s: &str)
    ensures
        final(out)@ == old(out)@ + quoted(s@),
{
    out.push('"');
    let n = s.unicode_len();
    let mut i: usize = 0;
    while i < n
        invariant
            n == s@.len(),
            i <= n,
            out@ == old(out)@ + seq!['"'] + esc_seq(s@.subrange(0, i as int)),
        decreases n - i,
    {
        let c = s.get_char(i);
        push_esc_char(out, c);
        proof {
            assert(s@.subrange(0, i + 1 as int) =~= s@.subrange(0, i as int).push(c));
            lemma_esc_seq_push(s@.subrange(0, i as int), c);
            assert(out@ =~= old(out)@ + seq!['"'] + esc_seq(s@.subrange(0, i + 1 as int)));
        }
        i = i + 1;
    }
    out.push('"');
    proof {
        assert(s@.subrange(0, n as int) =~= s@);
        assert(out@ =~= old(out)@ + quoted(s@));
    }
}

// ---------------------------------------------------------------------------
// reading
// ---------------------------------------------------------------------------

/// Whether the characters of `l` stand at position `i` of `s`.
pub open spec fn lit_at(s: Seq<char>, i: int, l: Seq<char>) -> bool {
    &&& i + l.len() <= s.len()
    &&& s.subrange(i, i + l.len()) == l
}

/// Matches the exact characters of `lit` at position `i`.
pub fn p_lit(s: &Vec<char>, i: usize, lit: &str) -> (r: Option<usize>)
    requires
        i <= s@.len(),
    ensures
        match r {
            Some(j) => j == i + lit@.len() && j <= s@.len() && s@.subrange(
                i as int,
                j as int,
            ) == lit@,
            None => !(i + lit@.len() <= s@.len() && s@.subrange(
                i as int,
                i + lit@.len(),
            ) == lit@),
        },
{
    let n = lit.unicode_len();
    let sl = s.len();
    if sl - i < n {
        return None;
    }
    let mut k: usize = 0;
    while k < n
        invariant
            n == lit@.len(),
            sl == s@.len(),
            i + n <= sl,
            k <= n,
            forall|m: int| 0 <= m < k ==> s@[i + m] == lit@[m],
        decreases n - k,
    {
        if s[i + k] != lit.get_char(k) {
            proof {
                assert(s@.subrange(i as int, i + n as int)[k as int] == s@[i + k]);
            }
            return None;
        }
        k = k + 1;
    }
    proof {
        assert(s@.subrange(i as int, i + n as int) =~= lit@);
    }
    Some(i + n)
}

/// The numeric value of a digit character, if `c` is one.
fn digit_value(c: char) -> (r: Option<u8>)
    ensures
        match r {
            Some(v) => v <= 9 && c as int == 48 + v,
            None => !is_digit(c),
        },
{
    match c {
        '0' => Some(0),
        '1' => Some(1),
        '2' => Some(2),
        '3' => Some(3),
        '4' => Some(4),
        '5' => Some(5),
        '6' => Some(6),
        '7' => Some(7),
        '8' => Some(8),
        '9' => Some(9),
        _ => None,
    }
}

/// The value of a lowercase hex digit character, if `c` is one.
fn hex_val(c: char) -> (r: Option<u8>)
    ensures
        r matches Some(v) ==> v < 16 && hex_char(v as int) == c,
        forall|d: int| 0 <= d < 16 && c == hex_char(d) ==> r == Some(d as u8),
{
    match c {
        '0' => Some(0),
        '1' => Some(1),
        '2' => Some(2),
        '3' => Some(3),
        '4' => Some(4),
        '5' => Some(5),
        '6' => Some(6),
        '7' => Some(7),
        '8' => Some(8),
        '9' => Some(9),
        'a' => Some(10),
        'b' => Some(11),
        'c' => Some(12),
        'd' => Some(13),
        'e' => Some(14),
        'f' => Some(15),
        _ => None,
    }
}

/// The code point of a control character, if `c` is one.
fn control_value(c: char) -> (r: Option<u8>)
    ensures
        match r {
            Some(v) => v < 32 && c as u32 == v,
            None => c as u32 >= 32,
        },
{
    match c {
        '\u{0}' => Some(0),
        '\u{1}' => Some(1),
        '\u{2}' => Some(2),
        '\u{3}' => Some(3),
        '\u{4}' => Some(4),
        '\u{5}' => Some(5),
        '\u{6}' => Some(6),
        '\u{7}' => Some(7),
        '\u{8}' => Some(8),
        '\u{9}' => Some(9),
        '\u{a}' => Some(10),
        '\u{b}' => Some(11),
        '\u{c}' => Some(12),
        '\u{d}' => Some(13),
        '\u{e}' => Some(14),
        '\u{f}' => Some(15),
        '\u{10}' => Some(16),
        '\u{11}' => Some(17),
        '\u{12}' => Some(18),
        '\u{13}' => Some(19),
        '\u{14}' => Some(20),
        '\u{15}' => Some(21),
        '\u{16}' => Some(22),
        '\u{17}' => Some(23),
        '\u{18}' => Some(24),
        '\u{19}' => Some(25),
        '\u{1a}' => Some(26),
        '\u{1b}' => Some(27),
        '\u{1c}' => Some(28),
        '\u{1d}' => Some(29),
        '\u{1e}' => Some(30),
        '\u{1f}' => Some(31),
        _ => None,
    }
}

/// Whether the canonical decimal text of `n` stands at position `i` of `s`,
/// with no digit directly after it.
pub open spec fn dec_at(s: Seq<char>, i: int, n: nat) -> bool {
    &&& i + dec_of(n).len() <= s.len()
    &&& s.subrange(i, i + dec_of(n).len()) == dec_of(n)
    &&& (i + dec_of(n).len() == s.len() || !is_digit(s[i + dec_of(n).len()]))
}

/// Reads a canonical unsigned decimal number at position `i`.
///
/// Whenever the text at `i` is the canonical decimal of some `n` followed by
/// a non-digit, the read yields exactly `n` and stops exactly after it.
pub fn p_u64(s: &Vec<char>, i: usize) -> (r: Option<(u64, usize)>)
    requires
        i <= s@.len(),
    ensures
        r matches Some(p) ==> i < p.1 <= s@.len(),
        forall|n: u64| #[trigger] dec_at(s@, i as int, n as nat) ==> (r matches Some(p) && p.0 == n
            && p.1 == i + dec_of(n as nat).len()),
{
    if i == s.len() {
        proof {
            assert forall|n: u64| dec_at(s@, i as int, n as nat) implies false by {
                lemma_dec_of(n as nat);
            }
        }
        return None;
    }
    let c0 = s[i];
    let d0 = match digit_value(c0) {
        Some(d) => d,
        None => {
            proof {
                assert forall|n: u64| dec_at(s@, i as int, n as nat) implies false by {
                    lemma_dec_of(n as nat);
                    assert(s@.subrange(i as int, i + dec_of(n as nat).len())[0] == s@[i as int]);
                    assert(is_digit(dec_of(n as nat)[0]));
                }
            }
            return None;
        },
    };
    if c0 == '0' {
        proof {
            assert forall|n: u64| dec_at(s@, i as int, n as nat) implies n == 0 && dec_of(
                n as nat,
            ).len() == 1 by {
                lemma_dec_of(n as nat);
                assert(s@.subrange(i as int, i + dec_of(n as nat).len())[0] == s@[i as int]);
                assert(dec_of(n as nat)[0] == '0');
            }
        }
        return Some((0, i + 1));
    }
    let mut v: u64 = d0 as u64;
    let mut j: usize = i + 1;
    proof {
        assert(s@.subrange(i as int, j as int) =~= seq![c0]);
        assert(seq![c0].drop_last() =~= Seq::<char>::empty());
        assert(dec_val(seq![c0]) == dec_val(seq![c0].drop_last()) * 10 + digit_val(c0));
        assert(dec_val(seq![c0].drop_last()) == 0);
        assert(v == dec_val(s@.subrange(i as int, j as int)));
    }
    loop
        invariant
            i < j <= s@.len(),
            forall|m: int| i <= m < j ==> is_digit(#[trigger] s@[m]),
            s@[i as int] != '0',
            v == dec_val(s@.subrange(i as int, j as int)),
        ensures
            i < j <= s@.len(),
            forall|m: int| i <= m < j ==> is_digit(#[trigger] s@[m]),
            v == dec_val(s@.subrange(i as int, j as int)),
            j == s@.len() || !is_digit(s@[j as int]),
        decreases s@.len() - j,
    {
        // Under `dec_at(n)`, the scanned digits never pass the end of the
        // canonical text of `n`.
        proof {
            assert forall|n: u64| dec_at(s@, i as int, n as nat) implies j <= i + dec_of(
                n as nat,
            ).len() by {
                lemma_dec_of(n as nat);
                if j > i + dec_of(n as nat).len() {
                    assert(i + dec_of(n as nat).len() < s@.len());
                    assert(is_digit(s@[i + dec_of(n as nat).len()]));
                }
            }
        }
        if j == s.len() {
            break;
        }
        let c = s[j];
        let dvo = digit_value(c);
        if dvo.is_none() {
            break;
        }
        let du = dvo.unwrap();
        let d: u64 = du as u64;
        // Under `dec_at(n)`, the value scanned so far plus this digit is
        // still at most `n`, so it fits in the accumulator.
        proof {
            assert forall|n: u64| dec_at(s@, i as int, n as nat) implies v * 10 + d
                <= n by {
                lemma_dec_of(n as nat);
                let dn = dec_of(n as nat);
                let k = j + 1 - i;
                assert(j < i + dn.len());
                assert(k <= dn.len());
                assert(dn.subrange(0, k as int) =~= s@.subrange(i as int, j + 1 as int)) by {
                    assert forall|m: int| 0 <= m < k implies dn[m] == s@[i + m] by {
                        assert(s@.subrange(i as int, i + dn.len())[m] == s@[i + m]);
                    }
                }
                lemma_dec_val_prefix_le(dn, k as int);
                assert(s@.subrange(i as int, j + 1 as int).drop_last() =~= s@.subrange(
                    i as int,
                    j as int,
                ));
                assert(s@.subrange(i as int, j + 1 as int).last() == c);
                assert(dec_val(s@.subrange(i as int, j + 1 as int)) == v * 10 + d);
            }
        }
        if v > (u64::MAX - d) / 10 {
            proof {
                assert forall|n: u64| dec_at(s@, i as int, n as nat) implies false by {
                    assert(v * 10 + d <= u64::MAX);
                    assert(v <= (u64::MAX - d) / 10) by (nonlinear_arith)
                        requires
                            v * 10 + d <= u64::MAX,
                            0 <= d,
                    ;
                }
            }
            return None;
        }
        proof {
            assert(v * 10 + d <= u64::MAX) by (nonlinear_arith)
                requires
                    v <= (u64::MAX - d) / 10,
                    0 <= d <= 9,
            ;
            assert(s@.subrange(i as int, j + 1 as int).drop_last() =~= s@.subrange(
                i as int,
                j as int,
            ));
            assert(s@.subrange(i as int, j + 1 as int).last() == c);
        }
        v = v * 10 + d;
        j = j + 1;
    }
    // The scan stopped at the end of the text or at a non-digit, which under
    // `dec_at(n)` is exactly the end of the canonical text of `n`.
    proof {
        assert forall|n: u64| dec_at(s@, i as int, n as nat) implies v == n && j == i + dec_of(
            n as nat,
        ).len() by {
            lemma_dec_of(n as nat);
            let dn = dec_of(n as nat);
            if j > i + dn.len() {
                assert(i + dn.len() < s@.len());
                assert(is_digit(s@[i + dn.len()]));
            }
            if j < i + dn.len() {
                assert(s@[j as int] == s@.subrange(i as int, i + dn.len())[j - i]);
                assert(is_digit(dn[j - i]));
            }
            assert(j == i + dn.len());
            assert(s@.subrange(i as int, j as int) =~= dn);
        }
    }
    Some((v, j))
}

/// The control character with code `x`, if `x` is a control code.
fn control_char(x: u8) -> (r: Option<char>)
    ensures
        x < 32 ==> (r matches Some(c) && c as u32 == x),
        x >= 32 ==> r is None,
{
    match x {
        0 => Some('\u{0}'),
        1 => Some('\u{1}'),
        2 => Some('\u{2}'),
        3 => Some('\u{3}'),
        4 => Some('\u{4}'),
        5 => Some('\u{5}'),
        6 => Some('\u{6}'),
        7 => Some('\u{7}'),
        8 => Some('\u{8}'),
        9 => Some('\u{9}'),
        10 => Some('\u{a}'),
        11 => Some('\u{b}'),
        12 => Some('\u{c}'),
        13 => Some('\u{d}'),
        14 => Some('\u{e}'),
        15 => Some('\u{f}'),
        16 => Some('\u{10}'),
        17 => Some('\u{11}'),
        18 => Some('\u{12}'),
        19 => Some('\u{13}'),
        20 => Some('\u{14}'),
        21 => Some('\u{15}'),
        22 => Some('\u{16}'),
        23 => Some('\u{17}'),
        24 => Some('\u{18}'),
        25 => Some('\u{19}'),
        26 => Some('\u{1a}'),
        27 => Some('\u{1b}'),
        28 => Some('\u{1c}'),
        29 => Some('\u{1d}'),
        30 => Some('\u{1e}'),
        31 => Some('\u{1f}'),
        _ => None,
    }
}

/// Whether the complete JSON string for `w` stands at position `i` of `s`.
pub open spec fn quoted_at(s: Seq<char>, i: int, w: Seq<char>) -> bool {
    &&& i + quoted(w).len() <= s.len()
    &&& s.subrange(i, i + quoted(w).len()) == quoted(w)
}

/// Where the text of `quoted(w)` stands at `i` and the first `m` characters
/// of `w` have been decoded, the text continues with the escape text of
/// `w[m]`, or with the closing quote once `m` reaches the end of `w`.
proof fn lemma_quoted_probe(s: Seq<char>, i: int, w: Seq<char>, m: int)
    requires
        0 <= i,
        quoted_at(s, i, w),
        0 <= m <= w.len(),
    ensures
        quoted(w).len() == 2 + esc_seq(w).len(),
        esc_seq(w.subrange(0, m)).len() <= esc_seq(w).len(),
        i + 1 + esc_seq(w).len() < s.len(),
        m == w.len() ==> esc_seq(w.subrange(0, m)) == esc_seq(w),
        m == w.len() ==> s[i + 1 + esc_seq(w).len()] == '"',
        m < w.len() ==> esc_seq(w) == esc_seq(w.subrange(0, m)) + esc_char(w[m]) + esc_seq(
            w.subrange(m + 1, w.len() as int),
        ),
        m < w.len() ==> forall|k: int|
            0 <= k < esc_char(w[m]).len() ==> s[i + 1 + esc_seq(w.subrange(0, m)).len() + k]
                == esc_char(w[m])[k],
{
    let q = quoted(w);
    let l = esc_seq(w).len() as int;
    assert(q.len() == 2 + l);
    assert forall|k: int| 0 <= k < q.len() implies s[i + k] == q[k] by {
        assert(s.subrange(i, i + q.len())[k] == s[i + k]);
    }
    assert forall|k: int| 0 <= k < l implies q[1 + k] == esc_seq(w)[k] by {}
    assert(q[1 + l] == '"');
    if m == w.len() {
        assert(w.subrange(0, m) =~= w);
    } else {
        let wa = w.subrange(0, m);
        let c = w[m];
        let wb = w.subrange(m + 1, w.len() as int);
        lemma_esc_seq_push(wa, c);
        assert(wa.push(c) =~= w.subrange(0, m + 1));
        lemma_esc_seq_concat(w.subrange(0, m + 1), wb);
        assert(w.subrange(0, m + 1) + wb =~= w);
        assert(esc_seq(w) == esc_seq(wa) + esc_char(c) + esc_seq(wb));
        let la = esc_seq(wa).len() as int;
        assert forall|k: int| 0 <= k < esc_char(c).len() implies s[i + 1 + la + k] == esc_char(
            c,
        )[k] by {
            assert(esc_seq(w)[la + k] == esc_char(c)[k]);
            assert(q[1 + la + k] == esc_seq(w)[la + k]);
        }
        assert(esc_seq(wa).len() <= esc_seq(w).len());
    }
}
/// Where `quoted(w)` stands at `i`, the decoded prefix has length `m`, and
/// the character after the consumed text is not a quote, the text continues
/// with the escape text of `w[m]`.
proof fn lemma_quoted_step(s: Seq<char>, i: int, w: Seq<char>, m: int)
    requires
        0 <= i,
        quoted_at(s, i, w),
        0 <= m <= w.len(),
        s[i + 1 + esc_seq(w.subrange(0, m)).len()] != '"',
    ensures
        m < w.len(),
        forall|k: int|
            0 <= k < esc_char(w[m]).len() ==> s[i + 1 + esc_seq(w.subrange(0, m)).len() + k]
                == esc_char(w[m])[k],
        esc_seq(w.subrange(0, m)).len() + esc_char(w[m]).len() <= esc_seq(w).len(),
        esc_seq(w.subrange(0, m + 1)) == esc_seq(w.subrange(0, m)) + esc_char(w[m]),
        i + 1 + esc_seq(w).len() < s.len(),
{
    lemma_quoted_probe(s, i, w, m);
    if m == w.len() {
        assert(false);
    }
    lemma_esc_seq_push(w.subrange(0, m), w[m]);
    assert(w.subrange(0, m).push(w[m]) =~= w.subrange(0, m + 1));
}

/// Reads a complete JSON string at position `i` and decodes its escapes.
///
/// Whenever the text at `i` is `quoted(w)` for some `w`, the read yields
/// exactly the characters of `w` and stops exactly after the closing quote.
#[verifier::rlimit(80)]
pub fn p_quoted(s: &Vec<char>, i: usize) -> (r: Option<(Vec<char>, usize)>)
    requires
        i <= s@.len(),
    ensures
        r matches Some(p) ==> i < p.1 <= s@.len(),
        forall|w: Seq<char>| #[trigger] quoted_at(s@, i as int, w) ==> (r matches Some(p) && p.0@
            == w && p.1 == i + quoted(w).len()),
{
    let sl = s.len();
    if i == sl || s[i] != '"' {
        proof {
            assert forall|w: Seq<char>| quoted_at(s@, i as int, w) implies false by {
                assert(s@.subrange(i as int, i + quoted(w).len())[0] == s@[i as int]);
                assert(quoted(w)[0] == '"');
            }
        }
        return None;
    }
    let mut t: Vec<char> = Vec::new();
    let mut j: usize = i + 1;
    loop
        invariant
            i < j <= sl,
            sl == s@.len(),
            s@[i as int] == '"',
            forall|w: Seq<char>| #[trigger] quoted_at(s@, i as int, w) ==> t@.len() <= w.len()
                && t@ == w.subrange(0, t@.len() as int) && j == i + 1 + esc_seq(t@).len(),
        decreases s@.len() - j,
    {
        if j == sl {
            proof {
                assert forall|w: Seq<char>| quoted_at(s@, i as int, w) implies false by {
                    lemma_quoted_probe(s@, i as int, w, t@.len() as int);
                }
            }
            return None;
        }
        let c = s[j];
        if c == '"' {
            proof {
                assert forall|w: Seq<char>| quoted_at(s@, i as int, w) implies t@ == w && j + 1
                    == i + quoted(w).len() by {
                    let m = t@.len() as int;
                    lemma_quoted_probe(s@, i as int, w, m);
                    if m < w.len() {
                        lemma_esc_char_shape(w[m]);
                        assert(s@[j as int] == esc_char(w[m])[0]);
                    }
                    assert(t@ =~= w);
                }
            }
            return Some((t, j + 1));
        }
        let ghost t0 = t@;
        let ghost j0 = j as int;
        if c == '\\' {
            if j + 1 == sl {
                proof {
                    assert forall|w: Seq<char>| quoted_at(s@, i as int, w) implies false by {
                        lemma_quoted_step(s@, i as int, w, t0.len() as int);
                        lemma_esc_char_shape(w[t0.len() as int]);
                        assert(s@[j0] == esc_char(w[t0.len() as int])[0]);
                    }
                }
                return None;
            }
            let c2 = s[j + 1];
            let decoded: Option<char> = match c2 {
                '"' => Some('"'),
                '\\' => Some('\\'),
                'b' => Some('\u{8}'),
                't' => Some('\t'),
                'n' => Some('\n'),
                'f' => Some('\u{c}'),
                'r' => Some('\r'),
                _ => None,
            };
            match decoded {
                Some(dc) => {
                    t.push(dc);
                    j = j + 2;
                    proof {
                        assert forall|w: Seq<char>| quoted_at(s@, i as int, w) implies t@.len()
                            <= w.len() && t@ == w.subrange(0, t@.len() as int) && j == i + 1
                            + esc_seq(t@).len() by {
                            let m = t0.len() as int;
                            lemma_quoted_step(s@, i as int, w, m);
                            lemma_esc_char_shape(w[m]);
                            assert(s@[j0] == esc_char(w[m])[0]);
                            assert(s@[j0 + 1] == esc_char(w[m])[1]);
                            assert(w[m] == dc && esc_char(w[m]).len() == 2);
                            assert(t@ =~= t0.push(dc));
                            assert(w.subrange(0, m + 1) =~= t0.push(dc));
                        }
                    }
                },
                None => {
                    if c2 != 'u' {
                        proof {
                            assert forall|w: Seq<char>| quoted_at(s@, i as int, w) implies
                                false by {
                                let m = t0.len() as int;
                                lemma_quoted_step(s@, i as int, w, m);
                                lemma_esc_char_shape(w[m]);
                                assert(s@[j0] == esc_char(w[m])[0]);
                                assert(s@[j0 + 1] == esc_char(w[m])[1]);
                            }
                        }
                        return None;
                    }
                    // A `\u00xx` escape of a control character.
                    if sl - j < 6 {
                        proof {
                            assert forall|w: Seq<char>| quoted_at(s@, i as int, w) implies
                                false by {
                                let m = t0.len() as int;
                                lemma_quoted_step(s@, i as int, w, m);
                                lemma_esc_char_shape(w[m]);
                                assert(s@[j0] == esc_char(w[m])[0]);
                                assert(s@[j0 + 1] == esc_char(w[m])[1]);
                                assert(esc_char(w[m]).len() == 6);
                            }
                        }
                        return None;
                    }
                    let c3 = s[j + 2];
                    let c4 = s[j + 3];
                    let h1 = hex_val(s[j + 4]);
                    let h2 = hex_val(s[j + 5]);
                    if c3 != '0' || c4 != '0' || h1.is_none() || h2.is_none() {
                        proof {
                            assert forall|w: Seq<char>| quoted_at(s@, i as int, w) implies
                                false by {
                                let m = t0.len() as int;
                                lemma_quoted_step(s@, i as int, w, m);
                                lemma_esc_char_shape(w[m]);
                                assert(s@[j0] == esc_char(w[m])[0]);
                                assert(s@[j0 + 1] == esc_char(w[m])[1]);
                                assert(esc_char(w[m]).len() == 6);
                                let a = (w[m] as u32) as int;
                                assert(0 <= a && a < 32);
                                assert(s@[j0 + 2] == esc_char(w[m])[2]);
                                assert(s@[j0 + 3] == esc_char(w[m])[3]);
                                assert(s@[j0 + 4] == esc_char(w[m])[4]);
                                assert(s@[j0 + 5] == esc_char(w[m])[5]);
                                assert(0 <= a / 16 < 16 && 0 <= a % 16 < 16) by (nonlinear_arith)
                                    requires
                                        0 <= a < 32,
                                ;
                                assert(s@[j0 + 4] == hex_char(a / 16));
                                assert(s@[j0 + 5] == hex_char(a % 16));
                            }
                        }
                        return None;
                    }
                    let v1 = h1.unwrap();
                    let v2 = h2.unwrap();
                    let x: u8 = 16 * v1 + v2;
                    match control_char(x) {
                        Some(dc) => {
                            t.push(dc);
                            j = j + 6;
                            proof {
                                assert forall|w: Seq<char>| quoted_at(s@, i as int, w) implies
                                    t@.len() <= w.len() && t@ == w.subrange(0, t@.len() as int)
                                    && j == i + 1 + esc_seq(t@).len() by {
                                    let m = t0.len() as int;
                                    lemma_quoted_step(s@, i as int, w, m);
                                    lemma_esc_char_shape(w[m]);
                                    assert(s@[j0] == esc_char(w[m])[0]);
                                    assert(s@[j0 + 1] == esc_char(w[m])[1]);
                                    assert(esc_char(w[m]).len() == 6);
                                    let a = (w[m] as u32) as int;
                                    assert(0 <= a && a < 32);
                                    assert(s@[j0 + 4] == esc_char(w[m])[4]);
                                    assert(s@[j0 + 5] == esc_char(w[m])[5]);
                                    assert(0 <= a / 16 < 16 && 0 <= a % 16 < 16)
                                        by (nonlinear_arith)
                                        requires
                                            0 <= a < 32,
                                    ;
                                    assert(s@[j0 + 4] == hex_char(a / 16));
                                    assert(s@[j0 + 5] == hex_char(a % 16));
                                    assert(v1 == a / 16 && v2 == a % 16);
                                    vstd::arithmetic::div_mod::lemma_fundamental_div_mod(a, 16);
                                    assert(x == a);
                                    let xu: u32 = x as u32;
                                    assert(xu == dc as u32);
                                    assert(xu == w[m] as u32);
                                    vstd::utf8::char_u32_cast(dc, xu);
                                    vstd::utf8::char_u32_cast(w[m], xu);
                                    assert(dc == w[m]);
                                    assert(t@ =~= t0.push(dc));
                                    assert(w.subrange(0, m + 1) =~= t0.push(dc));
                                }
                            }
                        },
                        None => {
                            // A `\u00xx` escape with a value of 32 or more
                            // never appears in canonical text.
                            proof {
                                assert forall|w: Seq<char>| quoted_at(s@, i as int, w) implies
                                    false by {
                                    let m = t0.len() as int;
                                    lemma_quoted_step(s@, i as int, w, m);
                                    lemma_esc_char_shape(w[m]);
                                    assert(s@[j0] == esc_char(w[m])[0]);
                                    assert(s@[j0 + 1] == esc_char(w[m])[1]);
                                    assert(esc_char(w[m]).len() == 6);
                                    let a = (w[m] as u32) as int;
                                    assert(0 <= a && a < 32);
                                    assert(s@[j0 + 4] == esc_char(w[m])[4]);
                                    assert(s@[j0 + 5] == esc_char(w[m])[5]);
                                    assert(0 <= a / 16 < 16 && 0 <= a % 16 < 16)
                                        by (nonlinear_arith)
                                        requires
                                            0 <= a < 32,
                                    ;
                                    assert(s@[j0 + 4] == hex_char(a / 16));
                                    assert(s@[j0 + 5] == hex_char(a % 16));
                                    assert(v1 == a / 16 && v2 == a % 16);
                                    vstd::arithmetic::div_mod::lemma_fundamental_div_mod(a, 16);
                                    assert(x == a);
                                }
                            }
                            return None;
                        },
                    }
                },
            }
        } else {
            t.push(c);
            j = j + 1;
            proof {
                assert forall|w: Seq<char>| quoted_at(s@, i as int, w) implies t@.len() <= w.len()
                    && t@ == w.subrange(0, t@.len() as int) && j == i + 1 + esc_seq(t@).len() by {
                    let m = t0.len() as int;
                    lemma_quoted_step(s@, i as int, w, m);
                    lemma_esc_char_shape(w[m]);
                    assert(s@[j0] == esc_char(w[m])[0]);
                    assert(esc_char(w[m]).len() == 1);
                    assert(w[m] == c);
                    assert(t@ =~= t0.push(c));
                    assert(w.subrange(0, m + 1) =~= t0.push(c));
                }
            }
        }
    }
}


/// Two strings whose complete JSON texts stand at the same position agree on
/// their first `m` characters only if they agree on the next one too.
proof fn lemma_quoted_align(s: Seq<char>, i: int, w1: Seq<char>, w2: Seq<char>, m: int)
    requires
        0 <= i,
        quoted_at(s, i, w1),
        quoted_at(s, i, w2),
        0 <= m <= w1.len(),
        m <= w2.len(),
        w1.subrange(0, m) == w2.subrange(0, m),
    ensures
        w1 == w2,
    decreases w1.len() - m,
{
    lemma_quoted_probe(s, i, w1, m);
    lemma_quoted_probe(s, i, w2, m);
    let p = i + 1 + esc_seq(w1.subrange(0, m)).len();
    if m == w1.len() && m == w2.len() {
        assert(w1.subrange(0, m) =~= w1);
        assert(w2.subrange(0, m) =~= w2);
    } else if m == w1.len() {
        lemma_esc_char_shape(w2[m]);
        assert(s[p] == '"');
        assert(s[p] == esc_char(w2[m])[0]);
        assert(false);
    } else if m == w2.len() {
        lemma_esc_char_shape(w1[m]);
        assert(s[p] == '"');
        assert(s[p] == esc_char(w1[m])[0]);
        assert(false);
    } else {
        let c1 = w1[m];
        let c2 = w2[m];
        lemma_esc_char_shape(c1);
        lemma_esc_char_shape(c2);
        assert(s[p] == esc_char(c1)[0]);
        assert(s[p] == esc_char(c2)[0]);
        if esc_char(c1).len() == 1 && esc_char(c2).len() == 1 {
            assert(c1 == c2);
        } else if esc_char(c1).len() == 1 || esc_char(c2).len() == 1 {
            // One head is a literal character, the other a backslash.
            assert(false);
        } else {
            assert(s[p + 1] == esc_char(c1)[1]);
            assert(s[p + 1] == esc_char(c2)[1]);
            if esc_char(c1).len() == 6 && esc_char(c2).len() == 6 {
                let a1 = (c1 as u32) as int;
                let a2 = (c2 as u32) as int;
                assert(0 <= a1 < 32 && 0 <= a2 < 32);
                assert(s[p + 4] == hex_char(a1 / 16) && s[p + 4] == hex_char(a2 / 16));
                assert(s[p + 5] == hex_char(a1 % 16) && s[p + 5] == hex_char(a2 % 16));
                assert(0 <= a1 / 16 < 16 && 0 <= a2 / 16 < 16 && 0 <= a1 % 16 < 16 && 0 <= a2
                    % 16 < 16) by (nonlinear_arith)
                    requires
                        0 <= a1 < 32,
                        0 <= a2 < 32,
                ;
                lemma_hex_char_injective(a1 / 16, a2 / 16);
                lemma_hex_char_injective(a1 % 16, a2 % 16);
                vstd::arithmetic::div_mod::lemma_fundamental_div_mod(a1, 16);
                vstd::arithmetic::div_mod::lemma_fundamental_div_mod(a2, 16);
                assert(a1 == a2);
                vstd::utf8::char_u32_cast(c1, c1 as u32);
                vstd::utf8::char_u32_cast(c2, c2 as u32);
                assert(c1 as u32 == c2 as u32);
                assert(c1 == c2);
            } else if esc_char(c1).len() == 6 || esc_char(c2).len() == 6 {
                // One second character is `u`, the other a named escape.
                assert(false);
            } else {
                // Both are two-character escapes with the same name.
                assert(c1 == c2);
            }
        }
        assert(w1.subrange(0, m + 1) =~= w2.subrange(0, m + 1));
        lemma_quoted_align(s, i, w1, w2, m + 1);
    }
}

/// Distinct hex digits read as distinct characters.
proof fn lemma_hex_char_injective(d1: int, d2: int)
    requires
        0 <= d1 < 16,
        0 <= d2 < 16,
        hex_char(d1) == hex_char(d2),
    ensures
        d1 == d2,
{
    assert(d1 < 10 ==> hex_char(d1) as int == 48 + d1);
    assert(d1 >= 10 ==> hex_char(d1) as int == 87 + d1);
    assert(d2 < 10 ==> hex_char(d2) as int == 48 + d2);
    assert(d2 >= 10 ==> hex_char(d2) as int == 87 + d2);
}

/// At most one string's complete JSON text stands at a given position.
pub proof fn lemma_quoted_at_unique(s: Seq<char>, i: int, w1: Seq<char>, w2: Seq<char>)
    requires
        0 <= i,
        quoted_at(s, i, w1),
        quoted_at(s, i, w2),
    ensures
        w1 == w2,
{
    if w1.len() <= w2.len() {
        assert(w1.subrange(0, 0) =~= w2.subrange(0, 0));
        lemma_quoted_align(s, i, w1, w2, 0);
    } else {
        assert(w2.subrange(0, 0) =~= w1.subrange(0, 0));
        lemma_quoted_align(s, i, w2, w1, 0);
    }
}

/// At most one number's canonical decimal stands at a given position with no
/// digit after it.
pub proof fn lemma_dec_at_unique(s: Seq<char>, i: int, n1: nat, n2: nat)
    requires
        0 <= i,
        dec_at(s, i, n1),
        dec_at(s, i, n2),
    ensures
        n1 == n2,
{
    lemma_dec_of(n1);
    lemma_dec_of(n2);
    let l1 = dec_of(n1).len() as int;
    let l2 = dec_of(n2).len() as int;
    if l1 < l2 {
        assert(s[i + l1] == s.subrange(i, i + l2)[l1]);
        assert(is_digit(dec_of(n2)[l1]));
        assert(false);
    }
    if l2 < l1 {
        assert(s[i + l2] == s.subrange(i, i + l1)[l2]);
        assert(is_digit(dec_of(n1)[l2]));
        assert(false);
    }
    assert(dec_of(n1) == dec_of(n2));
    assert(dec_val(dec_of(n1)) == dec_val(dec_of(n2)));
}

/// At most one integer's canonical JSON text stands at a given position with
/// no digit after it.
pub proof fn lemma_int_at_unique(s: Seq<char>, i: int, n1: int, n2: int)
    requires
        0 <= i,
        int_at(s, i, n1),
        int_at(s, i, n2),
    ensures
        n1 == n2,
{
    if n1 < 0 && n2 >= 0 {
        lemma_dec_of(n2 as nat);
        assert(s[i] == s.subrange(i, i + int_json(n1).len())[0]);
        assert(int_json(n1)[0] == '-');
        assert(s[i] == s.subrange(i, i + int_json(n2).len())[0]);
        assert(is_digit(int_json(n2)[0]));
        assert(false);
    }
    if n2 < 0 && n1 >= 0 {
        lemma_dec_of(n1 as nat);
        assert(s[i] == s.subrange(i, i + int_json(n2).len())[0]);
        assert(int_json(n2)[0] == '-');
        assert(s[i] == s.subrange(i, i + int_json(n1).len())[0]);
        assert(is_digit(int_json(n1)[0]));
        assert(false);
    }
    if n1 >= 0 && n2 >= 0 {
        assert(int_json(n1) == dec_of(n1 as nat) && int_json(n2) == dec_of(n2 as nat));
        lemma_dec_at_unique(s, i, n1 as nat, n2 as nat);
    }
    if n1 < 0 && n2 < 0 {
        lemma_int_at_neg_body(s, i, n1);
        lemma_int_at_neg_body(s, i, n2);
        lemma_dec_at_unique(s, i + 1, (-n1) as nat, (-n2) as nat);
    }
}

/// The canonical text of a negative integer is a minus sign and then the
/// canonical decimal of its magnitude.
proof fn lemma_int_at_neg_body(s: Seq<char>, i: int, n: int)
    requires
        0 <= i,
        n < 0,
        int_at(s, i, n),
    ensures
        dec_at(s, i + 1, (-n) as nat),
{
    let m = (-n) as nat;
    let body = int_json(n);
    assert(body == seq!['-'] + dec_of(m));
    assert forall|k: int| 0 <= k < dec_of(m).len() implies s.subrange(
        i + 1,
        i + 1 + dec_of(m).len(),
    )[k] == dec_of(m)[k] by {
        assert(s.subrange(i, i + body.len())[k + 1] == s[i + 1 + k]);
    }
    assert(s.subrange(i + 1, i + 1 + dec_of(m).len()) =~= dec_of(m));
}

/// Whether the canonical JSON text of the signed integer `n` stands at
/// position `i` of `s`, with no digit directly after it.
pub open spec fn int_at(s: Seq<char>, i: int, n: int) -> bool {
    &&& i + int_json(n).len() <= s.len()
    &&& s.subrange(i, i + int_json(n).len()) == int_json(n)
    &&& (i + int_json(n).len() == s.len() || !is_digit(s[i + int_json(n).len()]))
}

/// Reads a canonical signed decimal number at position `i`.
pub fn p_i64(s: &Vec<char>, i: usize) -> (r: Option<(i64, usize)>)
    requires
        i <= s@.len(),
    ensures
        r matches Some(p) ==> i < p.1 <= s@.len(),
        forall|n: i64| #[trigger] int_at(s@, i as int, n as int) ==> (r matches Some(p) && p.0 == n
            && p.1 == i + int_json(n as int).len()),
{
    if i < s.len() && s[i] == '-' {
        proof {
            assert forall|n: i64| int_at(s@, i as int, n as int) && n >= 0 implies false by {
                lemma_dec_of(n as nat);
                assert(s@.subrange(i as int, i + int_json(n as int).len())[0] == s@[i as int]);
                assert(is_digit(int_json(n as int)[0]));
            }
            assert forall|n: i64| int_at(s@, i as int, n as int) && n < 0 implies dec_at(
                s@,
                i + 1,
                (-(n as int)) as nat,
            ) by {
                let m = (-(n as int)) as nat;
                let body = int_json(n as int);
                assert(body == seq!['-'] + dec_of(m));
                assert(dec_of(m) =~= body.subrange(1, body.len() as int));
                assert forall|k: int| 0 <= k < dec_of(m).len() implies s@.subrange(
                    i + 1,
                    i + 1 + dec_of(m).len(),
                )[k] == dec_of(m)[k] by {
                    assert(s@.subrange(i as int, i + body.len())[k + 1] == s@[i + 1 + k]);
                }
                assert(s@.subrange(i + 1, i + 1 + dec_of(m).len()) =~= dec_of(m));
            }
        }
        let r = p_u64(s, i + 1);
        match r {
            None => {
                proof {
                    assert forall|n: i64| int_at(s@, i as int, n as int) implies false by {
                        let m = (-(n as int)) as nat;
                        assert(dec_at(s@, i + 1, m));
                        assert(m <= u64::MAX);
                        assert(dec_at(s@, i + 1, (m as u64) as nat));
                    }
                }
                None
            },
            Some((m, j)) => {
                if m > 9223372036854775808u64 {
                    proof {
                        assert forall|n: i64| int_at(s@, i as int, n as int) implies false by {
                            let mm = (-(n as int)) as nat;
                            assert(dec_at(s@, i + 1, (mm as u64) as nat));
                        }
                    }
                    None
                } else if m == 9223372036854775808u64 {
                    proof {
                        assert forall|n: i64| int_at(s@, i as int, n as int) implies n
                            == i64::MIN && i + int_json(n as int).len() == j by {
                            let mm = (-(n as int)) as nat;
                            assert(dec_at(s@, i + 1, (mm as u64) as nat));
                        }
                    }
                    Some((i64::MIN, j))
                } else {
                    proof {
                        assert forall|n: i64| int_at(s@, i as int, n as int) implies n < 0 && -(
                        n as int) == m && i + int_json(n as int).len() == j by {
                            let mm = (-(n as int)) as nat;
                            assert(dec_at(s@, i + 1, (mm as u64) as nat));
                        }
                    }
                    Some((-(m as i64), j))
                }
            },
        }
    } else {
        proof {
            assert forall|n: i64| int_at(s@, i as int, n as int) implies n >= 0 && dec_at(
                s@,
                i as int,
                n as nat,
            ) by {
                if n < 0 {
                    let body = int_json(n as int);
                    assert(body == seq!['-'] + dec_of((-(n as int)) as nat));
                    assert(body[0] == '-');
                    assert(s@.subrange(i as int, i + body.len())[0] == s@[i as int]);
                }
                assert(int_json(n as int) == dec_of(n as nat));
            }
        }
        let r = p_u64(s, i);
        match r {
            None => {
                proof {
                    assert forall|n: i64| int_at(s@, i as int, n as int) implies false by {
                        assert(dec_at(s@, i as int, (n as u64) as nat));
                    }
                }
                None
            },
            Some((v, j)) => {
                if v > 9223372036854775807u64 {
                    proof {
                        assert forall|n: i64| int_at(s@, i as int, n as int) implies false by {
                            assert(dec_at(s@, i as int, (n as u64) as nat));
                        }
                    }
                    None
                } else {
                    proof {
                        assert forall|n: i64| int_at(s@, i as int, n as int) implies v == n && i
                            + int_json(n as int).len() == j by {
                            assert(dec_at(s@, i as int, (n as u64) as nat));
                        }
                    }
                    Some((v as i64, j))
                }
            },
        }
    }
}

} // verus!
