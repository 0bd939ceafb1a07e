//! The pieces of JSON text that the token payload is made of: unsigned and
//! signed decimal numbers, string bodies with JSON escapes, and fixed
//! fragments. Each writer has a reader, and each reader reads back exactly
//! what its writer wrote.
use vstd::prelude::*;

verus! {

pub open spec fn is_digit(c: u8) -> bool {
    48 <= c <= 57
}

/// Decimal digits of `n`, most significant first, without leading zeros.
pub open spec fn decimal(n: nat) -> Seq<u8>
    decreases n,
{
    if n < 10 {
        seq![(48 + n) as u8]
    } else {
        decimal(n / 10).push((48 + n % 10) as u8)
    }
}

/// Decimal text of an integer, with a leading `-` when it is negative.
pub open spec fn signed_decimal(i: int) -> Seq<u8> {
    if i < 0 {
        seq![45u8] + decimal((-i) as nat)
    } else {
        decimal(i as nat)
    }
}

/// The number that a run of decimal digits denotes.
pub open spec fn digits_value(s: Seq<u8>) -> nat
    decreases s.len(),
{
    if s.len() == 0 {
        0
    } else {
        digits_value(s.drop_last()) * 10 + (s.last() - 48) as nat
    }
}

/// The end of the run of digits that starts at `i`.
pub open spec fn digit_run_end(b: Seq<u8>, i: int) -> int
    decreases b.len() - i,
{
    if 0 <= i < b.len() && is_digit(b[i]) {
        digit_run_end(b, i + 1)
    } else {
        i
    }
}

/// Reads the longest run of at least one digit at `i`: its value and where it ends.
pub open spec fn read_natural_spec(b: Seq<u8>, i: int) -> Option<(nat, int)> {
    let e = digit_run_end(b, i);
    if e == i {
        None
    } else {
        Some((digits_value(b.subrange(i, e)), e))
    }
}

/// Reads an optionally negated natural number at `i`.
pub open spec fn read_integer_spec(b: Seq<u8>, i: int) -> Option<(int, int)> {
    if 0 <= i < b.len() && b[i] == 45 {
        match read_natural_spec(b, i + 1) {
            Some((v, e)) => Some((-v, e)),
            None => None,
        }
    } else {
        match read_natural_spec(b, i) {
            Some((v, e)) => Some((v as int, e)),
            None => None,
        }
    }
}

/// `lit` stands in `b` at position `i`.
pub open spec fn lit_at(b: Seq<u8>, i: int, lit: Seq<u8>) -> bool {
    0 <= i && i + lit.len() <= b.len() && b.subrange(i, i + lit.len()) == lit
}

pub open spec fn hex_digit(d: nat) -> u8 {
    if d < 10 {
        (48 + d) as u8
    } else {
        (87 + d) as u8
    }
}

pub open spec fn is_hex(c: u8) -> bool {
    (48 <= c <= 57) || (97 <= c <= 102) || (65 <= c <= 70)
}

pub open spec fn hex_value(c: u8) -> nat {
    if 48 <= c <= 57 {
        (c - 48) as nat
    } else if 97 <= c <= 102 {
        (c - 87) as nat
    } else {
        (c - 55) as nat
    }
}

/// How one byte is written inside a JSON string: quote, backslash and the
/// control characters are escaped, every other byte stands for itself.
pub open spec fn escape_byte(c: u8) -> Seq<u8> {
    if c == 34 {
        seq![92u8, 34u8]
    } else if c == 92 {
        seq![92u8, 92u8]
    } else if c == 8 {
        seq![92u8, 98u8]
    } else if c == 12 {
        seq![92u8, 102u8]
    } else if c == 10 {
        seq![92u8, 110u8]
    } else if c == 13 {
        seq![92u8, 114u8]
    } else if c == 9 {
        seq![92u8, 116u8]
    } else if c < 32 {
        seq![92u8, 117u8, 48u8, 48u8, hex_digit(c as nat / 16), hex_digit(c as nat % 16)]
    } else {
        seq![c]
    }
}

/// The body of a JSON string holding the bytes `s`.
pub open spec fn escaped(s: Seq<u8>) -> Seq<u8>
    decreases s.len(),
{
    if s.len() == 0 {
        seq![]
    } else {
        escape_byte(s[0]) + escaped(s.subrange(1, s.len() as int))
    }
}

/// Reads the escape sequence that starts with the backslash at `i`: the byte it
/// stands for and its length.
pub open spec fn unescape_at(b: Seq<u8>, i: int) -> Option<(u8, int)> {
    if 0 <= i && i + 1 < b.len() {
        let e = b[i + 1];
        if e == 34 {
            Some((34u8, 2))
        } else if e == 92 {
            Some((92u8, 2))
        } else if e == 47 {
            Some((47u8, 2))
        } else if e == 98 {
            Some((8u8, 2))
        } else if e == 102 {
            Some((12u8, 2))
        } else if e == 110 {
            Some((10u8, 2))
        } else if e == 114 {
            Some((13u8, 2))
        } else if e == 116 {
            Some((9u8, 2))
        } else if e == 117 && b.len() - i > 5 && b[i + 2] == 48 && b[i + 3] == 48 && is_hex(
            b[i + 4],
        ) && is_hex(b[i + 5]) && hex_value(b[i + 4]) < 8 {
            Some(((hex_value(b[i + 4]) * 16 + hex_value(b[i + 5])) as u8, 6))
        } else {
            None
        }
    } else {
        None
    }
}

pub open spec fn prepend(c: u8, r: Option<(Seq<u8>, int)>) -> Option<(Seq<u8>, int)> {
    match r {
        Some((s, e)) => Some((seq![c] + s, e)),
        None => None,
    }
}

/// Reads a string body starting at `i` up to and including its closing quote:
/// the bytes it holds and the position after the quote.
pub open spec fn read_string_spec(b: Seq<u8>, i: int) -> Option<(Seq<u8>, int)>
    decreases b.len() - i,
{
    if i < 0 || i >= b.len() {
        None
    } else if b[i] == 34 {
        Some((seq![], i + 1))
    } else if b[i] == 92 {
        match unescape_at(b, i) {
            Some((c, n)) => if n > 0 {
                prepend(c, read_string_spec(b, i + n))
            } else {
                None
            },
            None => None,
        }
    } else if b[i] < 32 {
        None
    } else {
        prepend(b[i], read_string_spec(b, i + 1))
    }
}

// ---------------------------------------------------------------- writers
/// Appends the decimal digits of `n`.
pub fn write_natural(out: &mut Vec<u8>, n: u64)
    ensures
        final(out)@ == old(out)@ + decimal(n as nat),
    decreases n,
{
    if n >= 10 {
        write_natural(out, n / 10);
    }
    out.push((48 + n % 10) as u8);
    proof {
        if n >= 10 {
            assert(final(out)@ =~= old(out)@ + decimal(n as nat));
        } else {
            assert(final(out)@ =~= old(out)@ + decimal(n as nat));
        }
    }
}

/// Appends the decimal text of `i`, with a leading `-` when it is negative.
pub fn write_integer(out: &mut Vec<u8>, i: i32)
    ensures
        final(out)@ == old(out)@ + signed_decimal(i as int),
{
    if i < 0 {
        out.push(45u8);
        let m: u64 = (0 - (i as i64)) as u64;
        write_natural(out, m);
        assert(final(out)@ =~= old(out)@ + signed_decimal(i as int));
    } else {
        write_natural(out, i as u64);
    }
}

/// Appends the bytes of `lit`.
pub fn write_bytes(out: &mut Vec<u8>, lit: &Vec<u8>)
    ensures
        final(out)@ == old(out)@ + lit@,
{
    let mut k: usize = 0;
    while k < lit.len()
        invariant
            k <= lit@.len(),
            out@ == old(out)@ + lit@.subrange(0, k as int),
        decreases lit@.len() - k,
    {
        out.push(lit[k]);
        k = k + 1;
        assert(out@ =~= old(out)@ + lit@.subrange(0, k as int));
    }
    assert(lit@.subrange(0, lit@.len() as int) =~= lit@);
}

proof fn lemma_escaped_push(s: Seq<u8>, c: u8)
    ensures
        escaped(s.push(c)) == escaped(s) + escape_byte(c),
    decreases s.len(),
{
    let p = s.push(c);
    assert(p[0] == (if s.len() == 0 { c } else { s[0] }));
    if s.len() == 0 {
        assert(p.subrange(1, 1) =~= Seq::<u8>::empty());
        assert(escaped(p.subrange(1, 1)) == Seq::<u8>::empty());
        assert(escaped(s) == Seq::<u8>::empty());
        assert(escaped(p) =~= escaped(s) + escape_byte(c));
    } else {
        let t = s.subrange(1, s.len() as int);
        lemma_escaped_push(t, c);
        assert(p.subrange(1, p.len() as int) =~= t.push(c));
        assert(escaped(p) =~= escaped(s) + escape_byte(c));
    }
}

/// A fragment that stands in `b` at `i` is made of its two parts, standing one
/// after the other.
pub proof fn lemma_lit_split(b: Seq<u8>, i: int, x: Seq<u8>, y: Seq<u8>)
    requires
        lit_at(b, i, x + y),
    ensures
        lit_at(b, i, x),
        lit_at(b, i + x.len(), y),
{
    let w = x + y;
    assert forall|k: int| 0 <= k < x.len() implies b.subrange(i, i + x.len())[k] == x[k] by {
        assert(b.subrange(i, i + w.len())[k] == w[k]);
    }
    assert(b.subrange(i, i + x.len()) =~= x);
    assert forall|k: int| 0 <= k < y.len() implies b.subrange(
        i + x.len(),
        i + x.len() + y.len(),
    )[k] == y[k] by {
        assert(b.subrange(i, i + w.len())[x.len() + k] == w[x.len() + k]);
    }
    assert(b.subrange(i + x.len(), i + x.len() + y.len()) =~= y);
}

/// The first byte of a fragment that stands in `b` at `i`.
pub proof fn lemma_lit_first(b: Seq<u8>, i: int, x: Seq<u8>)
    requires
        lit_at(b, i, x),
        x.len() > 0,
    ensures
        b[i] == x[0],
{
    assert(b.subrange(i, i + x.len())[0] == b[i]);
}

fn hex_digit_exec(d: u8) -> (r: u8)
    requires
        d < 16,
    ensures
        r == hex_digit(d as nat),
{
    if d < 10 {
        48 + d
    } else {
        87 + d
    }
}

/// Appends the escaped form of the bytes `s`, as the body of a JSON string.
pub fn write_escaped(out: &mut Vec<u8>, s: &[u8])
    ensures
        final(out)@ == old(out)@ + escaped(s@),
{
    let mut k: usize = 0;
    while k < s.len()
        invariant
            k <= s@.len(),
            out@ == old(out)@ + escaped(s@.subrange(0, k as int)),
        decreases s@.len() - k,
    {
        let c = s[k];
        let ghost before = out@;
        if c == 34 {
            out.push(92u8);
            out.push(34u8);
        } else if c == 92 {
            out.push(92u8);
            out.push(92u8);
        } else if c == 8 {
            out.push(92u8);
            out.push(98u8);
        } else if c == 12 {
            out.push(92u8);
            out.push(102u8);
        } else if c == 10 {
            out.push(92u8);
            out.push(110u8);
        } else if c == 13 {
            out.push(92u8);
            out.push(114u8);
        } else if c == 9 {
            out.push(92u8);
            out.push(116u8);
        } else if c < 32 {
            out.push(92u8);
            out.push(117u8);
            out.push(48u8);
            out.push(48u8);
            out.push(hex_digit_exec(c / 16));
            out.push(hex_digit_exec(c % 16));
        } else {
            out.push(c);
        }
        assert(out@ =~= before + escape_byte(c));
        proof {
            lemma_escaped_push(s@.subrange(0, k as int), c);
            assert(s@.subrange(0, k as int).push(c) =~= s@.subrange(0, k + 1));
        }
        k = k + 1;
    }
    assert(s@.subrange(0, s@.len() as int) =~= s@);
}

// ---------------------------------------------------------------- readers
/// Whether `lit` stands in `b` at position `i`.
pub fn match_literal(b: &Vec<u8>, i: usize, lit: &Vec<u8>) -> (r: bool)
    ensures
        r == lit_at(b@, i as int, lit@),
        r ==> i + lit@.len() <= usize::MAX,
{
    if lit.len() > b.len() || i > b.len() - lit.len() {
        return false;
    }
    let mut k: usize = 0;
    while k < lit.len()
        invariant
            k <= lit@.len(),
            i + lit@.len() <= b@.len(),
            b@.len() <= usize::MAX,
            forall|j: int| 0 <= j < k ==> b@[i + j] == lit@[j],
        decreases lit@.len() - k,
    {
        if b[i + k] != lit[k] {
            assert(b@.subrange(i as int, i + lit@.len())[k as int] != lit@[k as int]);
            return false;
        }
        k = k + 1;
    }
    assert(b@.subrange(i as int, i + lit@.len()) =~= lit@);
    true
}

proof fn lemma_digits_value_push(s: Seq<u8>, c: u8)
    ensures
        digits_value(s.push(c)) == digits_value(s) * 10 + (c - 48) as nat,
{
    assert(s.push(c).drop_last() =~= s);
}

/// Reads the longest run of at least one digit at `start`, when its value fits.
pub fn read_natural(b: &Vec<u8>, start: usize) -> (r: Option<(u64, usize)>)
    requires
        start <= b@.len(),
    ensures
        match read_natural_spec(b@, start as int) {
            Some((v, e)) => if v <= u64::MAX {
                r matches Some((x, y)) && x as nat == v && y as int == e
            } else {
                r is None
            },
            None => r is None,
        },
{
    let mut i: usize = start;
    let mut v: u64 = 0;
    let mut overflow = false;
    assert(b@.subrange(start as int, start as int) =~= Seq::<u8>::empty());
    while i < b.len() && 48 <= b[i] && b[i] <= 57
        invariant
            start <= i <= b@.len(),
            digit_run_end(b@, start as int) == digit_run_end(b@, i as int),
            !overflow ==> v as nat == digits_value(b@.subrange(start as int, i as int)),
            overflow ==> digits_value(b@.subrange(start as int, i as int)) > u64::MAX,
        decreases b@.len() - i,
    {
        let d = (b[i] - 48) as u64;
        proof {
            lemma_digits_value_push(b@.subrange(start as int, i as int), b@[i as int]);
            assert(b@.subrange(start as int, i as int).push(b@[i as int]) =~= b@.subrange(
                start as int,
                i + 1,
            ));
        }
        if !overflow {
            if v > (u64::MAX - d) / 10 {
                overflow = true;
            } else {
                v = v * 10 + d;
            }
        }
        i = i + 1;
    }
    if i == start || overflow {
        None
    } else {
        Some((v, i))
    }
}

/// Reads an optionally negated number at `start`, when it fits in an `i32`.
pub fn read_integer(b: &Vec<u8>, start: usize) -> (r: Option<(i32, usize)>)
    requires
        start <= b@.len(),
    ensures
        match read_integer_spec(b@, start as int) {
            Some((v, e)) => if i32::MIN <= v <= i32::MAX {
                r matches Some((x, y)) && x as int == v && y as int == e
            } else {
                r is None
            },
            None => r is None,
        },
{
    if start < b.len() && b[start] == 45 {
        match read_natural(b, start + 1) {
            Some((v, e)) => {
                if v <= 2147483648 {
                    Some(((0 - (v as i64)) as i32, e))
                } else {
                    None
                }
            },
            None => None,
        }
    } else {
        match read_natural(b, start) {
            Some((v, e)) => {
                if v <= 2147483647 {
                    Some((v as i32, e))
                } else {
                    None
                }
            },
            None => None,
        }
    }
}

fn is_hex_exec(c: u8) -> (r: bool)
    ensures
        r == is_hex(c),
{
    (48 <= c && c <= 57) || (97 <= c && c <= 102) || (65 <= c && c <= 70)
}

fn hex_value_exec(c: u8) -> (r: u8)
    requires
        is_hex(c),
    ensures
        r as nat == hex_value(c),
        r < 16,
{
    if 48 <= c && c <= 57 {
        c - 48
    } else if 97 <= c && c <= 102 {
        c - 87
    } else {
        c - 55
    }
}

fn unescape_exec(b: &Vec<u8>, i: usize) -> (r: Option<(u8, usize)>)
    ensures
        match unescape_at(b@, i as int) {
            Some((c, n)) => r == Some((c, n as usize)),
            None => r is None,
        },
{
    if i >= b.len() || i + 1 >= b.len() {
        return None;
    }
    let e = b[i + 1];
    if e == 34 {
        Some((34u8, 2))
    } else if e == 92 {
        Some((92u8, 2))
    } else if e == 47 {
        Some((47u8, 2))
    } else if e == 98 {
        Some((8u8, 2))
    } else if e == 102 {
        Some((12u8, 2))
    } else if e == 110 {
        Some((10u8, 2))
    } else if e == 114 {
        Some((13u8, 2))
    } else if e == 116 {
        Some((9u8, 2))
    } else if e == 117 && b.len() - i > 5 && b[i + 2] == 48 && b[i + 3] == 48 && is_hex_exec(
        b[i + 4],
    ) && is_hex_exec(b[i + 5]) && hex_value_exec(b[i + 4]) < 8 {
        Some((hex_value_exec(b[i + 4]) * 16 + hex_value_exec(b[i + 5]), 6))
    } else {
        None
    }
}

/// Reads a string body at `start` up to and including its closing quote:
/// the bytes it holds and the position after the quote.
pub fn read_string(b: &Vec<u8>, start: usize) -> (r: Option<(Vec<u8>, usize)>)
    ensures
        match read_string_spec(b@, start as int) {
            Some((s, e)) => r matches Some((v, e2)) && v@ == s && e2 == e,
            None => r is None,
        },
{
    let mut acc: Vec<u8> = Vec::new();
    let mut i: usize = start;
    loop
        invariant
            start <= i,
            read_string_spec(b@, start as int) == (match read_string_spec(b@, i as int) {
                Some((s, e)) => Some((acc@ + s, e)),
                None => None,
            }),
        decreases b@.len() - i,
    {
        if i >= b.len() {
            return None;
        }
        let c = b[i];
        if c == 34 {
            assert(acc@ + Seq::<u8>::empty() =~= acc@);
            return Some((acc, i + 1));
        } else if c == 92 {
            match unescape_exec(b, i) {
                Some((x, n)) => {
                    proof {
                        let ghost rest = read_string_spec(b@, i + n);
                        if let Some((s, e)) = rest {
                            assert(acc@.push(x) + s =~= acc@ + (seq![x] + s));
                        }
                    }
                    acc.push(x);
                    i = i + n;
                },
                None => {
                    return None;
                },
            }
        } else if c < 32 {
            return None;
        } else {
            proof {
                let ghost rest = read_string_spec(b@, i + 1);
                if let Some((s, e)) = rest {
                    assert(acc@.push(c) + s =~= acc@ + (seq![c] + s));
                }
            }
            acc.push(c);
            i = i + 1;
        }
    }
}

// ---------------------------------------------------------------- round trips
proof fn lemma_decimal_digits(n: nat)
    ensures
        decimal(n).len() >= 1,
        forall|k: int| 0 <= k < decimal(n).len() ==> is_digit(#[trigger] decimal(n)[k]),
        digits_value(decimal(n)) == n,
    decreases n,
{
    if n >= 10 {
        lemma_decimal_digits(n / 10);
        let d = decimal(n / 10);
        let c = (48 + n % 10) as u8;
        assert(decimal(n) == d.push(c));
        lemma_digits_value_push(d, c);
        assert forall|k: int| 0 <= k < decimal(n).len() implies is_digit(#[trigger] decimal(n)[k]) by {
            if k < d.len() {
                assert(decimal(n)[k] == d[k]);
            }
        }
    } else {
        let c = (48 + n) as u8;
        assert(decimal(n) == Seq::<u8>::empty().push(c));
        lemma_digits_value_push(Seq::<u8>::empty(), c);
    }
}

proof fn lemma_run_end(b: Seq<u8>, i: int, j: int)
    requires
        0 <= i <= j <= b.len(),
        forall|k: int| i <= k < j ==> is_digit(#[trigger] b[k]),
        j == b.len() || !is_digit(b[j]),
    ensures
        digit_run_end(b, i) == j,
    decreases j - i,
{
    if i < j {
        lemma_run_end(b, i + 1, j);
    }
}

/// The number written by `write_natural` is read back by `read_natural`.
pub proof fn lemma_read_natural_back(b: Seq<u8>, i: int, n: nat)
    requires
        lit_at(b, i, decimal(n)),
        i + decimal(n).len() == b.len() || !is_digit(b[i + decimal(n).len()]),
    ensures
        read_natural_spec(b, i) == Some((n, i + decimal(n).len())),
{
    lemma_decimal_digits(n);
    let j = i + decimal(n).len();
    assert forall|k: int| i <= k < j implies is_digit(#[trigger] b[k]) by {
        assert(b[k] == b.subrange(i, j)[k - i]);
    }
    lemma_run_end(b, i, j);
}

/// The number written by `write_integer` is read back by `read_integer`.
pub proof fn lemma_read_integer_back(b: Seq<u8>, i: int, v: int)
    requires
        lit_at(b, i, signed_decimal(v)),
        i + signed_decimal(v).len() == b.len() || !is_digit(b[i + signed_decimal(v).len()]),
    ensures
        read_integer_spec(b, i) == Some((v, i + signed_decimal(v).len())),
{
    lemma_decimal_digits((if v < 0 { -v } else { v }) as nat);
    if v < 0 {
        let n = (-v) as nat;
        lemma_lit_split(b, i, seq![45u8], decimal(n));
        lemma_lit_first(b, i, seq![45u8]);
        lemma_read_natural_back(b, i + 1, n);
    } else {
        lemma_lit_first(b, i, decimal(v as nat));
        lemma_read_natural_back(b, i, v as nat);
    }
}

proof fn lemma_unescape_byte(b: Seq<u8>, i: int, c: u8)
    requires
        lit_at(b, i, escape_byte(c)),
        c == 34 || c == 92 || c < 32,
    ensures
        unescape_at(b, i) == Some((c, escape_byte(c).len() as int)),
{
    let e = escape_byte(c);
    assert forall|k: int| 0 <= k < e.len() implies b[i + k] == #[trigger] e[k] by {
        assert(b[i + k] == b.subrange(i, i + e.len())[k]);
    }
    if c < 32 && c != 8 && c != 9 && c != 10 && c != 12 && c != 13 {
        assert(b[i + 4] == hex_digit(c as nat / 16));
        assert(b[i + 5] == hex_digit(c as nat % 16));
        assert(hex_value(b[i + 4]) == c as nat / 16);
        assert(hex_value(b[i + 5]) == c as nat % 16);
    }
}

/// A string body written by `write_escaped`, followed by its closing quote, is
/// read back by `read_string`.
pub proof fn lemma_read_string_back(b: Seq<u8>, i: int, s: Seq<u8>)
    requires
        lit_at(b, i, escaped(s) + seq![34u8]),
    ensures
        read_string_spec(b, i) == Some((s, i + escaped(s).len() + 1)),
    decreases s.len(),
{
    let w = escaped(s) + seq![34u8];
    if s.len() == 0 {
        lemma_lit_first(b, i, w);
    } else {
        let c = s[0];
        let t = s.subrange(1, s.len() as int);
        let e = escape_byte(c);
        assert(escaped(s) == e + escaped(t));
        assert(w =~= e + (escaped(t) + seq![34u8]));
        lemma_lit_split(b, i, e, escaped(t) + seq![34u8]);
        lemma_lit_first(b, i, e);
        lemma_read_string_back(b, i + e.len(), t);
        if c == 34 || c == 92 || c < 32 {
            lemma_unescape_byte(b, i, c);
        }
        assert(seq![c] + t =~= s);
    }
}

} // verus!
