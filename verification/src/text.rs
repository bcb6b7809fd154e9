//! Lower-case hexadecimal and decimal rendering of bytes and counters.
use vstd::prelude::*;

verus! {

/// The character that stands for a nibble (0..16) in lower-case hexadecimal.
pub open spec fn hex_char(n: int) -> char {
    if n < 10 {
        (48 + n) as char
    } else {
        (87 + n) as char
    }
}

/// Each byte becomes two lower-case hex digits, high nibble first.
pub open spec fn hex_of(bytes: Seq<u8>) -> Seq<char>
    decreases bytes.len(),
{
    if bytes.len() == 0 {
        Seq::empty()
    } else {
        hex_of(bytes.drop_last()) + seq![
            hex_char(bytes.last() as int / 16),
            hex_char(bytes.last() as int % 16),
        ]
    }
}

/// The character of a decimal digit (0..10).
pub open spec fn decimal_char(d: int) -> char {
    (48 + d) as char
}

/// The decimal rendering of a natural number, without leading zeros.
pub open spec fn decimal_of(n: nat) -> Seq<char>
    decreases n,
{
    if n < 10 {
        seq![decimal_char(n as int)]
    } else {
        decimal_of(n / 10) + seq![decimal_char((n % 10) as int)]
    }
}

fn hex_digit(n: u8) -> (s: &'static str)
    requires
        n < 16,
    ensures
        s@ == seq![hex_char(n as int)],
{
    match n {
        0 => { proof { reveal_strlit("0"); } "0" },
        1 => { proof { reveal_strlit("1"); } "1" },
        2 => { proof { reveal_strlit("2"); } "2" },
        3 => { proof { reveal_strlit("3"); } "3" },
        4 => { proof { reveal_strlit("4"); } "4" },
        5 => { proof { reveal_strlit("5"); } "5" },
        6 => { proof { reveal_strlit("6"); } "6" },
        7 => { proof { reveal_strlit("7"); } "7" },
        8 => { proof { reveal_strlit("8"); } "8" },
        9 => { proof { reveal_strlit("9"); } "9" },
        10 => { proof { reveal_strlit("a"); } "a" },
        11 => { proof { reveal_strlit("b"); } "b" },
        12 => { proof { reveal_strlit("c"); } "c" },
        13 => { proof { reveal_strlit("d"); } "d" },
        14 => { proof { reveal_strlit("e"); } "e" },
        _ => { proof { reveal_strlit("f"); } "f" },
    }
}

/// Renders `bytes` as lower-case hexadecimal, two digits per byte.
pub fn to_hex_string(bytes: Vec<u8>) -> (res: String)
    ensures
        res@ == hex_of(bytes@),
{
    let mut res = String::new();
    let n = bytes.len();
    let mut i: usize = 0;
    while i < n
        invariant
            n == bytes@.len(),
            i <= n,
            res@ == hex_of(bytes@.take(i as int)),
        decreases n - i,
    {
        let b = bytes[i];
        res.append(hex_digit(b / 16));
        res.append(hex_digit(b % 16));
        assert(bytes@.take(i + 1).drop_last() =~= bytes@.take(i as int));
        i = i + 1;
    }
    assert(bytes@.take(n as int) =~= bytes@);
    res
}

fn decimal_digit(d: usize) -> (s: &'static str)
    requires
        d < 10,
    ensures
        s@ == seq![decimal_char(d as int)],
{
    match d {
        0 => { proof { reveal_strlit("0"); } "0" },
        1 => { proof { reveal_strlit("1"); } "1" },
        2 => { proof { reveal_strlit("2"); } "2" },
        3 => { proof { reveal_strlit("3"); } "3" },
        4 => { proof { reveal_strlit("4"); } "4" },
        5 => { proof { reveal_strlit("5"); } "5" },
        6 => { proof { reveal_strlit("6"); } "6" },
        7 => { proof { reveal_strlit("7"); } "7" },
        8 => { proof { reveal_strlit("8"); } "8" },
        _ => { proof { reveal_strlit("9"); } "9" },
    }
}

/// Appends the decimal rendering of `n` to `s`.
pub fn push_decimal(s: &mut String, n: usize)
    ensures
        final(s)@ == old(s)@ + decimal_of(n as nat),
    decreases n,
{
    if n >= 10 {
        push_decimal(s, n / 10);
    }
    s.append(decimal_digit(n % 10));
    proof {
        assert(old(s)@ + decimal_of(n as nat) =~= s@);
    }
}

/// A lower-case hexadecimal digit.
pub open spec fn is_hex_digit(c: char) -> bool {
    ('0' <= c && c <= '9') || ('a' <= c && c <= 'f')
}

/// A decimal digit.
pub open spec fn is_decimal_digit(c: char) -> bool {
    '0' <= c && c <= '9'
}

/// Hex rendering takes two lower-case hex digits per byte.
pub proof fn lemma_hex_shape(bytes: Seq<u8>)
    ensures
        hex_of(bytes).len() == 2 * bytes.len(),
        forall|i: int| 0 <= i < hex_of(bytes).len() ==> is_hex_digit(#[trigger] hex_of(bytes)[i]),
    decreases bytes.len(),
{
    if bytes.len() > 0 {
        lemma_hex_shape(bytes.drop_last());
    }
}

/// Distinct byte strings have distinct hex renderings, so names built from
/// distinct digests never collide.
pub proof fn lemma_hex_injective(a: Seq<u8>, b: Seq<u8>)
    requires
        hex_of(a) == hex_of(b),
    ensures
        a == b,
    decreases a.len(),
{
    lemma_hex_shape(a);
    lemma_hex_shape(b);
    if a.len() > 0 {
        let ha = hex_of(a);
        let n = ha.len();
        assert(ha.subrange(0, n - 2) =~= hex_of(a.drop_last()));
        assert(hex_of(b).subrange(0, n - 2) =~= hex_of(b.drop_last()));
        lemma_hex_injective(a.drop_last(), b.drop_last());
        assert(ha[n - 2] == hex_char(a.last() as int / 16));
        assert(hex_of(b)[n - 2] == hex_char(b.last() as int / 16));
        assert(ha[n - 1] == hex_char(a.last() as int % 16));
        assert(hex_of(b)[n - 1] == hex_char(b.last() as int % 16));
        assert(a.last() == b.last());
        assert(a =~= a.drop_last().push(a.last()));
        assert(b =~= b.drop_last().push(b.last()));
    }
}

/// `a` comes before `b` in lexicographic byte order.
pub open spec fn bytes_lt(a: Seq<u8>, b: Seq<u8>) -> bool {
    ||| exists|i: int| 0 <= i < a.len() && i < b.len() && a.take(i) == b.take(i) && a[i] < b[i]
    ||| a.len() < b.len() && a == b.take(a.len() as int)
}

/// `a` comes before `b` in lexicographic character order.
pub open spec fn chars_lt(a: Seq<char>, b: Seq<char>) -> bool {
    ||| exists|i: int|
        0 <= i < a.len() && i < b.len() && a.take(i) == b.take(i) && (a[i] as int) < (b[i]
            as int)
    ||| a.len() < b.len() && a == b.take(a.len() as int)
}

/// The hex of a prefix is the matching prefix of the hex.
pub proof fn lemma_hex_take(a: Seq<u8>, i: int)
    requires
        0 <= i <= a.len(),
    ensures
        hex_of(a.take(i)) == hex_of(a).take(2 * i),
    decreases a.len(),
{
    lemma_hex_shape(a);
    if i == a.len() {
        assert(a.take(i) =~= a);
        assert(hex_of(a).take(2 * i) =~= hex_of(a));
    } else {
        let r = a.drop_last();
        assert(a.take(i) =~= r.take(i));
        lemma_hex_take(r, i);
        lemma_hex_shape(r);
        assert(hex_of(a).take(2 * i) =~= hex_of(r).take(2 * i));
    }
}

/// Byte `i` is rendered at positions `2 * i` and `2 * i + 1`.
pub proof fn lemma_hex_index(a: Seq<u8>, i: int)
    requires
        0 <= i < a.len(),
    ensures
        hex_of(a)[2 * i] == hex_char(a[i] as int / 16),
        hex_of(a)[2 * i + 1] == hex_char(a[i] as int % 16),
{
    lemma_hex_take(a, i + 1);
    lemma_hex_shape(a);
    lemma_hex_shape(a.take(i));
    assert(hex_of(a).take(2 * i + 2)[2 * i] == hex_of(a)[2 * i]);
    assert(hex_of(a).take(2 * i + 2)[2 * i + 1] == hex_of(a)[2 * i + 1]);
    assert(a.take(i + 1).drop_last() =~= a.take(i));
    assert(hex_of(a.take(i + 1)) == hex_of(a.take(i)) + seq![
        hex_char(a[i] as int / 16),
        hex_char(a[i] as int % 16),
    ]);
    assert(hex_of(a.take(i + 1))[2 * i] == hex_of(a)[2 * i]);
    assert(hex_of(a.take(i + 1))[2 * i + 1] == hex_of(a)[2 * i + 1]);
}

proof fn lemma_hex_char_order(m: int, n: int)
    requires
        0 <= m < 16,
        0 <= n < 16,
    ensures
        (hex_char(m) as int) < (hex_char(n) as int) <==> m < n,
        hex_char(m) == hex_char(n) <==> m == n,
{
}

/// Hex rendering keeps the order of byte strings of equal length: `a`
/// comes before `b` exactly when the hex of `a` comes before the hex of `b`.
pub proof fn lemma_hex_order(a: Seq<u8>, b: Seq<u8>)
    requires
        a.len() == b.len(),
    ensures
        bytes_lt(a, b) <==> chars_lt(hex_of(a), hex_of(b)),
{
    lemma_hex_shape(a);
    lemma_hex_shape(b);
    let ha = hex_of(a);
    let hb = hex_of(b);
    if bytes_lt(a, b) {
        let i = choose|i: int|
            0 <= i < a.len() && i < b.len() && a.take(i) == b.take(i) && a[i] < b[i];
        lemma_hex_take(a, i);
        lemma_hex_take(b, i);
        lemma_hex_index(a, i);
        lemma_hex_index(b, i);
        lemma_hex_char_order(a[i] as int / 16, b[i] as int / 16);
        lemma_hex_char_order(a[i] as int % 16, b[i] as int % 16);
        if a[i] as int / 16 < b[i] as int / 16 {
            assert(ha.take(2 * i) == hb.take(2 * i));
        } else {
            assert(ha.take(2 * i + 1) =~= ha.take(2 * i).push(ha[2 * i]));
            assert(hb.take(2 * i + 1) =~= hb.take(2 * i).push(hb[2 * i]));
            assert(ha.take(2 * i + 1) == hb.take(2 * i + 1));
        }
        assert(chars_lt(ha, hb));
    }
    if chars_lt(ha, hb) {
        let j = choose|j: int|
            0 <= j < ha.len() && j < hb.len() && ha.take(j) == hb.take(j) && (ha[j] as int) < (
            hb[j] as int);
        let i = j / 2;
        lemma_hex_take(a, i);
        lemma_hex_take(b, i);
        assert(ha.take(2 * i) =~= ha.take(j).take(2 * i));
        assert(hb.take(2 * i) =~= hb.take(j).take(2 * i));
        lemma_hex_injective(a.take(i), b.take(i));
        lemma_hex_index(a, i);
        lemma_hex_index(b, i);
        lemma_hex_char_order(a[i] as int / 16, b[i] as int / 16);
        lemma_hex_char_order(a[i] as int % 16, b[i] as int % 16);
        if j == 2 * i + 1 {
            assert(ha[2 * i] == ha.take(j)[2 * i]);
            assert(hb[2 * i] == hb.take(j)[2 * i]);
        }
        assert(a[i] < b[i]);
        assert(bytes_lt(a, b));
    }
}

/// Decimal rendering is a non-empty string of decimal digits.
pub proof fn lemma_decimal_shape(n: nat)
    ensures
        decimal_of(n).len() >= 1,
        n >= 10 ==> decimal_of(n).len() >= 2,
        forall|i: int|
            0 <= i < decimal_of(n).len() ==> is_decimal_digit(#[trigger] decimal_of(n)[i]),
    decreases n,
{
    if n >= 10 {
        lemma_decimal_shape(n / 10);
    }
}

/// Distinct numbers have distinct decimal renderings.
pub proof fn lemma_decimal_injective(m: nat, n: nat)
    requires
        decimal_of(m) == decimal_of(n),
    ensures
        m == n,
    decreases m,
{
    lemma_decimal_shape(m);
    lemma_decimal_shape(n);
    if m >= 10 && n >= 10 {
        let dm = decimal_of(m);
        let k = dm.len();
        assert(dm.subrange(0, k - 1) =~= decimal_of(m / 10));
        assert(decimal_of(n).subrange(0, k - 1) =~= decimal_of(n / 10));
        lemma_decimal_injective(m / 10, n / 10);
        assert(dm[k - 1] == decimal_char((m % 10) as int));
        assert(decimal_of(n)[k - 1] == decimal_char((n % 10) as int));
        assert(m % 10 == n % 10);
        assert(m == (m / 10) * 10 + m % 10);
        assert(n == (n / 10) * 10 + n % 10);
    } else if m < 10 && n < 10 {
        assert(decimal_of(m)[0] == decimal_char(m as int));
        assert(decimal_of(n)[0] == decimal_char(n as int));
    }
}

} // verus!
