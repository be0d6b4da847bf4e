//! Text: equality, order, and the decimal and hexadecimal forms of numbers.
use vstd::prelude::*;
use vstd::string::*;
use vstd::utf8::*;

verus! {

/// `String::push` appends one character at the end.
pub assume_specification[ String::push ](s: &mut String, c: char)
    ensures
        final(s)@ == old(s)@.push(c),
;

/// Whether two strings hold the same characters.
pub fn same(a: &str, b: &str) -> (r: bool)
    ensures
        r == (a@ == b@),
{
    a.to_owned() == b.to_owned()
}

/// The view of an optional string.
pub open spec fn opt_view(o: Option<String>) -> Option<Seq<char>> {
    match o {
        Some(s) => Some(s@),
        None => None,
    }
}

/// The views of a list of strings.
pub open spec fn views(list: Seq<String>) -> Seq<Seq<char>> {
    Seq::new(list.len(), |i: int| list[i]@)
}

/// Whether a list of strings holds a string.
pub fn holds(list: &Vec<String>, s: &str) -> (r: bool)
    ensures
        r == views(list@).contains(s@),
{
    let mut i: usize = 0;
    while i < list.len()
        invariant
            i <= list.len(),
            forall|k: int| 0 <= k < i ==> #[trigger] list@[k]@ != s@,
        decreases list.len() - i,
    {
        if same(&list[i], s) {
            proof {
                assert(views(list@)[i as int] == s@);
            }
            return true;
        }
        i += 1;
    }
    proof {
        assert forall|k: int| 0 <= k < views(list@).len() implies views(list@)[k] != s@ by {
            assert(list@[k]@ != s@);
        }
    }
    false
}

/// A copy of a list of strings.
pub fn copy_list(list: &Vec<String>) -> (r: Vec<String>)
    ensures
        r@ == list@,
{
    let r = list.clone();
    proof {
        assert(r@ =~= list@);
    }
    r
}

// --- Decimal -------------------------------------------------------------------------------------

/// The character of a decimal or hexadecimal digit, in lower case.
pub open spec fn digit_char(d: int) -> char {
    seq!['0', '1', '2', '3', '4', '5', '6', '7', '8', '9', 'a', 'b', 'c', 'd', 'e', 'f'][d]
}

/// The value of a digit character; 16 for a character that is no digit in lower case.
pub open spec fn digit_value(c: char) -> int {
    if '0' <= c && c <= '9' {
        c as int - '0' as int
    } else if 'a' <= c && c <= 'f' {
        c as int - 'a' as int + 10
    } else {
        16
    }
}

/// The decimal form of a number, without leading zeros.
pub open spec fn dec(n: nat) -> Seq<char>
    decreases n,
{
    if n < 10 {
        seq![digit_char(n as int)]
    } else {
        dec(n / 10).push(digit_char((n % 10) as int))
    }
}

/// Whether every character is a decimal digit.
pub open spec fn all_decimal(s: Seq<char>) -> bool {
    forall|i: int| 0 <= i < s.len() ==> '0' <= #[trigger] s[i] && s[i] <= '9'
}

/// The number that a row of decimal digits stands for.
pub open spec fn dec_value(s: Seq<char>) -> nat
    decreases s.len(),
{
    if s.len() == 0 {
        0
    } else {
        (dec_value(s.drop_last()) * 10 + digit_value(s.last())) as nat
    }
}

/// The digit `d` as a character.
pub fn digit(d: u64) -> (c: char)
    requires
        d < 16,
    ensures
        c == digit_char(d as int),
{
    match d {
        0 => '0',
        1 => '1',
        2 => '2',
        3 => '3',
        4 => '4',
        5 => '5',
        6 => '6',
        7 => '7',
        8 => '8',
        9 => '9',
        10 => 'a',
        11 => 'b',
        12 => 'c',
        13 => 'd',
        14 => 'e',
        _ => 'f',
    }
}

/// The decimal form of `n`.
pub fn decimal(n: u64) -> (r: String)
    ensures
        r@ == dec(n as nat),
    decreases n,
{
    if n < 10 {
        let mut r = String::new();
        r.push(digit(n));
        proof {
            assert(r@ =~= dec(n as nat));
        }
        r
    } else {
        let mut r = decimal(n / 10);
        r.push(digit(n % 10));
        r
    }
}

/// The decimal form of a number reads back as that number and holds only digits.
pub proof fn dec_reads_back(n: nat)
    ensures
        dec(n).len() > 0,
        all_decimal(dec(n)),
        dec_value(dec(n)) == n,
        n > 0 ==> dec(n)[0] != '0',
        n == 0 ==> dec(n) == seq!['0'],
    decreases n,
{
    if n < 10 {
        let s = dec(n);
        assert(s.drop_last() =~= Seq::<char>::empty());
        assert(dec_value(s.drop_last()) == 0);
        assert(digit_value(s.last()) == n);
    } else {
        dec_reads_back(n / 10);
        let s = dec(n);
        assert(s.drop_last() =~= dec(n / 10));
        assert(digit_value(s.last()) == n % 10);
        assert(s[0] == dec(n / 10)[0]);
    }
}

/// Two numbers with one decimal form are one number.
pub proof fn dec_injective(a: nat, b: nat)
    ensures
        dec(a) == dec(b) ==> a == b,
{
    dec_reads_back(a);
    dec_reads_back(b);
}

/// The characters of a string.
pub fn chars_of(s: &str) -> (r: Vec<char>)
    ensures
        r@ == s@,
{
    let mut r: Vec<char> = Vec::new();
    for c in it: s.chars()
        invariant
            it.seq() == s@,
            r@ == s@.take(it.index() as int),
    {
        r.push(c);
        proof {
            assert(s@.take(it.index() as int + 1) =~= s@.take(it.index() as int).push(c));
        }
    }
    proof {
        assert(s@.take(s@.len() as int) =~= s@);
    }
    r
}

/// The value of `dec_value` only grows with more digits.
proof fn dec_value_prefix(s: Seq<char>, k: int)
    requires
        all_decimal(s),
        0 <= k <= s.len(),
    ensures
        dec_value(s.take(k)) <= dec_value(s),
    decreases s.len() - k,
{
    if k < s.len() {
        dec_value_prefix(s, k + 1);
        let t = s.take(k + 1);
        assert(t.drop_last() =~= s.take(k));
        assert(t.last() == s[k]);
        assert(dec_value(t) == dec_value(s.take(k)) * 10 + digit_value(s[k]));
    } else {
        assert(s.take(k) =~= s);
    }
}

/// Reads a row of decimal digits. `None` for an empty string, for any other character,
/// and for a number that does not fit.
pub fn parse_decimal(s: &str) -> (r: Option<u64>)
    ensures
        r == (if s@.len() > 0 && all_decimal(s@) && dec_value(s@) <= u64::MAX {
            Some(dec_value(s@) as u64)
        } else {
            None
        }),
{
    let v = chars_of(s);
    if v.len() == 0 {
        return None;
    }
    let mut i: usize = 0;
    while i < v.len()
        invariant
            i <= v.len(),
            v@ == s@,
            forall|k: int| 0 <= k < i ==> '0' <= #[trigger] s@[k] && s@[k] <= '9',
        decreases v.len() - i,
    {
        if !('0' <= v[i] && v[i] <= '9') {
            return None;
        }
        i += 1;
    }
    let mut n: u64 = 0;
    let mut j: usize = 0;
    proof {
        assert(s@.take(0) =~= Seq::<char>::empty());
    }
    while j < v.len()
        invariant
            j <= v.len(),
            v@ == s@,
            all_decimal(s@),
            n == dec_value(s@.take(j as int)),
        decreases v.len() - j,
    {
        let d: u64 = v[j] as u64 - 48;
        proof {
            let t = s@.take(j + 1);
            assert(t.drop_last() =~= s@.take(j as int));
            assert(t.last() == s@[j as int]);
            assert(dec_value(t) == n * 10 + d);
            dec_value_prefix(s@, j + 1);
        }
        if n > u64::MAX / 10 {
            return None;
        }
        if n * 10 > u64::MAX - d {
            return None;
        }
        n = n * 10 + d;
        j += 1;
    }
    proof {
        assert(s@.take(s@.len() as int) =~= s@);
    }
    Some(n)
}

/// Whether a string begins with a prefix.
pub fn starts_with(s: &str, prefix: &str) -> (r: bool)
    ensures
        r == prefix@.is_prefix_of(s@),
{
    let a = chars_of(s);
    let b = chars_of(prefix);
    if b.len() > a.len() {
        return false;
    }
    let mut i: usize = 0;
    while i < b.len()
        invariant
            i <= b.len() <= a.len(),
            a@ == s@,
            b@ == prefix@,
            forall|k: int| 0 <= k < i ==> a@[k] == b@[k],
        decreases b.len() - i,
    {
        if a[i] != b[i] {
            proof {
                assert(s@.subrange(0, prefix@.len() as int)[i as int] != prefix@[i as int]);
            }
            return false;
        }
        i += 1;
    }
    proof {
        assert(prefix@ =~= s@.subrange(0, prefix@.len() as int));
    }
    true
}

// --- Hexadecimal ---------------------------------------------------------------------------------

/// Whether every character is a hexadecimal digit in lower case.
pub open spec fn all_hex(s: Seq<char>) -> bool {
    forall|i: int| 0 <= i < s.len() ==> digit_value(#[trigger] s[i]) < 16
}

/// Whether a character is a hexadecimal digit in lower case.
pub fn is_hex(c: char) -> (r: bool)
    ensures
        r == (digit_value(c) < 16),
{
    ('0' <= c && c <= '9') || ('a' <= c && c <= 'f')
}

/// The value of a hexadecimal digit.
pub fn hex_value(c: char) -> (r: u8)
    requires
        digit_value(c) < 16,
    ensures
        r == digit_value(c),
        r < 16,
{
    if '0' <= c && c <= '9' {
        (c as u32 - 48) as u8
    } else {
        (c as u32 - 97 + 10) as u8
    }
}

/// A digit character has the value of its digit.
pub broadcast proof fn digit_char_value(d: int)
    requires
        0 <= d < 16,
    ensures
        digit_value(#[trigger] digit_char(d)) == d,
{
}

/// A digit is the character of its value.
pub proof fn digit_value_char(c: char)
    requires
        digit_value(c) < 16,
    ensures
        digit_char(digit_value(c)) == c,
{
    let d = digit_value(c);
    if '0' <= c && c <= '9' {
        assert(c as int == d + 48);
    } else {
        assert(c as int == d + 87);
    }
}

// --- Order ---------------------------------------------------------------------------------------

/// Lexicographic order on bytes.
pub open spec fn bytes_before(a: Seq<u8>, b: Seq<u8>) -> bool
    decreases a.len(),
{
    if b.len() == 0 {
        false
    } else if a.len() == 0 {
        true
    } else if a[0] != b[0] {
        a[0] < b[0]
    } else {
        bytes_before(a.drop_first(), b.drop_first())
    }
}

/// The order of strings: that of their UTF-8 bytes.
pub open spec fn text_before(a: Seq<char>, b: Seq<char>) -> bool {
    bytes_before(encode_utf8(a), encode_utf8(b))
}

/// Whether `a` comes strictly before `b` in the order of their bytes.
pub fn before(a: &str, b: &str) -> (r: bool)
    ensures
        r == text_before(a@, b@),
{
    let x = a.as_bytes();
    let y = b.as_bytes();
    let mut i: usize = 0;
    proof {
        assert(x@.skip(0) =~= x@);
        assert(y@.skip(0) =~= y@);
    }
    while i < x.len() && i < y.len() && x[i] == y[i]
        invariant
            i <= x.len(),
            i <= y.len(),
            bytes_before(x@, y@) == bytes_before(x@.skip(i as int), y@.skip(i as int)),
        decreases x.len() - i,
    {
        proof {
            assert(x@.skip(i as int).drop_first() =~= x@.skip(i + 1));
            assert(y@.skip(i as int).drop_first() =~= y@.skip(i + 1));
        }
        i += 1;
    }
    if i >= y.len() {
        false
    } else if i >= x.len() {
        true
    } else {
        x[i] < y[i]
    }
}

proof fn bytes_before_total(a: Seq<u8>, b: Seq<u8>)
    ensures
        a == b || bytes_before(a, b) || bytes_before(b, a),
        !(bytes_before(a, b) && bytes_before(b, a)),
        !bytes_before(a, a),
    decreases a.len(),
{
    if a.len() > 0 {
        bytes_before_total(a.drop_first(), if b.len() > 0 { b.drop_first() } else { b });
    }
    if a.len() > 0 && b.len() > 0 {
        if a[0] == b[0] && a.drop_first() == b.drop_first() {
            assert(a =~= seq![a[0]] + a.drop_first());
            assert(b =~= seq![b[0]] + b.drop_first());
        }
    } else if a.len() == 0 && b.len() == 0 {
        assert(a =~= b);
    }
}

proof fn bytes_before_transitive(a: Seq<u8>, b: Seq<u8>, c: Seq<u8>)
    requires
        bytes_before(a, b),
        bytes_before(b, c),
    ensures
        bytes_before(a, c),
    decreases a.len(),
{
    if a.len() > 0 && b.len() > 0 && c.len() > 0 && a[0] == b[0] && b[0] == c[0] {
        bytes_before_transitive(a.drop_first(), b.drop_first(), c.drop_first());
    }
}

/// The order of strings is a strict total order: of two different strings exactly one comes
/// before the other, and no string comes before itself.
pub proof fn text_order_total(a: Seq<char>, b: Seq<char>)
    ensures
        a == b || text_before(a, b) || text_before(b, a),
        !(text_before(a, b) && text_before(b, a)),
        !text_before(a, a),
{
    bytes_before_total(encode_utf8(a), encode_utf8(b));
    bytes_before_total(encode_utf8(a), encode_utf8(a));
    encode_utf8_decode_utf8(a);
    encode_utf8_decode_utf8(b);
}

/// The order of strings is transitive.
pub proof fn text_order_transitive(a: Seq<char>, b: Seq<char>, c: Seq<char>)
    requires
        text_before(a, b),
        text_before(b, c),
    ensures
        text_before(a, c),
{
    bytes_before_transitive(encode_utf8(a), encode_utf8(b), encode_utf8(c));
}

/// The order of bytes: one row comes before another where it is a proper beginning of it, or where it
/// has the smaller byte at the first place where they differ.
pub proof fn bytes_are_ordered(a: Seq<u8>, b: Seq<u8>)
    ensures
        bytes_before(a, b) <==> exists|n: int|
            0 <= n <= a.len() && n < b.len() && #[trigger] a.take(n) == b.take(n) && (n == a.len()
                || a[n] < b[n]),
    decreases a.len(),
{
    if b.len() > 0 && a.len() > 0 && a[0] == b[0] {
        let x = a.drop_first();
        let y = b.drop_first();
        bytes_are_ordered(x, y);
        if bytes_before(x, y) {
            let n = choose|n: int|
                0 <= n <= x.len() && n < y.len() && #[trigger] x.take(n) == y.take(n) && (n
                    == x.len() || x[n] < y[n]);
            assert forall|i: int| 0 <= i < n + 1 implies a[i] == b[i] by {
                if i > 0 {
                    assert(x.take(n)[i - 1] == y.take(n)[i - 1]);
                }
            }
            assert(a.take(n + 1) =~= b.take(n + 1));
        }
        if exists|n: int|
            0 <= n <= a.len() && n < b.len() && #[trigger] a.take(n) == b.take(n) && (n == a.len()
                || a[n] < b[n]) {
            let n = choose|n: int|
                0 <= n <= a.len() && n < b.len() && #[trigger] a.take(n) == b.take(n) && (n
                    == a.len() || a[n] < b[n]);
            assert(n > 0);
            assert forall|i: int| 0 <= i < n - 1 implies x[i] == y[i] by {
                assert(a.take(n)[i + 1] == b.take(n)[i + 1]);
            }
            assert(x.take(n - 1) =~= y.take(n - 1));
        }
    } else {
        assert(a.take(0) =~= b.take(0));
        if exists|n: int|
            0 <= n <= a.len() && n < b.len() && #[trigger] a.take(n) == b.take(n) && (n == a.len()
                || a[n] < b[n]) {
            let n = choose|n: int|
                0 <= n <= a.len() && n < b.len() && #[trigger] a.take(n) == b.take(n) && (n
                    == a.len() || a[n] < b[n]);
            if n > 0 {
                assert(a.take(n)[0] == b.take(n)[0]);
            }
        }
    }
}

} // verus!
