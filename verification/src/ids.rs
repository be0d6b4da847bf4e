//! Identifier and fencing vocabulary shared by every kernel domain.
use crate::text::{all_hex, chars_of, digit, digit_char, digit_char_value, digit_value, is_hex};
use vstd::prelude::*;
use vstd::string::*;
use vstd::utf8::*;

verus! {

/// The 32 bytes of the BLAKE3 hash of a message.
pub uninterp spec fn blake3_of(message: Seq<u8>) -> Seq<u8>;

/// `blake3::hash` and `Hash::as_bytes`: the hash of a message, a function of its bytes alone.
#[verifier::external_body]
pub(crate) fn blake3_hash(message: &[u8]) -> (r: [u8; 32])
    ensures
        r@ == blake3_of(message@),
{
    *blake3::hash(message).as_bytes()
}

/// The form of a string under `{:?}`: in quotes, with escapes.
pub uninterp spec fn debug_form(s: Seq<char>) -> Seq<char>;

/// `format!` with `{:?}` on a string: its quoted and escaped form.
#[verifier::external_body]
pub(crate) fn debug_text(s: &str) -> (r: String)
    ensures
        r@ == debug_form(s@),
{
    format!("{s:?}")
}

/// Two hexadecimal digits in lower case for each byte.
pub open spec fn hex_of(bytes: Seq<u8>) -> Seq<char>
    decreases bytes.len(),
{
    if bytes.len() == 0 {
        Seq::empty()
    } else {
        hex_of(bytes.drop_last()).push(digit_char(bytes.last() as int / 16)).push(
            digit_char(bytes.last() as int % 16),
        )
    }
}

/// The hexadecimal form of a row of bytes.
pub fn hex(bytes: &[u8]) -> (r: String)
    ensures
        r@ == hex_of(bytes@),
{
    let mut r = String::new();
    let mut i: usize = 0;
    proof {
        assert(bytes@.take(0) =~= Seq::<u8>::empty());
    }
    while i < bytes.len()
        invariant
            i <= bytes.len(),
            r@ == hex_of(bytes@.take(i as int)),
        decreases bytes.len() - i,
    {
        let b: u64 = bytes[i] as u64;
        r.push(digit(b / 16));
        r.push(digit(b % 16));
        proof {
            assert(bytes@.take(i + 1).drop_last() =~= bytes@.take(i as int));
        }
        i += 1;
    }
    proof {
        assert(bytes@.take(bytes@.len() as int) =~= bytes@);
    }
    r
}

/// The hexadecimal form has two digits per byte.
pub proof fn hex_shape(bytes: Seq<u8>)
    ensures
        hex_of(bytes).len() == 2 * bytes.len(),
        all_hex(hex_of(bytes)),
    decreases bytes.len(),
{
    if bytes.len() > 0 {
        hex_shape(bytes.drop_last());
        digit_char_value(bytes.last() as int / 16);
        digit_char_value(bytes.last() as int % 16);
    }
}

/// Whether a text is a digest on the wire: `blake3:` and 64 hexadecimal digits in lower case.
pub open spec fn is_digest_text(s: Seq<char>) -> bool {
    &&& has_digest_prefix(s)
    &&& s.len() == 71
    &&& all_hex(s.skip(7))
}

/// Whether a text begins with `blake3:`.
pub open spec fn has_digest_prefix(s: Seq<char>) -> bool {
    s.len() >= 7 && s.take(7) == "blake3:"@
}

/// BLAKE3-256 digest in the only wire form there is: `blake3:<64 lowercase hex>`.
#[derive(PartialEq, Eq, Hash, Debug)]
pub struct Digest(String);

impl View for Digest {
    type V = Seq<char>;

    closed spec fn view(&self) -> Seq<char> {
        self.0@
    }
}

impl Clone for Digest {
    fn clone(&self) -> (r: Self)
        ensures
            r == *self,
    {
        proof {
            use_type_invariant(self);
        }
        Digest(self.0.clone())
    }
}

/// The view of an optional digest.
pub open spec fn opt_digest(o: Option<Digest>) -> Option<Seq<char>> {
    match o {
        Some(d) => Some(d@),
        None => None,
    }
}

/// The digest of a message on the wire.
pub open spec fn digest_text(message: Seq<u8>) -> Seq<char> {
    "blake3:"@ + hex_of(blake3_of(message))
}

impl Digest {
    /// What every digest satisfies: its text is in the wire form.
    #[verifier::type_invariant]
    closed spec fn valid(self) -> bool {
        is_digest_text(self.0@)
    }

    /// The digest of a message.
    pub fn of_bytes(bytes: &[u8]) -> (r: Self)
        ensures
            r@ == digest_text(bytes@),
    {
        let hash = blake3_hash(bytes);
        let mut text = "blake3:".to_owned();
        let tail = hex(hash.as_slice());
        text.append(&tail);
        proof {
            hex_shape(blake3_of(bytes@));
            reveal_strlit("blake3:");
            assert(text@.take(7) =~= "blake3:"@);
            assert(text@.skip(7) =~= hex_of(blake3_of(bytes@)));
        }
        Digest(text)
    }

    /// The wire form.
    pub fn as_str(&self) -> (r: &str)
        ensures
            r@ == self@,
            is_digest_text(r@),
    {
        proof {
            use_type_invariant(self);
        }
        &self.0
    }

    /// The wire form, as an owned string.
    pub fn into_string(self) -> (r: String)
        ensures
            r@ == self@,
    {
        self.0.clone()
    }

    /// Whether two digests are one.
    pub fn same_as(&self, other: &Digest) -> (r: bool)
        ensures
            r == (self@ == other@),
    {
        self.0 == other.0
    }

    /// Reads the wire form. Any other text is refused, with the reason.
    pub fn try_from(s: String) -> (r: Result<Self, String>)
        ensures
            match r {
                Ok(d) => is_digest_text(s@) && d@ == s@,
                Err(e) => !is_digest_text(s@) && e@ == (if has_digest_prefix(s@) {
                    "digest is not 64 lowercase hex bytes: "@ + debug_form(s@)
                } else {
                    "digest missing blake3: prefix: "@ + debug_form(s@)
                }),
            },
    {
        let chars = chars_of(&s);
        let prefix = chars_of("blake3:");
        proof {
            reveal_strlit("blake3:");
        }
        let mut i: usize = 0;
        let mut prefixed = chars.len() >= 7;
        while prefixed && i < 7
            invariant
                i <= 7,
                prefixed ==> chars.len() >= 7,
                prefix@.len() == 7,
                prefixed ==> forall|k: int| 0 <= k < i ==> chars@[k] == prefix@[k],
                !prefixed ==> (chars.len() < 7 || chars@.take(7) != prefix@),
            decreases 7 - i, if prefixed { 1int } else { 0 },
        {
            if chars[i] != prefix[i] {
                proof {
                    assert(chars@.take(7)[i as int] != prefix@[i as int]);
                }
                prefixed = false;
            } else {
                i += 1;
            }
        }
        if !prefixed {
            let mut e = "digest missing blake3: prefix: ".to_owned();
            e.append(&debug_text(&s));
            return Err(e);
        }
        proof {
            assert(chars@.take(7) =~= "blake3:"@);
        }
        let mut j: usize = 7;
        let mut fine = chars.len() == 71;
        while fine && j < chars.len()
            invariant
                7 <= j <= chars.len(),
                fine ==> forall|k: int| 7 <= k < j ==> digit_value(#[trigger] chars@[k]) < 16,
                fine ==> chars.len() == 71,
                !fine ==> (chars.len() != 71 || !all_hex(chars@.skip(7))),
            decreases chars.len() - j, if fine { 1int } else { 0 },
        {
            if !is_hex(chars[j]) {
                proof {
                    assert(chars@.skip(7)[j - 7] == chars@[j as int]);
                }
                fine = false;
            } else {
                j += 1;
            }
        }
        if !fine {
            let mut e = "digest is not 64 lowercase hex bytes: ".to_owned();
            e.append(&debug_text(&s));
            return Err(e);
        }
        Ok(Digest(s))
    }
}


// --- Time-ordered identifiers --------------------------------------------------------------------

/// The 16 hexadecimal digit positions of a 128-bit value, most significant first.
pub open spec fn nibble(v: u128, i: int) -> int {
    ((v >> ((124 - 4 * i) as u128)) & 15) as int
}

/// The first `n` of the 32 hexadecimal digits of a value, with a hyphen after the 8th,
/// 12th, 16th and 20th.
pub open spec fn uuid_prefix(v: u128, n: nat) -> Seq<char>
    decreases n,
{
    if n == 0 {
        Seq::empty()
    } else {
        let front = uuid_prefix(v, (n - 1) as nat);
        let grouped = if n == 9 || n == 13 || n == 17 || n == 21 {
            front.push('-')
        } else {
            front
        };
        grouped.push(digit_char(nibble(v, n - 1)))
    }
}

/// The hyphenated form of an identifier, 8-4-4-4-12 digits.
pub open spec fn uuid_text(v: u128) -> Seq<char> {
    uuid_prefix(v, 32)
}

/// The value of a hexadecimal digit in either case; 16 for any other character.
pub open spec fn radix_value(c: char) -> int {
    if 'A' <= c && c <= 'F' {
        c as int - 'A' as int + 10
    } else {
        digit_value(c)
    }
}

/// The number that a row of hexadecimal digits stands for.
pub open spec fn radix_number(s: Seq<char>) -> nat
    decreases s.len(),
{
    if s.len() == 0 {
        0
    } else {
        (radix_number(s.drop_last()) * 16 + radix_value(s.last())) as nat
    }
}

/// Whether a row is one or more hexadecimal digits, with a plus sign before them or not.
pub open spec fn is_radix_number(s: Seq<char>) -> bool {
    let digits = unsigned_part(s);
    digits.len() > 0 && forall|i: int| 0 <= i < digits.len() ==> radix_value(#[trigger] digits[i]) < 16
}

/// What follows an optional plus sign.
pub open spec fn unsigned_part(s: Seq<char>) -> Seq<char> {
    if s.len() > 0 && s[0] == '+' {
        s.skip(1)
    } else {
        s
    }
}

/// A text without its hyphens.
pub open spec fn without_hyphens(s: Seq<char>) -> Seq<char>
    decreases s.len(),
{
    if s.len() == 0 {
        Seq::empty()
    } else if s.last() == '-' {
        without_hyphens(s.drop_last())
    } else {
        without_hyphens(s.drop_last()).push(s.last())
    }
}

/// Time-ordered identifier, minted from injected milliseconds and entropy so that a run is
/// replayable byte for byte: the kernel never reads the wall clock on a deterministic path.
#[derive(Clone, Copy, PartialEq, Eq, Hash, PartialOrd, Ord, Debug, Structural)]
pub struct Uuid7(u128);

impl View for Uuid7 {
    type V = u128;

    closed spec fn view(&self) -> u128 {
        self.0
    }
}

/// The view of an optional identifier.
pub open spec fn opt_uuid(o: Option<Uuid7>) -> Option<u128> {
    match o {
        Some(u) => Some(u@),
        None => None,
    }
}

/// Whether two optional identifiers are one.
pub fn same_uuid(a: &Option<Uuid7>, b: &Option<Uuid7>) -> (r: bool)
    ensures
        r == (opt_uuid(*a) == opt_uuid(*b)),
{
    match (a, b) {
        (Some(x), Some(y)) => x.same_as(y),
        (None, None) => true,
        _ => false,
    }
}

/// Whether two optional digests are one.
pub fn same_digest(a: &Option<Digest>, b: &Option<Digest>) -> (r: bool)
    ensures
        r == (opt_digest(*a) == opt_digest(*b)),
{
    match (a, b) {
        (Some(x), Some(y)) => x.same_as(y),
        (None, None) => true,
        _ => false,
    }
}

/// The value that `mint` gives: 48 bits of milliseconds, the version 7, 12 bits of entropy,
/// the variant 2, and 62 bits of entropy.
pub open spec fn minted(unix_ms: u64, entropy: u128) -> int {
    (unix_ms as int % 0x1_0000_0000_0000) * 0x1_0000_0000_0000_0000_0000
        + 0x7000_0000_0000_0000_0000 + ((entropy as int / 0x1_0000_0000_0000_0000) % 0x1000)
        * 0x1_0000_0000_0000_0000 + 0x8000_0000_0000_0000 + entropy as int
        % 0x4000_0000_0000_0000
}

impl Uuid7 {
    /// `unix_ms` fills the timestamp field; `entropy` fills the rest. Version and variant
    /// bits are forced, so two mints with equal inputs are equal: determinism is the point,
    /// uniqueness is the minting discipline of the caller.
    pub fn mint(unix_ms: u64, entropy: u128) -> (r: Self)
        ensures
            r@ == minted(unix_ms, entropy),
    {
        let ms: u128 = unix_ms as u128;
        let ts: u128 = (ms & 0xFFFF_FFFF_FFFFu128) << 80u128;
        let rand_a: u128 = (entropy >> 64u128) & 0x0FFFu128;
        let rand_b: u128 = entropy & 0x3FFF_FFFF_FFFF_FFFFu128;
        let v: u128 = ts | (0x7u128 << 76u128) | (rand_a << 64u128) | (2u128 << 62u128) | rand_b;
        proof {
            assert(ms & 0xFFFF_FFFF_FFFFu128 == ms % 0x1_0000_0000_0000u128) by (bit_vector);
            assert(rand_a == (entropy / 0x1_0000_0000_0000_0000u128) % 0x1000u128) by (bit_vector)
                requires
                    rand_a == (entropy >> 64u128) & 0x0FFFu128,
            ;
            assert(rand_b == entropy % 0x4000_0000_0000_0000u128) by (bit_vector)
                requires
                    rand_b == entropy & 0x3FFF_FFFF_FFFF_FFFFu128,
            ;
            let t: u128 = ms % 0x1_0000_0000_0000u128;
            assert((t << 80u128) == t * 0x1_0000_0000_0000_0000_0000u128) by (bit_vector)
                requires
                    t < 0x1_0000_0000_0000u128,
            ;
            assert((rand_a << 64u128) == rand_a * 0x1_0000_0000_0000_0000u128) by (bit_vector)
                requires
                    rand_a < 0x1000u128,
            ;
            let ra: u128 = rand_a << 64u128;
            assert(v == ts + 0x7000_0000_0000_0000_0000u128 + ra + 0x8000_0000_0000_0000u128
                + rand_b) by (bit_vector)
                requires
                    v == ts | (0x7u128 << 76u128) | ra | (2u128 << 62u128) | rand_b,
                    ts == t << 80u128,
                    t < 0x1_0000_0000_0000u128,
                    ra == rand_a << 64u128,
                    rand_a < 0x1000u128,
                    rand_b < 0x4000_0000_0000_0000u128,
            ;
        }
        Uuid7(v)
    }

    /// The hyphenated form, in lower case.
    pub fn to_string(&self) -> (r: String)
        ensures
            r@ == uuid_text(self@),
    {
        let mut r = String::new();
        let mut i: usize = 0;
        while i < 32
            invariant
                i <= 32,
                r@ == uuid_prefix(self.0, i as nat),
            decreases 32 - i,
        {
            if i == 8 || i == 12 || i == 16 || i == 20 {
                r.push('-');
            }
            let shift: u128 = (124 - 4 * i) as u128;
            let d: u128 = (self.0 >> shift) & 15u128;
            let v: u128 = self.0;
            proof {
                assert((v >> shift) & 15u128 < 16) by (bit_vector);
            }
            r.push(digit(d as u64));
            i += 1;
        }
        r
    }

    /// Whether two identifiers are one.
    pub fn same_as(&self, other: &Uuid7) -> (r: bool)
        ensures
            r == (self@ == other@),
    {
        self.0 == other.0
    }

    /// Whether `self` was minted before `other`, by value.
    pub fn before(&self, other: &Uuid7) -> (r: bool)
        ensures
            r == (self@ < other@),
    {
        self.0 < other.0
    }

    /// Reads a hyphenated identifier: 36 bytes, of which 32 are left without the hyphens.
    pub fn try_from(s: String) -> (r: Result<Self, String>)
        ensures
            ({
                let digits = without_hyphens(s@);
                let sized = encode_utf8(s@).len() == 36 && encode_utf8(digits).len() == 32;
                match r {
                    Ok(u) => sized && is_radix_number(digits) && u@ == radix_number(
                        unsigned_part(digits),
                    ),
                    Err(e) => if !sized {
                        e@ == "not a hyphenated uuid: "@ + debug_form(s@)
                    } else {
                        &&& !is_radix_number(digits)
                        &&& e@ == "bad uuid "@ + debug_form(s@)
                            + ": invalid digit found in string"@
                    },
                }
            }),
    {
        let chars = chars_of(&s);
        let mut plain = String::new();
        let mut digits: Vec<char> = Vec::new();
        let mut i: usize = 0;
        proof {
            assert(s@.take(0) =~= Seq::<char>::empty());
        }
        while i < chars.len()
            invariant
                i <= chars.len(),
                chars@ == s@,
                plain@ == without_hyphens(s@.take(i as int)),
                digits@ == plain@,
            decreases chars.len() - i,
        {
            proof {
                assert(s@.take(i + 1).drop_last() =~= s@.take(i as int));
            }
            if chars[i] != '-' {
                plain.push(chars[i]);
                digits.push(chars[i]);
            }
            i += 1;
        }
        proof {
            assert(s@.take(s@.len() as int) =~= s@);
        }
        if s.as_str().as_bytes().len() != 36 || plain.as_str().as_bytes().len() != 32 {
            let mut e = "not a hyphenated uuid: ".to_owned();
            e.append(&debug_text(&s));
            return Err(e);
        }
        match radix_16(&digits) {
            Some(v) => Ok(Uuid7(v)),
            None => {
                let mut e = "bad uuid ".to_owned();
                e.append(&debug_text(&s));
                e.append(": invalid digit found in string");
                Err(e)
            },
        }
    }
}

/// Reads a row of at most 32 hexadecimal digits, with a plus sign before them or not.
fn radix_16(digits: &Vec<char>) -> (r: Option<u128>)
    requires
        encode_utf8(digits@).len() == 32,
    ensures
        match r {
            Some(v) => is_radix_number(digits@) && v == radix_number(unsigned_part(digits@)),
            None => !is_radix_number(digits@),
        },
{
    proof {
        chars_at_most_bytes(digits@);
    }
    let start: usize = if digits.len() > 0 && digits[0] == '+' {
        1
    } else {
        0
    };
    let ghost tail = unsigned_part(digits@);
    if digits.len() == start {
        return None;
    }
    let mut v: u128 = 0;
    let mut i: usize = start;
    proof {
        assert(tail.take(0) =~= Seq::<char>::empty());
        pow16_bound(0);
    }
    while i < digits.len()
        invariant
            start <= i <= digits.len(),
            digits.len() <= 32,
            start <= 1,
            tail.len() == digits.len() - start,
            forall|k: int| 0 <= k < tail.len() ==> tail[k] == digits@[k + start],
            forall|k: int| 0 <= k < i - start ==> radix_value(#[trigger] tail[k]) < 16,
            v == radix_number(tail.take(i - start)),
            v < pow16((i - start) as nat),
            tail == unsigned_part(digits@),
        decreases digits.len() - i,
    {
        let c = digits[i];
        proof {
            assert(tail[i - start] == c);
        }
        let d: u128 = if is_hex(c) {
            crate::text::hex_value(c) as u128
        } else if 'A' <= c && c <= 'F' {
            (c as u32 - 65 + 10) as u128
        } else {
            return None;
        };
        proof {
            assert(tail.take(i - start + 1).drop_last() =~= tail.take(i - start));
            pow16_bound((i - start) as nat);
            pow16_bound((i - start + 1) as nat);
        }
        v = v * 16 + d;
        i += 1;
    }
    proof {
        assert(tail.take(tail.len() as int) =~= tail);
    }
    Some(v)
}

/// A text has at most as many characters as bytes.
proof fn chars_at_most_bytes(s: Seq<char>)
    ensures
        s.len() <= encode_utf8(s).len(),
    decreases s.len(),
{
    if s.len() > 0 {
        chars_at_most_bytes(s.drop_first());
    }
}

/// Sixteen to the power `n`.
spec fn pow16(n: nat) -> nat
    decreases n,
{
    if n == 0 {
        1
    } else {
        16 * pow16((n - 1) as nat)
    }
}

proof fn pow16_bound(n: nat)
    requires
        n <= 32,
    ensures
        n > 0 ==> pow16(n) == 16 * pow16((n - 1) as nat),
        pow16(n) <= 0x1_0000_0000_0000_0000 * 0x1_0000_0000_0000_0000,
        0 < pow16(n),
        n < 32 ==> 16 * pow16(n) <= 0x1_0000_0000_0000_0000 * 0x1_0000_0000_0000_0000,
{
    reveal_with_fuel(pow16, 33);
    assert(pow16(32) == 0x1_0000_0000_0000_0000 * 0x1_0000_0000_0000_0000) by {
        reveal_with_fuel(pow16, 33);
    }
    pow16_grows(n, 32);
    if n < 32 {
        pow16_grows(n + 1, 32);
    }
}

proof fn pow16_grows(a: nat, b: nat)
    requires
        a <= b,
    ensures
        0 < pow16(a) <= pow16(b),
    decreases b,
{
    if a < b {
        pow16_grows(a, (b - 1) as nat);
    } else if a > 0 {
        pow16_grows((a - 1) as nat, (a - 1) as nat);
    }
}

/// The hyphenated form of every identifier reads back as that identifier.
pub proof fn uuid_text_reads_back(v: u128)
    ensures
        ({
            let text = uuid_text(v);
            let digits = without_hyphens(text);
            &&& encode_utf8(text).len() == 36
            &&& encode_utf8(digits).len() == 32
            &&& is_radix_number(digits)
            &&& radix_number(unsigned_part(digits)) == v
        }),
{
    uuid_prefix_reads_back(v, 32);
    let digits = without_hyphens(uuid_text(v));
    assert(digits.len() == 32);
    assert(radix_value(digits[0]) < 16);
    assert(unsigned_part(digits) == digits);
    assert(v >> 0u128 == v) by (bit_vector);
    assert(is_ascii_chars(uuid_text(v)));
    is_ascii_chars_encode_utf8(uuid_text(v));
    is_ascii_chars_encode_utf8(digits);
    assert(encode_utf8(uuid_text(v)).len() == uuid_text(v).len());
}

proof fn uuid_prefix_reads_back(v: u128, n: nat)
    requires
        n <= 32,
    ensures
        ({
            let text = uuid_prefix(v, n);
            let digits = without_hyphens(text);
            let hyphens: int = if n <= 8 { 0 } else if n <= 12 { 1 } else if n <= 16 { 2 } else if n
                <= 20 { 3 } else { 4 };
            &&& text.len() == n + hyphens
            &&& digits.len() == n
            &&& is_ascii_chars(text)
            &&& is_ascii_chars(digits)
            &&& forall|i: int| 0 <= i < n ==> radix_value(#[trigger] digits[i]) < 16
            &&& n > 0 ==> radix_number(digits) == v >> ((128 - 4 * n) as u128)
            &&& n == 0 ==> radix_number(digits) == 0
        }),
    decreases n,
{
    if n > 0 {
        let m = (n - 1) as nat;
        uuid_prefix_reads_back(v, m);
        let front = uuid_prefix(v, m);
        let shift = (128 - 4 * n) as u128;
        let d = (v >> shift) & 15u128;
        assert((v >> shift) & 15u128 < 16) by (bit_vector);
        digit_char_value(d as int);
        let c = digit_char(d as int);
        let text = uuid_prefix(v, n);
        assert(c != '-' && radix_value(c) == d);
        if n == 9 || n == 13 || n == 17 || n == 21 {
            assert(front.push('-').drop_last() =~= front);
            assert(without_hyphens(front.push('-')) == without_hyphens(front));
        }
        assert(text.drop_last() =~= if n == 9 || n == 13 || n == 17 || n == 21 {
            front.push('-')
        } else {
            front
        });
        assert(without_hyphens(text) =~= without_hyphens(front).push(c));
        assert(without_hyphens(text).drop_last() =~= without_hyphens(front));
        if m > 0 {
            assert(v >> shift == (v >> ((shift + 4) as u128)) * 16 + d) by (bit_vector)
                requires
                    shift <= 120,
                    d == (v >> shift) & 15u128,
            ;
        } else {
            assert(without_hyphens(front) =~= Seq::<char>::empty());
            assert(v >> 124u128 == (v >> 124u128) & 15u128) by (bit_vector);
        }
    }
}

/// Identifiers minted at an earlier millisecond come before those minted at a later one,
/// as long as both fit the timestamp field, whatever their entropy.
pub proof fn mints_are_ordered_by_time(ms_a: u64, ms_b: u64, entropy_a: u128, entropy_b: u128)
    requires
        ms_a < ms_b < 0x1_0000_0000_0000,
    ensures
        minted(ms_a, entropy_a) < minted(ms_b, entropy_b),
{
}

/// The version digit of every minted identifier is 7, and its variant digit is 8, 9, a or b.
pub proof fn mints_carry_version_and_variant(unix_ms: u64, entropy: u128)
    ensures
        (minted(unix_ms, entropy) / 0x1000_0000_0000_0000_0000) % 16 == 7,
        8 <= (minted(unix_ms, entropy) / 0x1000_0000_0000_0000) % 16 < 12,
{
    let t = unix_ms as int % 0x1_0000_0000_0000;
    let a = (entropy as int / 0x1_0000_0000_0000_0000) % 0x1000;
    let b = entropy as int % 0x4000_0000_0000_0000;
    let v = minted(unix_ms, entropy);
    assert(v == (t * 16 + 7) * 0x1000_0000_0000_0000_0000 + (a * 0x1_0000_0000_0000_0000
        + 0x8000_0000_0000_0000 + b));
    assert(v / 0x1000_0000_0000_0000_0000 == t * 16 + 7) by (nonlinear_arith)
        requires
            v == (t * 16 + 7) * 0x1000_0000_0000_0000_0000 + (a * 0x1_0000_0000_0000_0000
                + 0x8000_0000_0000_0000 + b),
            0 <= a < 0x1000,
            0 <= b < 0x4000_0000_0000_0000,
    ;
    let q = b / 0x1000_0000_0000_0000;
    let w = ((t * 16 + 7) * 0x1000 + a) * 16 + 8 + q;
    assert(v / 0x1000_0000_0000_0000 == w) by (nonlinear_arith)
        requires
            v == w * 0x1000_0000_0000_0000 + b % 0x1000_0000_0000_0000,
    ;
    assert(0 <= q < 4);
}

// --- Fencing axes --------------------------------------------------------------------------------

/// Retry axis: counts the retries of a unit. Starts at 1, strictly increasing, never reused.
#[derive(Clone, Copy, Debug, PartialEq, Eq, Hash, PartialOrd, Ord, Structural)]
pub struct AttemptEpoch(pub u64);

/// Invalidation axis: bumped to end outstanding tokens without minting a new attempt. Not
/// reset by an attempt-epoch increment.
#[derive(Clone, Copy, Debug, PartialEq, Eq, Hash, PartialOrd, Ord, Structural)]
pub struct Stamp(pub u64);

/// Per-control-graph daemon ownership epoch, incremented by one in every takeover claim.
#[derive(Clone, Copy, Debug, PartialEq, Eq, Hash, PartialOrd, Ord, Structural)]
pub struct AuthorityEpoch(pub u64);

// --- Wire identifiers ----------------------------------------------------------------------------

/// Whether a character may stand in a wire identifier.
pub open spec fn is_identifier_char(c: char) -> bool {
    ||| ('A' <= c && c <= 'Z')
    ||| ('a' <= c && c <= 'z')
    ||| ('0' <= c && c <= '9')
    ||| c == '_'
    ||| c == '.'
    ||| c == ':'
    ||| c == '-'
}

/// Whether a text is a wire identifier: 1 to 64 letters, digits, `_`, `.`, `:` or `-`.
pub open spec fn is_wire_identifier(s: Seq<char>) -> bool {
    1 <= s.len() <= 64 && forall|i: int| 0 <= i < s.len() ==> is_identifier_char(#[trigger] s[i])
}

/// Whether a text is a wire identifier.
pub fn valid_wire_identifier(s: &str) -> (r: bool)
    ensures
        r == is_wire_identifier(s@),
{
    let chars = chars_of(s);
    if chars.len() < 1 || chars.len() > 64 {
        return false;
    }
    let mut i: usize = 0;
    while i < chars.len()
        invariant
            i <= chars.len(),
            chars@ == s@,
            forall|k: int| 0 <= k < i ==> is_identifier_char(#[trigger] s@[k]),
        decreases chars.len() - i,
    {
        let c = chars[i];
        if !(('A' <= c && c <= 'Z') || ('a' <= c && c <= 'z') || ('0' <= c && c <= '9') || c == '_'
            || c == '.' || c == ':' || c == '-') {
            return false;
        }
        i += 1;
    }
    true
}

/// What a digit of an identifier is worth: in either case its hexadecimal value, and nothing that counts
/// for any other character.
pub proof fn digits_have_their_value(c: char)
    ensures
        '0' <= c <= '9' ==> radix_value(c) == c as int - 48,
        'a' <= c <= 'f' ==> radix_value(c) == c as int - 87,
        'A' <= c <= 'F' ==> radix_value(c) == c as int - 55,
        !('0' <= c <= '9') && !('a' <= c <= 'f') && !('A' <= c <= 'F') ==> radix_value(c) >= 16,
{
}

} // verus!
