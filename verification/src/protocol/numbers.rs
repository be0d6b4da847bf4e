//! The numbers of a message: an integer beyond what every JSON reader holds exactly must travel
//! as a string.
use crate::json::{array_items, Json, JsonView};
use crate::text::chars_of;
use vstd::prelude::*;
use vstd::string::*;

verus! {

/// The greatest integer that every JSON reader holds exactly.
pub const MAX_SAFE_INTEGER: u64 = 9_007_199_254_740_991;

/// How deep a message nests at most.
pub const MAX_DEPTH: u64 = 128;

/// The value of a decimal digit; 0 for any other character.
pub open spec fn digit10(c: char) -> nat {
    if '0' <= c && c <= '9' {
        (c as int - 48) as nat
    } else {
        0
    }
}

/// The number that the first `n` characters stand for, with zeros behind where there are fewer.
pub open spec fn leading(s: Seq<char>, n: nat) -> nat
    decreases n,
{
    if n == 0 {
        0
    } else {
        leading(s, (n - 1) as nat) * 10 + if n <= s.len() {
            digit10(s[n - 1])
        } else {
            0
        }
    }
}

/// The place of the letter before the exponent, from `i` on; the length where there is none.
pub open spec fn exponent_at(s: Seq<char>, i: int) -> int
    decreases s.len() - i,
{
    if i < 0 || i >= s.len() || s[i] == 'e' || s[i] == 'E' {
        i
    } else {
        exponent_at(s, i + 1)
    }
}

/// The exponent that a text behind the letter stands for. More than nine digits count as nine
/// nines.
pub open spec fn exponent_of(s: Seq<char>) -> int {
    let negative = s.len() > 0 && s[0] == '-';
    let digits = if s.len() > 0 && (s[0] == '-' || s[0] == '+') {
        s.skip(1)
    } else {
        s
    };
    let size: int = if digits.len() > 9 {
        999_999_999
    } else {
        leading(digits, digits.len()) as int
    };
    if negative {
        -size
    } else {
        size
    }
}

/// What is read of the characters before the exponent: the digits from the first that is not
/// zero on, and how many of the digits before the point that is, less the zeros behind it.
pub struct Mantissa {
    pub digits: Seq<char>,
    pub scale: int,
    pub pointed: bool,
}

/// Reads one more character of a mantissa.
pub open spec fn step(m: Mantissa, c: char) -> Mantissa {
    if c == '.' {
        Mantissa { pointed: true, ..m }
    } else if c == '-' {
        m
    } else if m.digits.len() == 0 && c == '0' {
        Mantissa {
            scale: if m.pointed {
                m.scale - 1
            } else {
                m.scale
            },
            ..m
        }
    } else {
        Mantissa {
            digits: m.digits.push(c),
            scale: if m.pointed {
                m.scale
            } else {
                m.scale + 1
            },
            ..m
        }
    }
}

/// Reads the characters of a mantissa.
pub open spec fn mantissa(s: Seq<char>) -> Mantissa
    decreases s.len(),
{
    if s.len() == 0 {
        Mantissa { digits: Seq::empty(), scale: 0, pointed: false }
    } else {
        step(mantissa(s.drop_last()), s.last())
    }
}

/// Whether a number that is written with a fraction or an exponent exceeds the safe integers in
/// size: it is 0.`digits` times ten to the scale, and its first digit is not zero. A number of
/// that size that a reader holds is always an integer.
pub open spec fn real_is_large(s: Seq<char>) -> bool {
    let e = exponent_at(s, 0);
    let m = mantissa(s.take(e));
    let scale = m.scale + if e < s.len() {
        exponent_of(s.skip(e + 1))
    } else {
        0
    };
    m.digits.len() > 0 && (scale > 16 || (scale == 16 && leading(m.digits, 16)
        > MAX_SAFE_INTEGER))
}

/// Whether every number of a value is safe, and the value nests no deeper than `depth`.
pub open spec fn numbers_safe(value: JsonView, depth: nat) -> bool
    decreases depth,
{
    match value {
        JsonView::Uint(n) => n <= MAX_SAFE_INTEGER,
        JsonView::Int(n) => -n <= MAX_SAFE_INTEGER,
        JsonView::Real(s) => !real_is_large(s),
        JsonView::Array(items) => depth > 0 && forall|i: int|
            0 <= i < items.len() ==> numbers_safe(#[trigger] items[i], (depth - 1) as nat),
        JsonView::Object(members) => depth > 0 && forall|name: Seq<char>|
            members.dom().contains(name) ==> numbers_safe(
                #[trigger] members[name],
                (depth - 1) as nat,
            ),
        _ => true,
    }
}

fn digit_of(c: char) -> (r: u64)
    ensures
        r == digit10(c),
        r <= 9,
{
    if '0' <= c && c <= '9' {
        c as u64 - 48
    } else {
        0
    }
}

spec fn ten_to(n: nat) -> nat
    decreases n,
{
    if n == 0 {
        1
    } else {
        10 * ten_to((n - 1) as nat)
    }
}

proof fn leading_below(s: Seq<char>, n: nat)
    ensures
        leading(s, n) < ten_to(n),
    decreases n,
{
    if n > 0 {
        leading_below(s, (n - 1) as nat);
    }
}

proof fn ten_ascends(a: nat, b: nat)
    requires
        a <= b,
    ensures
        ten_to(a) <= ten_to(b),
    decreases b - a,
{
    if a < b {
        ten_ascends(a + 1, b);
    }
}

proof fn leading_bound(s: Seq<char>, n: nat)
    requires
        n <= 16,
    ensures
        leading(s, n) < 10_000_000_000_000_000,
        n <= 9 ==> leading(s, n) < 1_000_000_000,
{
    leading_below(s, n);
    ten_ascends(n, 16);
    if n <= 9 {
        ten_ascends(n, 9);
    }
    assert(ten_to(16) == 10_000_000_000_000_000 && ten_to(9) == 1_000_000_000) by {
        reveal_with_fuel(ten_to, 17);
    }
}

/// The number that the first `n` characters stand for.
fn read_leading(s: &Vec<char>, from: usize, n: usize) -> (r: u64)
    requires
        n <= 16,
        from <= s.len(),
    ensures
        r == leading(s@.skip(from as int), n as nat),
        n <= 9 ==> r < 1_000_000_000,
{
    let ghost part = s@.skip(from as int);
    let mut i: usize = 0;
    let mut r: u64 = 0;
    while i < n
        invariant
            i <= n <= 16,
            from <= s.len(),
            part == s@.skip(from as int),
            r == leading(part, i as nat),
        decreases n - i,
    {
        proof {
            leading_bound(part, i as nat);
        }
        let d: u64 = if i < s.len() - from {
            digit_of(s[from + i])
        } else {
            0
        };
        r = r * 10 + d;
        i += 1;
    }
    proof {
        leading_bound(part, n as nat);
    }
    r
}

fn read_exponent(s: &Vec<char>, from: usize) -> (r: i64)
    requires
        from <= s.len(),
    ensures
        r == exponent_of(s@.skip(from as int)),
        -1_000_000_000 < r < 1_000_000_000,
{
    let ghost part = s@.skip(from as int);
    if from == s.len() {
        return 0;
    }
    let negative = s[from] == '-';
    let start: usize = if s[from] == '-' || s[from] == '+' {
        from + 1
    } else {
        from
    };
    proof {
        assert(part[0] == s@[from as int]);
        assert(s@.skip(start as int) =~= if start == from {
            part
        } else {
            part.skip(1)
        });
    }
    let size: i64 = if s.len() - start > 9 {
        999_999_999
    } else {
        read_leading(s, start, s.len() - start) as i64
    };
    if negative {
        -size
    } else {
        size
    }
}

/// Whether a number that is written with a fraction or an exponent exceeds the safe integers in
/// size.
pub fn is_large_real(text: &str) -> (r: bool)
    ensures
        r == real_is_large(text@),
{
    let s = chars_of(text);
    let mut digits: Vec<char> = Vec::new();
    let mut scale: i128 = 0;
    let mut pointed = false;
    let mut i: usize = 0;
    proof {
        assert(s@.take(0) =~= Seq::<char>::empty());
        assert(digits@ =~= Seq::<char>::empty());
    }
    while i < s.len() && s[i] != 'e' && s[i] != 'E'
        invariant
            i <= s.len(),
            exponent_at(s@, 0) == exponent_at(s@, i as int),
            mantissa(s@.take(i as int)) == (Mantissa { digits: digits@, scale: scale as int, pointed }),
            -(i as int) <= scale <= i,
        decreases s.len() - i,
    {
        let c = s[i];
        proof {
            assert(s@.take(i + 1).drop_last() =~= s@.take(i as int));
            assert(s@.take(i + 1).last() == c);
        }
        if c == '.' {
            pointed = true;
        } else if c == '-' {
        } else if digits.len() == 0 && c == '0' {
            if pointed {
                scale = scale - 1;
            }
        } else {
            digits.push(c);
            if !pointed {
                scale = scale + 1;
            }
        }
        i += 1;
    }
    if digits.len() == 0 {
        return false;
    }
    if i < s.len() {
        scale = scale + read_exponent(&s, i + 1) as i128;
    }
    proof {
        assert(digits@.skip(0) =~= digits@);
    }
    scale > 16 || (scale == 16 && read_leading(&digits, 0, 16) > MAX_SAFE_INTEGER)
}

proof fn item_is_safe(tree: Seq<JsonView>, i: int, depth: nat)
    requires
        0 <= i < tree.len(),
        depth > 0,
    ensures
        numbers_safe(JsonView::Array(tree), depth) ==> numbers_safe(tree[i], (depth - 1) as nat),
{
    let v = JsonView::Array(tree);
    assert(v->Array_0 == tree);
    if numbers_safe(v, depth) {
        assert(numbers_safe(v->Array_0[i], (depth - 1) as nat));
    }
}

/// Checks every number of a value.
pub fn numbers_are_safe(value: &Json, depth: u64) -> (r: bool)
    ensures
        r == numbers_safe(value@, depth as nat),
    decreases depth,
{
    match value {
        Json::Uint(n) => *n <= MAX_SAFE_INTEGER,
        Json::Int(n) => *n >= -9_007_199_254_740_991i64,
        Json::Real(s) => !is_large_real(s),
        Json::Array(items) => {
            if depth == 0 {
                return false;
            }
            let ghost tree = value@->Array_0;
            let mut i: usize = 0;
            proof {
                array_items(*value);
            }
            while i < items.len()
                invariant
                    i <= items.len(),
                    depth > 0,
                    value@ == JsonView::Array(tree),
                    tree.len() == items.len(),
                    forall|k: int| 0 <= k < tree.len() ==> tree[k] == (#[trigger] items@[k])@,
                    forall|k: int|
                        0 <= k < i ==> numbers_safe(#[trigger] tree[k], (depth - 1) as nat),
                decreases items.len() - i,
            {
                proof {
                    assert(tree[i as int] == items@[i as int]@);
                }
                if !numbers_are_safe(&items[i], depth - 1) {
                    proof {
                        item_is_safe(tree, i as int, depth as nat);
                    }
                    return false;
                }
                i += 1;
            }
            true
        },
        Json::Object(members) => {
            if depth == 0 {
                return false;
            }
            let ghost tree = value@->Object_0;
            let mut i: usize = 0;
            while i < members.len()
                invariant
                    i <= members.len(),
                    depth > 0,
                    *value == Json::Object(*members),
                    tree == crate::json::member_map(members@),
                    value@ == JsonView::Object(tree),
                    forall|k: int|
                        0 <= k < i ==> numbers_safe(
                            tree[(#[trigger] members@[k]).0@],
                            (depth - 1) as nat,
                        ),
                decreases members.len() - i,
            {
                proof {
                    crate::json::member_is_there(members@, i as int);
                }
                match value.get(&members[i].0) {
                    Some(v) => {
                        if !numbers_are_safe(v, depth - 1) {
                            return false;
                        }
                    },
                    None => {
                        return false;
                    },
                }
                i += 1;
            }
            proof {
                assert forall|name: Seq<char>| tree.dom().contains(name) implies numbers_safe(
                    #[trigger] tree[name],
                    (depth - 1) as nat,
                ) by {
                    crate::json::member_has_place(members@, name);
                    let k = choose|k: int|
                        0 <= k < members@.len() && (#[trigger] members@[k]).0@ == name;
                    assert(members@[k].0@ == name);
                }
            }
            true
        },
        _ => true,
    }
}

/// Checks that every integer of a message lies in the safe range.
pub fn validate_numbers(value: &Json) -> (r: Result<(), String>)
    ensures
        match r {
            Ok(()) => numbers_safe(value@, MAX_DEPTH as nat),
            Err(e) => !numbers_safe(value@, MAX_DEPTH as nat) && e@
                == "JSON integer exceeds the I-JSON safe range; encode it as a string"@,
        },
{
    if numbers_are_safe(value, MAX_DEPTH) {
        Ok(())
    } else {
        Err("JSON integer exceeds the I-JSON safe range; encode it as a string".to_owned())
    }
}

} // verus!
