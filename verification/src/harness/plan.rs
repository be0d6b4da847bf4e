//! Trial-plan derivation.
use crate::harness::schema::{Arm, Cell};
use crate::ids::{blake3_hash, blake3_of};
use crate::text::{dec, decimal};
use vstd::prelude::*;
use vstd::string::*;

verus! {

/// The identity of a trial, as text.
pub open spec fn trial_key(root: u64, arm: Arm, cell: Cell, rep: u32) -> Seq<char> {
    dec(root as nat) + "/"@ + arm.label_text() + "/"@ + cell.name_text() + "/"@ + dec(rep as nat)
}

/// The number that the first `n` bytes stand for, least significant first.
pub open spec fn little_endian(bytes: Seq<u8>, n: nat) -> nat
    decreases n,
{
    if n == 0 {
        0
    } else {
        little_endian(bytes, (n - 1) as nat) + bytes[n - 1] as nat * pow256((n - 1) as nat)
    }
}

/// 256 to the power `n`.
pub open spec fn pow256(n: nat) -> nat
    decreases n,
{
    if n == 0 {
        1
    } else {
        256 * pow256((n - 1) as nat)
    }
}

/// The seed of a trial: the first eight bytes of the hash of its identity.
pub open spec fn seed_of(root: u64, arm: Arm, cell: Cell, rep: u32) -> nat {
    little_endian(
        blake3_of(vstd::utf8::encode_utf8(trial_key(root, arm, cell, rep))),
        8,
    )
}

/// The seed of a trial, derived from the root seed and the trial's identity, so that one
/// failing trial replays alone.
pub fn trial_seed(root: u64, arm: &Arm, cell: Cell, rep: u32) -> (r: u64)
    ensures
        r == seed_of(root, *arm, cell, rep),
{
    let mut key = decimal(root);
    key.append("/");
    key.append(&arm.label());
    key.append("/");
    key.append(&cell.name());
    key.append("/");
    key.append(&decimal(rep as u64));
    let hash = blake3_hash(key.as_str().as_bytes());
    let ghost bytes = hash@;
    let mut value: u64 = 0;
    let mut scale: u64 = 1;
    let mut i: usize = 0;
    proof {
        reveal_with_fuel(pow256, 9);
    }
    while i < 8
        invariant
            i <= 8,
            bytes == hash@,
            bytes.len() == 32,
            value == little_endian(bytes, i as nat),
            value < pow256(i as nat),
            i < 8 ==> scale == pow256(i as nat),
            pow256(8) == 0x1_0000_0000_0000_0000,
        decreases 8 - i,
    {
        let b: u64 = hash[i] as u64;
        proof {
            pow256_bound(i as nat);
            assert(b * scale + value < pow256(i as nat + 1)) by (nonlinear_arith)
                requires
                    b <= 255,
                    value < scale,
                    pow256(i as nat + 1) == 256 * scale,
            ;
            assert(b * scale <= b * scale + value);
            assert(b * scale == bytes[i as int] as nat * pow256(i as nat));
        }
        value = value + b * scale;
        i += 1;
        if i < 8 {
            proof {
                pow256_bound(i as nat);
            }
            scale = scale * 256;
        }
    }
    value
}

proof fn pow256_bound(n: nat)
    requires
        n <= 7,
    ensures
        pow256(n + 1) == 256 * pow256(n),
        pow256(n) <= 0x100_0000_0000_0000,
        pow256(n + 1) <= 0x1_0000_0000_0000_0000,
{
    reveal_with_fuel(pow256, 9);
}

/// The seed of a trial is the first eight bytes, least significant first, of the hash of the root, the
/// arm, the cell and the repetition.
pub proof fn seeds_are_of_the_trial(root: u64, arm: Arm, cell: Cell, rep: u32)
    ensures
        ({
            let hash = blake3_of(
                vstd::utf8::encode_utf8(
                    dec(root as nat) + "/"@ + arm.label_text() + "/"@ + cell.name_text() + "/"@
                        + dec(rep as nat),
                ),
            );
            seed_of(root, arm, cell, rep) == hash[0] as nat + hash[1] as nat * 0x100
                + hash[2] as nat * 0x1_0000 + hash[3] as nat * 0x100_0000 + hash[4] as nat
                * 0x1_0000_0000 + hash[5] as nat * 0x100_0000_0000 + hash[6] as nat
                * 0x1_0000_0000_0000 + hash[7] as nat * 0x100_0000_0000_0000
        }),
{
    reveal_with_fuel(little_endian, 9);
    assert(pow256(0) == 1 && pow256(1) == 0x100 && pow256(2) == 0x1_0000 && pow256(3) == 0x100_0000
        && pow256(4) == 0x1_0000_0000 && pow256(5) == 0x100_0000_0000 && pow256(6)
        == 0x1_0000_0000_0000 && pow256(7) == 0x100_0000_0000_0000) by {
        reveal_with_fuel(pow256, 9);
    }
}

} // verus!
