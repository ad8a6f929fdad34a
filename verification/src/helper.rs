use vstd::prelude::*;

verus! {

/// The little-endian four-byte encoding of a 32-bit value.
pub open spec fn u32_le_seq(x: u32) -> Seq<u8> {
    seq![
        (x & 0xff) as u8,
        ((x >> 8) & 0xff) as u8,
        ((x >> 16) & 0xff) as u8,
        ((x >> 24) & 0xff) as u8,
    ]
}

/// Ten to the power `decs_count`.
pub open spec fn dec_factor_spec(decs_count: nat) -> int
    decreases decs_count,
{
    if decs_count == 0 {
        1
    } else {
        10 * dec_factor_spec((decs_count - 1) as nat)
    }
}

pub proof fn lemma_dec_factor_bound(decs_count: nat)
    requires
        decs_count <= 18,
    ensures
        1 <= dec_factor_spec(decs_count) <= 1_000_000_000_000_000_000,
{
    lemma_dec_factor_monotone(decs_count, 18);
    assert(dec_factor_spec(18) == 1_000_000_000_000_000_000) by {
        reveal_with_fuel(dec_factor_spec, 19);
    }
}

pub proof fn lemma_dec_factor_monotone(lo: nat, hi: nat)
    requires
        lo <= hi,
    ensures
        dec_factor_spec(lo) <= dec_factor_spec(hi),
        1 <= dec_factor_spec(lo),
    decreases hi,
{
    if lo == hi {
        lemma_dec_factor_positive(lo);
    } else {
        lemma_dec_factor_monotone(lo, (hi - 1) as nat);
        lemma_dec_factor_positive((hi - 1) as nat);
    }
}

pub proof fn lemma_dec_factor_positive(d: nat)
    ensures
        1 <= dec_factor_spec(d),
    decreases d,
{
    if d > 0 {
        lemma_dec_factor_positive((d - 1) as nat);
    }
}

/// The decimal factor for a token with `decs_count` decimal places.
///
/// A count above 18 would overflow a 64-bit result, so it is excluded.
pub fn get_dec_factor(decs_count: u8) -> (dec: i64)
    requires
        decs_count <= 18,
    ensures
        dec == dec_factor_spec(decs_count as nat),
{
    let mut dec: i64 = 1;
    let mut i: u8 = 0;
    while i < decs_count
        invariant
            i <= decs_count <= 18,
            dec == dec_factor_spec(i as nat),
        decreases decs_count - i,
    {
        proof {
            lemma_dec_factor_bound((i + 1) as nat);
            assert(dec * 10 == dec_factor_spec((i + 1) as nat));
        }
        dec = dec * 10;
        i = i + 1;
    }
    dec
}

/// The 16-byte seed for a spot sub-account: the little-endian encodings of
/// the schema version, the account tag, and the two numeric ids.
pub fn get_seed_bytes_by_id(version: u32, tag: u32, id: u32, id2: u32) -> (res: [u8; 16])
    ensures
        res@ == u32_le_seq(version) + u32_le_seq(tag)
            + u32_le_seq(id) + u32_le_seq(id2),
{
    let res: [u8; 16] = [
        (version & 0xff) as u8,
        ((version >> 8) & 0xff) as u8,
        ((version >> 16) & 0xff) as u8,
        ((version >> 24) & 0xff) as u8,
        (tag & 0xff) as u8,
        ((tag >> 8) & 0xff) as u8,
        ((tag >> 16) & 0xff) as u8,
        ((tag >> 24) & 0xff) as u8,
        (id & 0xff) as u8,
        ((id >> 8) & 0xff) as u8,
        ((id >> 16) & 0xff) as u8,
        ((id >> 24) & 0xff) as u8,
        (id2 & 0xff) as u8,
        ((id2 >> 8) & 0xff) as u8,
        ((id2 >> 16) & 0xff) as u8,
        ((id2 >> 24) & 0xff) as u8,
    ];
    proof {
        assert(res@ =~= u32_le_seq(version) + u32_le_seq(tag)
            + u32_le_seq(id) + u32_le_seq(id2));
    }
    res
}

/// The 8-byte seed for a global sub-account: the little-endian encodings of
/// the schema version and the account tag.
pub fn get_seed_bytes(version: u32, tag: u32) -> (res: [u8; 8])
    ensures
        res@ == u32_le_seq(version) + u32_le_seq(tag),
{
    let res: [u8; 8] = [
        (version & 0xff) as u8,
        ((version >> 8) & 0xff) as u8,
        ((version >> 16) & 0xff) as u8,
        ((version >> 24) & 0xff) as u8,
        (tag & 0xff) as u8,
        ((tag >> 8) & 0xff) as u8,
        ((tag >> 16) & 0xff) as u8,
        ((tag >> 24) & 0xff) as u8,
    ];
    proof {
        assert(res@ =~= u32_le_seq(version) + u32_le_seq(tag));
    }
    res
}

/// The 32-byte seed for a token sub-account: the first 28 bytes of the mint
/// address followed by the little-endian schema version.
pub fn get_token_seed_bytes(version: u32, mint: &[u8; 32]) -> (res: [u8; 32])
    ensures
        res@ == mint@.subrange(0, 28) + u32_le_seq(version),
{
    let res: [u8; 32] = [
        mint[0], mint[1], mint[2], mint[3], mint[4], mint[5], mint[6], mint[7],
        mint[8], mint[9], mint[10], mint[11], mint[12], mint[13], mint[14], mint[15],
        mint[16], mint[17], mint[18], mint[19], mint[20], mint[21], mint[22], mint[23],
        mint[24], mint[25], mint[26], mint[27],
        (version & 0xff) as u8,
        ((version >> 8) & 0xff) as u8,
        ((version >> 16) & 0xff) as u8,
        ((version >> 24) & 0xff) as u8,
    ];
    proof {
        assert(res@ =~= mint@.subrange(0, 28) + u32_le_seq(version));
    }
    res
}

} // verus!
