//! Modified (63,56) Bose-Chaudhuri-Hocquenghem block code: one parity byte
//! for each seven data bytes, and the assembly of BCH codeblocks into a
//! Communications Link Transmission Unit.
use vstd::prelude::*;

verus! {

/// One step of the remainder construction for the generator polynomial
/// x^7 + x^6 + x^2 + 1, held left-shifted by one bit as the constant 0x8A:
/// shift left, and fold the polynomial back in when a one bit falls out.
pub open spec fn bch_step(v: u8) -> u8 {
    if v & 0x80 == 0 {
        v << 1
    } else {
        (v << 1) ^ 0x8A
    }
}

/// `n` iterations of [`bch_step`].
pub open spec fn bch_step_n(v: u8, n: nat) -> u8
    decreases n,
{
    if n == 0 {
        v
    } else {
        bch_step(bch_step_n(v, (n - 1) as nat))
    }
}

/// One entry of the byte-at-a-time remainder table: eight steps of the
/// polynomial division.
pub open spec fn bch_table_entry(v: u8) -> u8 {
    bch_step_n(v, 8)
}

/// Folds the remainder across `s`: each byte is XORed into the running
/// remainder, which is then replaced through the table.
pub open spec fn bch_fold(s: Seq<u8>, acc: u8) -> u8
    decreases s.len(),
{
    if s.len() == 0 {
        acc
    } else {
        bch_fold(s.skip(1), bch_table_entry(s[0] ^ acc))
    }
}

/// The BCH parity byte of a 7-byte block: the folded remainder, logically
/// complemented, with the lowest bit cleared since the code defines only
/// seven parity bits.
pub open spec fn spec_bch_parity(block: Seq<u8>) -> u8 {
    (bch_fold(block, 0) ^ 0xFF) & 0xFE
}

/// The fixed 2-byte CLTU start marker.
pub open spec fn spec_start_sequence() -> Seq<u8> {
    seq![0xEBu8, 0x90u8]
}

/// The fixed 8-byte CLTU tail marker.
pub open spec fn spec_tail_sequence() -> Seq<u8> {
    seq![0xC5u8, 0xC5u8, 0xC5u8, 0xC5u8, 0xC5u8, 0xC5u8, 0xC5u8, 0x79u8]
}

/// A partial final block right-padded to seven bytes with the
/// alternating-bit fill byte 0x55.
pub open spec fn spec_pad7(data: Seq<u8>) -> Seq<u8>
    recommends
        data.len() < 7,
{
    data + Seq::new((7 - data.len()) as nat, |i: int| 0x55u8)
}

/// The sequence of BCH codeblocks for `data`: each full 7-byte block
/// followed by its parity byte, a padded final block for any remainder,
/// and nothing further when the length is an exact multiple of seven.
pub open spec fn spec_cltu_blocks(data: Seq<u8>) -> Seq<u8>
    decreases data.len(),
{
    if data.len() == 0 {
        Seq::empty()
    } else if data.len() >= 7 {
        data.take(7) + seq![spec_bch_parity(data.take(7))] + spec_cltu_blocks(data.skip(7))
    } else {
        spec_pad7(data) + seq![spec_bch_parity(spec_pad7(data))]
    }
}

/// The full Communications Link Transmission Unit for `data`: start
/// marker, BCH codeblocks, tail marker.
pub open spec fn spec_cltu(data: Seq<u8>) -> Seq<u8> {
    spec_start_sequence() + spec_cltu_blocks(data) + spec_tail_sequence()
}

/// The number of BCH codeblocks that `n` data bytes produce.
pub open spec fn spec_num_blocks(n: nat) -> nat {
    ((n + 6) / 7) as nat
}

/// The eighth byte of the `k`-th 8-byte codeblock of `s`, counting from
/// offset `off`, is the BCH parity of the seven bytes before it.
pub open spec fn block_parity_ok(s: Seq<u8>, off: int, k: int) -> bool {
    s[off + 8 * k + 7] == spec_bch_parity(s.subrange(off + 8 * k, off + 8 * k + 7))
}

/// Every CLTU is a start marker, a whole number of 8-byte codeblocks, and
/// a tail marker, and within every codeblock the eighth byte is the BCH
/// parity of the seven before it.
pub proof fn lemma_cltu_structure(data: Seq<u8>)
    ensures
        ({
            let out = spec_cltu(data);
            let n = spec_num_blocks(data.len());
            &&& out.len() == 10 + 8 * n
            &&& out[0] == 0xEB && out[1] == 0x90
            &&& out.subrange(out.len() - 8, out.len() as int) == spec_tail_sequence()
            &&& forall|k: int| 0 <= k < n ==> #[trigger] block_parity_ok(out, 2, k)
        }),
{
    let out = spec_cltu(data);
    let blocks = spec_cltu_blocks(data);
    let n = spec_num_blocks(data.len());
    lemma_cltu_blocks_structure(data);
    assert(out.subrange(out.len() - 8, out.len() as int) =~= spec_tail_sequence());
    assert forall|k: int| 0 <= k < n implies #[trigger] block_parity_ok(out, 2, k) by {
        assert(block_parity_ok(blocks, 0, k));
        assert(out.subrange(2 + 8 * k, 2 + 8 * k + 7) =~= blocks.subrange(8 * k, 8 * k + 7));
        assert(out[2 + 8 * k + 7] == blocks[8 * k + 7]);
    }
}

/// The codeblock sequence for `data` consists of exactly
/// [`spec_num_blocks`] blocks of eight bytes, the eighth byte of each
/// being the BCH parity of the seven before it.
proof fn lemma_cltu_blocks_structure(data: Seq<u8>)
    ensures
        ({
            let blocks = spec_cltu_blocks(data);
            let n = spec_num_blocks(data.len());
            &&& blocks.len() == 8 * n
            &&& forall|k: int| 0 <= k < n ==> #[trigger] block_parity_ok(blocks, 0, k)
        }),
    decreases data.len(),
{
    let blocks = spec_cltu_blocks(data);
    let n = spec_num_blocks(data.len());
    if data.len() == 0 {
    } else if data.len() >= 7 {
        lemma_cltu_blocks_structure(data.skip(7));
        let rest = spec_cltu_blocks(data.skip(7));
        let rest_n = spec_num_blocks(data.skip(7).len());
        assert(n == 1 + rest_n);
        assert forall|k: int| 0 <= k < n implies #[trigger] block_parity_ok(blocks, 0, k) by {
            if k == 0 {
                assert(blocks.subrange(0, 7) =~= data.take(7));
            } else {
                assert(block_parity_ok(rest, 0, k - 1));
                assert(blocks.subrange(8 * k, 8 * k + 7) =~= rest.subrange(
                    8 * (k - 1),
                    8 * (k - 1) + 7,
                ));
                assert(blocks[8 * k + 7] == rest[8 * (k - 1) + 7]);
            }
        }
    } else {
        assert(n == 1);
        assert(blocks.subrange(0, 7) =~= spec_pad7(data));
    }
}

/// Builds the 256-entry remainder table for the generator polynomial.
fn build_table() -> (t: Vec<u8>)
    ensures
        t@.len() == 256,
        forall|i: int| 0 <= i < 256 ==> t@[i] == bch_table_entry(i as u8),
{
    let mut t: Vec<u8> = Vec::new();
    let mut i: usize = 0;
    while i < 256
        invariant
            i <= 256,
            t@.len() == i,
            forall|j: int| 0 <= j < i ==> t@[j] == bch_table_entry(j as u8),
        decreases 256 - i,
    {
        let mut v: u8 = i as u8;
        let mut k: usize = 0;
        while k < 8
            invariant
                k <= 8,
                v == bch_step_n(i as u8, k as nat),
            decreases 8 - k,
        {
            v = if v & 0x80 == 0 {
                v << 1
            } else {
                (v << 1) ^ 0x8A
            };
            k += 1;
        }
        t.push(v);
        i += 1;
    }
    t
}

/// Folds a 7-byte block through the remainder table and finalizes the
/// parity byte.
fn table_parity(table: &Vec<u8>, block: &[u8]) -> (p: u8)
    requires
        table@.len() == 256,
        forall|i: int| 0 <= i < 256 ==> table@[i] == bch_table_entry(i as u8),
        block@.len() == 7,
    ensures
        p == spec_bch_parity(block@),
{
    let mut acc: u8 = 0;
    let mut i: usize = 0;
    assert(block@.skip(0) =~= block@);
    while i < 7
        invariant
            i <= 7,
            block@.len() == 7,
            table@.len() == 256,
            forall|j: int| 0 <= j < 256 ==> table@[j] == bch_table_entry(j as u8),
            bch_fold(block@.skip(i as int), acc) == bch_fold(block@, 0),
        decreases 7 - i,
    {
        let ghost rest = block@.skip(i as int);
        acc = table[(block[i] ^ acc) as usize];
        assert(rest.skip(1) =~= block@.skip(i + 1));
        i += 1;
    }
    assert(block@.skip(7) =~= Seq::<u8>::empty());
    (acc ^ 0xFF) & 0xFE
}

/// Compute the BCH parity byte of a 7-byte block, as used both to generate
/// codeblocks and to verify received ones.
pub fn compute_bch_parity(bytes: &[u8; 7]) -> (r: u8)
    ensures
        r == spec_bch_parity(bytes@),
{
    let table = build_table();
    table_parity(&table, vstd::array::array_as_slice(bytes))
}

/// Assemble the CLTU for `bytes`: the start marker, one codeblock per
/// 7-byte block with a padded final block for any remainder, then the tail
/// marker.
pub fn encode_bch_ctlu(bytes: &[u8]) -> (r: Vec<u8>)
    ensures
        r@ == spec_cltu(bytes@),
{
    let table = build_table();
    let mut output: Vec<u8> = Vec::new();
    output.push(0xEB);
    output.push(0x90);
    assert(output@ =~= spec_start_sequence());
    assert(bytes@.skip(0) =~= bytes@);

    let mut i: usize = 0;
    while bytes.len() - i >= 7
        invariant
            i <= bytes@.len(),
            table@.len() == 256,
            forall|j: int| 0 <= j < 256 ==> table@[j] == bch_table_entry(j as u8),
            output@ + spec_cltu_blocks(bytes@.skip(i as int)) == spec_start_sequence()
                + spec_cltu_blocks(bytes@),
        decreases bytes@.len() - i,
    {
        let ghost rest = bytes@.skip(i as int);
        let ghost out0 = output@;
        let block = vstd::slice::slice_subrange(bytes, i, i + 7);
        let parity = table_parity(&table, block);
        let mut b: usize = 0;
        while b < 7
            invariant
                b <= 7,
                block@.len() == 7,
                output@ == out0 + block@.take(b as int),
            decreases 7 - b,
        {
            output.push(block[b]);
            assert(block@.take(b + 1) =~= block@.take(b as int) + seq![block@[b as int]]);
            b += 1;
        }
        output.push(parity);
        proof {
            assert(block@ =~= rest.take(7));
            assert(block@.take(7) =~= block@);
            assert(rest.skip(7) =~= bytes@.skip(i + 7));
            assert(output@ =~= out0 + rest.take(7) + seq![spec_bch_parity(rest.take(7))]);
            assert(output@ + spec_cltu_blocks(bytes@.skip(i + 7)) =~= out0 + spec_cltu_blocks(
                rest,
            ));
        }
        i += 7;
    }

    proof {
        if i >= bytes@.len() {
            assert(bytes@.skip(i as int) =~= Seq::<u8>::empty());
            assert(output@ =~= spec_start_sequence() + spec_cltu_blocks(bytes@));
        }
    }
    if i < bytes.len() {
        let ghost rest = bytes@.skip(i as int);
        let mut block = vstd::slice::slice_to_vec(vstd::slice::slice_subrange(
            bytes,
            i,
            bytes.len(),
        ));
        assert(block@ =~= spec_pad7(rest).take(block@.len() as int));
        while block.len() < 7
            invariant
                block@.len() <= 7,
                bytes@.len() - i < 7,
                i < bytes@.len(),
                block@.len() >= bytes@.len() - i,
                block@ == spec_pad7(bytes@.skip(i as int)).take(block@.len() as int),
            decreases 7 - block@.len(),
        {
            block.push(0x55);
            assert(block@ =~= spec_pad7(bytes@.skip(i as int)).take(block@.len() as int));
        }
        assert(block@ =~= spec_pad7(rest));
        let ghost out0 = output@;
        let parity = table_parity(&table, block.as_slice());
        let mut b: usize = 0;
        while b < 7
            invariant
                b <= 7,
                block@.len() == 7,
                output@ == out0 + block@.take(b as int),
            decreases 7 - b,
        {
            output.push(block[b]);
            assert(block@.take(b + 1) =~= block@.take(b as int) + seq![block@[b as int]]);
            b += 1;
        }
        output.push(parity);
        proof {
            assert(block@.take(7) =~= block@);
            assert(output@ =~= out0 + spec_pad7(rest) + seq![spec_bch_parity(spec_pad7(rest))]);
            assert(output@ =~= out0 + spec_cltu_blocks(rest));
            assert(output@ =~= spec_start_sequence() + spec_cltu_blocks(bytes@));
        }
    }

    output.push(0xC5);
    output.push(0xC5);
    output.push(0xC5);
    output.push(0xC5);
    output.push(0xC5);
    output.push(0xC5);
    output.push(0xC5);
    output.push(0x79);
    assert(output@ =~= spec_cltu(bytes@));
    output
}

} // verus!
