use vstd::prelude::*;
use crate::model::{
    enc_bytes, enc_i32, enc_input, enc_input_seq, enc_inputs, enc_output, enc_output_seq,
    enc_outputs, enc_str, enc_tx, le8, u32_of_i32, with_clear_id, InputView, OutputView,
};
use crate::transaction::{input_views, output_views, TXInput, TXOutput, Transaction};

verus! {

/// Appends the eight little-endian bytes of `n`.
pub(crate) fn push_u64_le(out: &mut Vec<u8>, n: u64)
    ensures
        final(out)@ == old(out)@ + le8(n as int),
{
    out.push((n % 256) as u8);
    out.push(((n / 0x100) % 256) as u8);
    out.push(((n / 0x10000) % 256) as u8);
    out.push(((n / 0x1000000) % 256) as u8);
    out.push(((n / 0x1_0000_0000) % 256) as u8);
    out.push(((n / 0x100_0000_0000) % 256) as u8);
    out.push(((n / 0x1_0000_0000_0000) % 256) as u8);
    out.push(((n / 0x100_0000_0000_0000) % 256) as u8);
    proof {
        assert(out@ =~= old(out)@ + le8(n as int));
    }
}

/// Appends the four little-endian bytes of the two's-complement word of `v`.
pub(crate) fn push_i32_le(out: &mut Vec<u8>, v: i32)
    ensures
        final(out)@ == old(out)@ + enc_i32(v),
{
    let w: u32 = if v >= 0 {
        v as u32
    } else {
        ((v as i64) + 0x1_0000_0000i64) as u32
    };
    proof {
        assert(w as int == u32_of_i32(v));
    }
    out.push((w % 256) as u8);
    out.push(((w / 0x100) % 256) as u8);
    out.push(((w / 0x10000) % 256) as u8);
    out.push(((w / 0x1000000) % 256) as u8);
    proof {
        assert(out@ =~= old(out)@ + enc_i32(v));
    }
}

/// Appends a byte string: 64-bit length, then the bytes.
pub(crate) fn push_bytes(out: &mut Vec<u8>, b: &[u8])
    ensures
        final(out)@ == old(out)@ + enc_bytes(b@),
{
    let ghost out0 = out@;
    push_u64_le(out, b.len() as u64);
    let n = b.len();
    let mut i: usize = 0;
    while i < n
        invariant
            i <= n,
            n == b@.len(),
            out@ == out0 + le8(b@.len() as int) + b@.take(i as int),
        decreases n - i,
    {
        proof {
            assert(b@.take(i + 1) =~= b@.take(i as int).push(b@[i as int]));
        }
        out.push(b[i]);
        i = i + 1;
    }
    proof {
        assert(b@.take(n as int) =~= b@);
        assert(out@ =~= out0 + enc_bytes(b@));
    }
}

/// Appends a string: its UTF-8 bytes, length-prefixed.
pub(crate) fn push_str(out: &mut Vec<u8>, s: &str)
    ensures
        final(out)@ == old(out)@ + enc_str(s@),
{
    push_bytes(out, s.as_bytes());
}

/// Appends the canonical encoding of one input.
pub(crate) fn encode_input(out: &mut Vec<u8>, input: &TXInput)
    ensures
        final(out)@ == old(out)@ + enc_input(input@),
{
    push_str(out, input.txid.as_str());
    push_i32_le(out, input.vout);
    push_bytes(out, input.signature.as_slice());
    push_bytes(out, input.pub_key.as_slice());
    proof {
        assert(out@ =~= old(out)@ + enc_input(input@));
    }
}

/// Appends the canonical encoding of one output.
pub(crate) fn encode_output(out: &mut Vec<u8>, output: &TXOutput)
    ensures
        final(out)@ == old(out)@ + enc_output(output@),
{
    push_i32_le(out, output.value);
    push_bytes(out, output.pub_key_hash.as_slice());
    proof {
        assert(out@ =~= old(out)@ + enc_output(output@));
    }
}

proof fn lemma_enc_input_seq_take(s: Seq<InputView>, i: int)
    requires
        0 <= i < s.len(),
    ensures
        enc_input_seq(s.take(i + 1)) == enc_input_seq(s.take(i)) + enc_input(s[i]),
{
    assert(s.take(i + 1).drop_last() =~= s.take(i));
    assert(s.take(i + 1).last() == s[i]);
}

proof fn lemma_enc_output_seq_take(s: Seq<OutputView>, i: int)
    requires
        0 <= i < s.len(),
    ensures
        enc_output_seq(s.take(i + 1)) == enc_output_seq(s.take(i)) + enc_output(s[i]),
{
    assert(s.take(i + 1).drop_last() =~= s.take(i));
    assert(s.take(i + 1).last() == s[i]);
}

/// Appends the canonical encoding of the input list.
pub(crate) fn encode_inputs(out: &mut Vec<u8>, vin: &Vec<TXInput>)
    ensures
        final(out)@ == old(out)@ + enc_inputs(input_views(vin@)),
{
    let ghost out0 = out@;
    let ghost views = input_views(vin@);
    push_u64_le(out, vin.len() as u64);
    let n = vin.len();
    let mut i: usize = 0;
    while i < n
        invariant
            i <= n,
            n == vin@.len(),
            views == input_views(vin@),
            views.len() == n,
            out@ == out0 + le8(views.len() as int) + enc_input_seq(views.take(i as int)),
        decreases n - i,
    {
        encode_input(out, &vin[i]);
        proof {
            assert(views[i as int] == vin@[i as int]@);
            lemma_enc_input_seq_take(views, i as int);
        }
        i = i + 1;
    }
    proof {
        assert(views.take(n as int) =~= views);
        assert(out@ =~= out0 + enc_inputs(views));
    }
}

/// Appends the canonical encoding of the output list.
pub(crate) fn encode_outputs(out: &mut Vec<u8>, vout: &Vec<TXOutput>)
    ensures
        final(out)@ == old(out)@ + enc_outputs(output_views(vout@)),
{
    let ghost out0 = out@;
    let ghost views = output_views(vout@);
    push_u64_le(out, vout.len() as u64);
    let n = vout.len();
    let mut i: usize = 0;
    while i < n
        invariant
            i <= n,
            n == vout@.len(),
            views == output_views(vout@),
            views.len() == n,
            out@ == out0 + le8(views.len() as int) + enc_output_seq(views.take(i as int)),
        decreases n - i,
    {
        encode_output(out, &vout[i]);
        proof {
            assert(views[i as int] == vout@[i as int]@);
            lemma_enc_output_seq_take(views, i as int);
        }
        i = i + 1;
    }
    proof {
        assert(views.take(n as int) =~= views);
        assert(out@ =~= out0 + enc_outputs(views));
    }
}

/// The canonical encoding of `tx` taken with its id held empty: exactly the
/// bytes whose digest is the transaction id.
pub(crate) fn encode_tx_cleared(tx: &Transaction) -> (r: Vec<u8>)
    ensures
        r@ == enc_tx(with_clear_id(tx@)),
{
    let mut out: Vec<u8> = Vec::new();
    push_u64_le(&mut out, 0);
    encode_inputs(&mut out, &tx.vin);
    encode_outputs(&mut out, &tx.vout);
    proof {
        assert(vstd::utf8::encode_utf8(Seq::<char>::empty()) =~= Seq::<u8>::empty());
        assert(enc_str(Seq::<char>::empty()) =~= le8(0));
        assert(out@ =~= enc_tx(with_clear_id(tx@)));
    }
    out
}

} // verus!
