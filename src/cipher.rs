use vstd::prelude::*;

use crate::error::CryptError;

verus! {

/// Bytewise exclusive or of `data` with `pad`, over the length of `data`.
pub open spec fn xor_bytes(data: Seq<u8>, pad: Seq<u8>) -> Seq<u8> {
    Seq::new(data.len(), |k: int| data[k] ^ pad[k])
}

/// Combines two buffers of equal length byte by byte, in ascending order.
pub(crate) fn xor_equal_length(data: &Vec<u8>, pad: &Vec<u8>) -> (r: Vec<u8>)
    requires
        data@.len() == pad@.len(),
    ensures
        r@ == xor_bytes(data@, pad@),
{
    let mut out: Vec<u8> = Vec::with_capacity(data.len());
    let mut k: usize = 0;
    while k < data.len()
        invariant
            data@.len() == pad@.len(),
            k <= data@.len(),
            out@.len() == k,
            forall|j: int| 0 <= j < k ==> out@[j] == data@[j] ^ pad@[j],
        decreases data@.len() - k,
    {
        out.push(data[k] ^ pad[k]);
        k = k + 1;
    }
    assert(out@ =~= xor_bytes(data@, pad@));
    out
}

/// Combines a pixel buffer with a keystream segment: byte `k` of the result is
/// `data[k] ^ pad[k]`. The same call encrypts and decrypts.
pub fn xor_buffers(data: &Vec<u8>, pad: &Vec<u8>) -> (r: Result<Vec<u8>, CryptError>)
    ensures
        r is Ok <==> data@.len() == pad@.len(),
        r matches Ok(v) ==> v@ == xor_bytes(data@, pad@),
        r matches Err(e) ==> e == CryptError::BufferLengthMismatch,
{
    if data.len() != pad.len() {
        return Err(CryptError::BufferLengthMismatch);
    }
    Ok(xor_equal_length(data, pad))
}

/// Combining twice with the same pad gives the original bytes back.
pub proof fn lemma_xor_involution(data: Seq<u8>, pad: Seq<u8>)
    requires
        data.len() == pad.len(),
    ensures
        xor_bytes(xor_bytes(data, pad), pad) == data,
{
    assert forall|k: int| 0 <= k < data.len() implies #[trigger] xor_bytes(
        xor_bytes(data, pad),
        pad,
    )[k] == data[k] by {
        let x = data[k];
        let p = pad[k];
        assert((x ^ p) ^ p == x) by (bit_vector);
    }
    assert(xor_bytes(xor_bytes(data, pad), pad) =~= data);
}

} // verus!
