use vstd::prelude::*;

use aes::cipher::generic_array::GenericArray;
use aes::cipher::{BlockEncrypt, KeyInit};

verus! {

/// Size in bytes of one cipher block.
pub const BLOCK_SIZE: u128 = 16;

/// The AES-256 encryption, under `key`, of the single block holding the
/// sixteen big-endian bytes of `counter`.
pub uninterp spec fn aes256_counter_block(key: Seq<u8>, counter: u128) -> Seq<u8>;

/// The keystream byte at absolute byte offset `offset`: byte `offset % 16`
/// of the block for counter `offset / 16`.
pub open spec fn keystream_byte(key: Seq<u8>, offset: int) -> u8 {
    aes256_counter_block(key, (offset / 16) as u128)[offset % 16]
}

/// The `len` keystream bytes that start at absolute byte offset `start`.
pub open spec fn keystream(key: Seq<u8>, start: int, len: nat) -> Seq<u8> {
    Seq::new(len, |k: int| keystream_byte(key, start + k))
}

/// One more than the largest counter: the keystream has this many blocks.
pub open spec fn counter_space() -> int {
    u128::MAX as int + 1
}

/// Relies on aes::Aes256 (KeyInit::new, then BlockEncrypt::encrypt_block):
/// encrypts the counter's sixteen big-endian bytes as one block under the key.
#[verifier::external_body]
fn encrypt_counter(key: &[u8; 32], counter: u128) -> (r: [u8; 16])
    ensures
        r@ == aes256_counter_block(key@, counter),
{
    let cipher = aes::Aes256::new(GenericArray::from_slice(key));
    let mut block = GenericArray::clone_from_slice(&counter.to_be_bytes());
    cipher.encrypt_block(&mut block);
    let mut out = [0u8; 16];
    out.copy_from_slice(&block);
    out
}

/// The `length` keystream bytes that start at absolute byte offset
/// `start_offset`. Counters are consecutive and each block is truncated to
/// the bytes that fall in the range, so the result is a pure function of its
/// arguments.
pub fn generate(key: &[u8; 32], start_offset: u128, length: usize) -> (r: Vec<u8>)
    requires
        start_offset + length <= counter_space(),
    ensures
        r@ == keystream(key@, start_offset as int, length as nat),
{
    let mut out: Vec<u8> = Vec::with_capacity(length);
    let mut block: [u8; 16] = [0u8; 16];
    let mut current: u128 = 0;
    let mut have_block = false;
    let mut k: usize = 0;
    while k < length
        invariant
            start_offset + length <= counter_space(),
            k <= length,
            out@.len() == k,
            forall|j: int| 0 <= j < k ==> out@[j] == keystream_byte(key@, start_offset + j),
            have_block ==> block@ == aes256_counter_block(key@, current),
        decreases length - k,
    {
        let pos: u128 = start_offset + k as u128;
        let counter: u128 = pos / BLOCK_SIZE;
        if !have_block || current != counter {
            block = encrypt_counter(key, counter);
            current = counter;
            have_block = true;
        }
        let byte: u8 = block[(pos % BLOCK_SIZE) as usize];
        out.push(byte);
        k = k + 1;
    }
    assert(out@ =~= keystream(key@, start_offset as int, length as nat));
    out
}

/// The keystream does not depend on how a range is cut into pieces: the bytes
/// of `[start, start + a + b)` are those of `[start, start + a)` followed by
/// those of `[start + a, start + a + b)`. Work on a range may therefore be split
/// among any number of workers.
pub proof fn lemma_keystream_split(key: Seq<u8>, start: int, a: nat, b: nat)
    ensures
        keystream(key, start, a + b) == keystream(key, start, a) + keystream(key, start + a, b),
{
    assert(keystream(key, start, a + b) =~= keystream(key, start, a) + keystream(
        key,
        start + a,
        b,
    ));
}

} // verus!
