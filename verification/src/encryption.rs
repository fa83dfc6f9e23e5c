//! Identifier generation and the payload codec: random alphabetic ids, and
//! compress-then-seal framing for payloads at rest.
use aes_gcm::aead::{Aead, KeyInit};
use std::io::{Read, Write};
use vstd::prelude::*;

verus! {

/// A fresh buffer of random bytes.
///
/// Relies on `rand::fill`, which fills the whole slice from the thread's
/// generator; nothing is assumed of the values beyond the length.
#[verifier::external_body]
pub fn random_number(size: usize) -> (r: Vec<u8>)
    ensures
        r@.len() == size,
{
    let mut result: Vec<u8> = vec![0; size];
    rand::fill(&mut result[..]);
    result
}

/// Append one character to a string.
///
/// Relies on `String::push`, which appends exactly the given character.
#[verifier::external_body]
fn push_char(s: &mut String, c: char)
    ensures
        final(s)@ == old(s)@.push(c),
{
    s.push(c)
}

/// The least power of two not below `n` (and at least one).
fn next_power_of_two(n: usize) -> (r: usize)
    requires
        n <= usize::MAX / 2 + 1,
    ensures
        r >= n,
        r >= 1,
{
    let mut p: usize = 1;
    while p < n
        invariant
            1 <= p,
            n <= usize::MAX / 2 + 1,
        decreases 2 * n - p,
    {
        p = p * 2;
    }
    p
}

/// Build an id of `size` characters drawn from `alphabet`, consuming
/// batches of random bytes from `random`: bytes are rejection-sampled
/// against the alphabet for a bounded number of rounds, after which the
/// remaining characters are drawn by reduction, so the call always
/// finishes. The alphabet holds at most 255 characters, so one byte can
/// address all of it, and at least one, so a character can always be
/// drawn.
pub fn generate<F: Fn(usize) -> Vec<u8>>(random: F, alphabet: &[char], size: usize) -> (id: String)
    requires
        1 <= alphabet@.len() <= 255,
        size <= usize::MAX / 8,
        forall|n: usize| random.requires((n,)),
        forall|n: usize, out: Vec<u8>| #[trigger] random.ensures((n,), out) ==> out@.len() == n,
    ensures
        id@.len() == size,
        forall|i: int| 0 <= i < id@.len() ==> alphabet@.contains(#[trigger] id@[i]),
{
    let mask: usize = next_power_of_two(alphabet.len()) - 1;
    let step: usize = 8 * size / 5;
    let mut id = String::new();
    let mut count: usize = 0;
    let mut round: usize = 0;
    while round < 8 && count < size
        invariant
            count <= size,
            count == id@.len(),
            forall|i: int| 0 <= i < id@.len() ==> alphabet@.contains(#[trigger] id@[i]),
            forall|n: usize| random.requires((n,)),
            1 <= alphabet@.len() <= 255,
        decreases 8 - round,
    {
        let bytes = random(step);
        let mut bi: usize = 0;
        while bi < bytes.len() && count < size
            invariant
                count <= size,
                count == id@.len(),
                0 <= bi <= bytes@.len(),
                forall|i: int| 0 <= i < id@.len() ==> alphabet@.contains(#[trigger] id@[i]),
                1 <= alphabet@.len() <= 255,
            decreases bytes@.len() - bi,
        {
            let byte = (bytes[bi] as usize) & mask;
            if alphabet.len() > byte {
                push_char(&mut id, alphabet[byte]);
                assert(alphabet@.contains(id@.last()));
                count += 1;
            }
            bi += 1;
        }
        round += 1;
    }
    while count < size
        invariant
            count <= size,
            count == id@.len(),
            forall|i: int| 0 <= i < id@.len() ==> alphabet@.contains(#[trigger] id@[i]),
            forall|n: usize| random.requires((n,)),
            forall|n: usize, out: Vec<u8>| #[trigger] random.ensures((n,), out) ==> out@.len()
                == n,
            1 <= alphabet@.len() <= 255,
        decreases size - count,
    {
        let bytes = random(1);
        let byte = (bytes[0] as usize) % alphabet.len();
        push_char(&mut id, alphabet[byte]);
        assert(alphabet@.contains(id@.last()));
        count += 1;
    }
    id
}

/// The alphabet connection and request ids are drawn from.
pub open spec fn spec_id_alphabet() -> Seq<char> {
    "0123456789abcdefghijklmnopqrstuvwxyzABCDEFGHIJKLMNOPQRSTUVWXYZ"@
}

/// The characters of the id alphabet, in order.
pub(crate) fn id_alphabet() -> (r: Vec<char>)
    ensures
        r@ == spec_id_alphabet(),
{
    let s = "0123456789abcdefghijklmnopqrstuvwxyzABCDEFGHIJKLMNOPQRSTUVWXYZ";
    proof {
        reveal_strlit("0123456789abcdefghijklmnopqrstuvwxyzABCDEFGHIJKLMNOPQRSTUVWXYZ");
    }
    let mut v: Vec<char> = Vec::new();
    let len = s.unicode_len();
    let mut i: usize = 0;
    while i < len
        invariant
            len == s@.len(),
            s@ == spec_id_alphabet(),
            0 <= i <= len,
            v@ == s@.take(i as int),
        decreases len - i,
    {
        let c = s.get_char(i);
        v.push(c);
        assert(v@ =~= s@.take(i + 1));
        i += 1;
    }
    assert(s@.take(len as int) =~= s@);
    v
}

/// A fresh sixteen-character connection or request id.
pub fn generate_id() -> (r: String)
    ensures
        r@.len() == 16,
        forall|i: int| 0 <= i < r@.len() ==> spec_id_alphabet().contains(#[trigger] r@[i]),
{
    let alphabet = id_alphabet();
    proof {
        reveal_strlit("0123456789abcdefghijklmnopqrstuvwxyzABCDEFGHIJKLMNOPQRSTUVWXYZ");
    }
    generate(random_number, alphabet.as_slice(), 16)
}

/// A batch of fresh request nonces.
pub fn fresh_request_ids(count: usize) -> (r: Vec<String>)
    ensures
        r@.len() == count,
        forall|i: int| 0 <= i < r@.len() ==> (#[trigger] r@[i])@.len() == 16,
{
    let mut out: Vec<String> = Vec::new();
    let mut i: usize = 0;
    while i < count
        invariant
            0 <= i <= count,
            out@.len() == i,
            forall|j: int| 0 <= j < out@.len() ==> (#[trigger] out@[j])@.len() == 16,
        decreases count - i,
    {
        out.push(generate_id());
        i += 1;
    }
    out
}

/// What zlib at best compression makes of a byte sequence; a function of
/// the bytes alone.
pub uninterp spec fn deflate_of(data: Seq<u8>) -> Seq<u8>;

/// Compress a buffer.
///
/// Relies on flate2's `ZlibEncoder` over an in-memory buffer at a fixed
/// level: the output is a function of the input bytes alone, and inflating
/// it yields them back.
#[verifier::external_body]
fn zlib_compress(data: Vec<u8>) -> (r: Vec<u8>)
    ensures
        r@ == deflate_of(data@),
{
    let mut encoder = flate2::write::ZlibEncoder::new(Vec::new(), flate2::Compression::best());
    encoder.write_all(&data).expect("writing to a buffer cannot fail");
    encoder.finish().expect("writing to a buffer cannot fail")
}

/// Whether `r` is what decompression owes for input `data`: whenever the
/// input is the compression of some original, the original comes back.
pub open spec fn inflates_back(data: Seq<u8>, r: Option<Vec<u8>>) -> bool {
    forall|orig: Seq<u8>| data == deflate_of(orig) ==> (r matches Some(v) && v@ == orig)
}

/// Decompress a buffer.
///
/// Relies on flate2's `ZlibDecoder`: inflating what `ZlibEncoder` produced
/// returns the original bytes.
#[verifier::external_body]
fn zlib_decompress(data: &[u8]) -> (r: Option<Vec<u8>>)
    ensures
        inflates_back(data@, r),
{
    let mut decoder = flate2::read::ZlibDecoder::new(data);
    let mut out = Vec::new();
    match decoder.read_to_end(&mut out) {
        Ok(_) => Some(out),
        Err(_) => None,
    }
}

/// What AES-256-GCM makes of a plaintext under a key and nonce; a function
/// of the three alone.
pub uninterp spec fn aes_seal(key: Seq<u8>, nonce: Seq<u8>, plain: Seq<u8>) -> Seq<u8>;

/// Seal a buffer under a 32-byte key and a 12-byte nonce.
///
/// Relies on aes-gcm's `Aes256Gcm`: sealing is deterministic in key, nonce
/// and plaintext, and fails only on plaintexts far larger than this limit.
#[verifier::external_body]
fn aes_encrypt(key: &[u8], nonce: &[u8], data: &[u8]) -> (r: Vec<u8>)
    requires
        key@.len() == 32,
        nonce@.len() == 12,
        data@.len() <= u32::MAX as usize,
    ensures
        r@ == aes_seal(key@, nonce@, data@),
{
    let cipher = aes_gcm::Aes256Gcm::new_from_slice(key).expect("key length checked");
    let nonce = aes_gcm::aead::Nonce::<aes_gcm::Aes256Gcm>::try_from(nonce).expect(
        "nonce length checked",
    );
    cipher.encrypt(&nonce, data).expect("plaintext length checked")
}

/// Whether `r` is what opening owes for a sealed buffer: whenever the
/// buffer is a seal of some plaintext under this key and nonce, that
/// plaintext comes back.
pub open spec fn unseals_back(key: Seq<u8>, nonce: Seq<u8>, data: Seq<u8>, r: Option<Vec<u8>>) -> bool {
    forall|plain: Seq<u8>|
        data == aes_seal(key, nonce, plain) ==> (r matches Some(v) && v@ == plain)
}

/// Open a sealed buffer.
///
/// Relies on aes-gcm's `Aes256Gcm`: opening what `encrypt` sealed under the
/// same key and nonce returns the plaintext; a forged buffer is refused.
#[verifier::external_body]
fn aes_decrypt(key: &[u8], nonce: &[u8], data: &[u8]) -> (r: Option<Vec<u8>>)
    requires
        key@.len() == 32,
        nonce@.len() == 12,
    ensures
        unseals_back(key@, nonce@, data@, r),
{
    let cipher = aes_gcm::Aes256Gcm::new_from_slice(key).expect("key length checked");
    let nonce = aes_gcm::aead::Nonce::<aes_gcm::Aes256Gcm>::try_from(nonce).expect(
        "nonce length checked",
    );
    cipher.decrypt(&nonce, data).ok()
}

/// How an encoded payload reads: compressed or not, then sealed or not,
/// with the twelve-byte nonce in front of the sealed bytes.
pub open spec fn spec_encoded(data: Seq<u8>, compress: bool, key: Option<Vec<u8>>, r: Seq<u8>) -> bool {
    let body = if compress {
        deflate_of(data)
    } else {
        data
    };
    match key {
        Some(k) => r.len() == 12 + aes_seal(k@, r.take(12), body).len() && r.skip(12) == aes_seal(
            k@,
            r.take(12),
            body,
        ),
        None => r == body,
    }
}

/// Encode a payload: compress it if asked, then seal it under the key if
/// one is given, with a fresh nonce in front.
pub fn encode(buffer: Vec<u8>, compress: bool, encrypt: Option<&Vec<u8>>) -> (r: Option<Vec<u8>>)
    requires
        encrypt matches Some(k) ==> k@.len() == 32,
    ensures
        r matches Some(out) ==> spec_encoded(
            buffer@,
            compress,
            match encrypt {
                Some(k) => Some(*k),
                None => None,
            },
            out@,
        ),
{
    let body = if compress {
        zlib_compress(buffer)
    } else {
        buffer
    };
    match encrypt {
        Some(key) => {
            if body.len() > (u32::MAX as usize) {
                return None;
            }
            let nonce = random_number(12);
            let sealed = aes_encrypt(key.as_slice(), nonce.as_slice(), body.as_slice());
            let mut out = nonce;
            let ghost nonce_view = out@;
            let mut i: usize = 0;
            while i < sealed.len()
                invariant
                    0 <= i <= sealed@.len(),
                    out@ == nonce_view + sealed@.take(i as int),
                    nonce_view.len() == 12,
                decreases sealed@.len() - i,
            {
                out.push(sealed[i]);
                assert(out@ =~= nonce_view + sealed@.take(i + 1));
                i += 1;
            }
            assert(sealed@.take(sealed@.len() as int) =~= sealed@);
            assert(out@.take(12) =~= nonce_view);
            assert(out@.skip(12) =~= sealed@);
            Some(out)
        },
        None => Some(body),
    }
}

/// Decode an encoded payload: split off the nonce and open the seal if a
/// key is given, then inflate if the payload was compressed. Returns the
/// original bytes for every buffer `encode` produced from them, and
/// nothing on a forged or torn buffer.
pub fn decode(buffer: Vec<u8>, compress: bool, encrypt: Option<&Vec<u8>>) -> (r: Option<Vec<u8>>)
    requires
        encrypt matches Some(k) ==> k@.len() == 32,
    ensures
        ({
            let key = match encrypt {
                Some(k) => Some(*k),
                None => None,
            };
            forall|orig: Seq<u8>|
                #[trigger] spec_encoded(orig, compress, key, buffer@) ==> (r matches Some(v)
                    && v@ == orig)
        }),
{
    let body: Vec<u8> = match encrypt {
        Some(key) => {
            if buffer.len() < 12 {
                proof {
                    assert forall|orig: Seq<u8>|
                        !spec_encoded(orig, compress, Some(*key), buffer@) by {
                        assert(buffer@.len() < 12);
                    }
                }
                return None;
            }
            let (nonce, sealed) = buffer.split_at(12);
            let opened = aes_decrypt(key.as_slice(), nonce, sealed);
            match opened {
                Some(v) => {
                    proof {
                        assert(nonce@ =~= buffer@.take(12));
                        assert(sealed@ =~= buffer@.skip(12));
                    }
                    v
                },
                None => {
                    proof {
                        assert(nonce@ =~= buffer@.take(12));
                        assert(sealed@ =~= buffer@.skip(12));
                    }
                    return None;
                },
            }
        },
        None => buffer,
    };
    if compress {
        let out = zlib_decompress(body.as_slice());
        out
    } else {
        Some(body)
    }
}

} // verus!
