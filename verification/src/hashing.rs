//! Content hashing for duplicate detection: a fast 64-bit digest for
//! screening and a cryptographic digest for verification, over byte
//! buffers that callers read for us.

use vstd::prelude::*;
use sha2::Digest;
use crate::text::{digit_char, string_from_chars};

verus! {

/// What `xxhash_rust::xxh3::xxh3_64` returns: a 64-bit digest that is
/// a function of the bytes alone.
pub uninterp spec fn xxh3_of(data: Seq<u8>) -> u64;

/// Relies on xxhash_rust::xxh3::xxh3_64: a deterministic digest of
/// the input bytes, with no seed involved.
pub assume_specification [ xxhash_rust::xxh3::xxh3_64 ](input: &[u8]) -> (r: u64)
    ensures
        r == xxh3_of(input@),
;

/// What the SHA-256 digest of a byte sequence is; a function of the
/// bytes alone.
pub uninterp spec fn sha256_of(data: Seq<u8>) -> Seq<u8>;

/// Relies on sha2::Sha256 through Digest::digest: the 32-byte SHA-256
/// digest of the input.
#[verifier::external_body]
fn sha256_digest(data: &Vec<u8>) -> (r: Vec<u8>)
    ensures
        r@ == sha256_of(data@),
        r@.len() == 32,
{
    sha2::Sha256::digest(data.as_slice()).to_vec()
}

/// The lowercase hexadecimal digit for `d`, which must be below 16.
pub open spec fn hex_digit(d: nat) -> char {
    if d < 10 {
        digit_char(d)
    } else {
        (87 + d) as char
    }
}

/// Lowercase hexadecimal rendering of a byte sequence, two digits per
/// byte, high digit first.
pub open spec fn hex_of(bytes: Seq<u8>) -> Seq<char> {
    Seq::new(
        (2 * bytes.len()) as nat,
        |i: int|
            if i % 2 == 0 {
                hex_digit((bytes[i / 2] / 16) as nat)
            } else {
                hex_digit((bytes[i / 2] % 16) as nat)
            },
    )
}

/// Render bytes as lowercase hexadecimal.
pub fn to_hex(bytes: &Vec<u8>) -> (s: String)
    ensures
        s@ == hex_of(bytes@),
{
    let n = bytes.len();
    let mut v: Vec<char> = Vec::new();
    let mut i: usize = 0;
    while i < n
        invariant
            n == bytes@.len(),
            i <= n,
            v@.len() == 2 * i,
            forall|k: int| 0 <= k < 2 * i ==> v@[k] == hex_of(bytes@)[k],
        decreases n - i,
    {
        let b = bytes[i];
        let hi = b / 16;
        let lo = b % 16;
        let hc: char = if hi < 10 {
            ((48 + hi) as char)
        } else {
            ((87 + hi) as char)
        };
        let lc: char = if lo < 10 {
            ((48 + lo) as char)
        } else {
            ((87 + lo) as char)
        };
        v.push(hc);
        v.push(lc);
        i = i + 1;
    }
    proof {
        assert(v@ =~= hex_of(bytes@));
    }
    string_from_chars(&v)
}

/// Compare two byte vectors for equality.
pub fn bytes_eq(a: &Vec<u8>, b: &Vec<u8>) -> (r: bool)
    ensures
        r == (a@ == b@),
{
    if a.len() != b.len() {
        return false;
    }
    let n = a.len();
    let mut i: usize = 0;
    while i < n
        invariant
            n == a@.len() == b@.len(),
            i <= n,
            forall|k: int| 0 <= k < i ==> a@[k] == b@[k],
        decreases n - i,
    {
        if a[i] != b[i] {
            return false;
        }
        i = i + 1;
    }
    proof {
        assert(a@ =~= b@);
    }
    true
}

/// Hashes file contents for duplicate screening and verification.
/// Buffers larger than `max_size` are not hashed.
pub struct ContentHasher {
    /// Largest content size, in bytes, that will be hashed.
    pub max_size: u64,
    /// Read buffer size used when callers stream file contents.
    pub buffer_size: usize,
}

impl ContentHasher {
    /// A hasher that accepts contents up to `max_size` bytes.
    pub fn new(max_size: u64) -> (h: Self)
        ensures
            h.max_size == max_size,
            h.buffer_size == 65536,
    {
        ContentHasher { max_size, buffer_size: 64 * 1024 }
    }

    /// The fast screening digest of `data`, unless it is over the size
    /// bound.
    pub fn quick_hash(&self, data: &Vec<u8>) -> (r: Option<u64>)
        ensures
            data@.len() > self.max_size ==> r is None,
            data@.len() <= self.max_size ==> r == Some(xxh3_of(data@)),
    {
        if data.len() as u64 > self.max_size {
            return None;
        }
        Some(xxhash_rust::xxh3::xxh3_64(data.as_slice()))
    }

    /// The SHA-256 digest of `data` in lowercase hexadecimal, unless it
    /// is over the size bound.
    pub fn sha256_hash(&self, data: &Vec<u8>) -> (r: Option<String>)
        ensures
            data@.len() > self.max_size ==> r is None,
            data@.len() <= self.max_size ==> match r {
                Some(s) => s@ == hex_of(sha256_of(data@)) && s@.len() == 64,
                None => false,
            },
    {
        if data.len() as u64 > self.max_size {
            return None;
        }
        let digest = sha256_digest(data);
        Some(to_hex(&digest))
    }

    /// Both digests of `data`: the screening hash and the hexadecimal
    /// SHA-256.
    pub fn full_hash(&self, data: &Vec<u8>) -> (r: Option<(u64, String)>)
        ensures
            data@.len() > self.max_size ==> r is None,
            data@.len() <= self.max_size ==> match r {
                Some(p) => p.0 == xxh3_of(data@) && p.1@ == hex_of(sha256_of(data@)) && p.1@.len()
                    == 64,
                None => false,
            },
    {
        let quick = self.quick_hash(data)?;
        let secure = self.sha256_hash(data)?;
        Some((quick, secure))
    }

    /// Whether two contents are equal as far as the digests tell:
    /// differing sizes decide at once, then the screening hashes, then
    /// the SHA-256 digests.
    pub fn files_equal(&self, a: &Vec<u8>, b: &Vec<u8>) -> (r: Option<bool>)
        ensures
            a@.len() != b@.len() ==> r == Some(false),
            a@.len() == b@.len() && a@.len() > self.max_size ==> r is None,
            a@.len() == b@.len() && a@.len() <= self.max_size ==> r == Some(
                xxh3_of(a@) == xxh3_of(b@) && sha256_of(a@) == sha256_of(b@),
            ),
    {
        if a.len() != b.len() {
            return Some(false);
        }
        let h1 = match self.quick_hash(a) {
            Some(h) => h,
            None => {
                return None;
            },
        };
        let h2 = match self.quick_hash(b) {
            Some(h) => h,
            None => {
                return None;
            },
        };
        if h1 != h2 {
            return Some(false);
        }
        let d1 = sha256_digest(a);
        let d2 = sha256_digest(b);
        Some(bytes_eq(&d1, &d2))
    }
}

impl Default for ContentHasher {
    /// The default hasher accepts contents up to 100 MiB.
    fn default() -> (h: Self)
        ensures
            h.max_size == 104857600,
            h.buffer_size == 65536,
    {
        ContentHasher::new(100 * 1024 * 1024)
    }
}

} // verus!
