//! Configuration for proving- and verifying-key generation.
//!
//! Key generation itself, structured-reference-string setup, and the
//! on-disk cache are external collaborators; what belongs to the core is
//! the configuration value and the exact cache file names derived from
//! it, which are verified here down to the decimal rendering of the
//! circuit size parameter.

use vstd::prelude::*;
use vstd::utf8::{decode_utf8, encode_utf8, valid_utf8};

verus! {

/// The decimal digits of `n`, as ASCII bytes, most significant first.
pub open spec fn decimal_digits(n: nat) -> Seq<u8>
    decreases n,
{
    if n < 10 {
        seq![(48 + n) as u8]
    } else {
        decimal_digits(n / 10).push((48 + n % 10) as u8)
    }
}

/// The decimal digits of `n`, as characters.
pub open spec fn decimal_chars(n: nat) -> Seq<char> {
    Seq::new(decimal_digits(n).len(), |i: int| decimal_digits(n)[i] as char)
}

/// Decimal digit bytes are ASCII.
pub proof fn lemma_decimal_digits_ascii(n: nat)
    ensures
        forall|i: int|
            0 <= i < decimal_digits(n).len() ==> 48 <= #[trigger] decimal_digits(n)[i] < 58,
    decreases n,
{
    if n >= 10 {
        lemma_decimal_digits_ascii(n / 10);
        assert forall|i: int| 0 <= i < decimal_digits(n).len() implies 48 <= #[trigger]
        decimal_digits(n)[i] < 58 by {
            let prefix = decimal_digits(n / 10);
            assert(decimal_digits(n) == prefix.push((48 + n % 10) as u8));
            if i < prefix.len() {
                assert(decimal_digits(n)[i] == prefix[i]);
            } else {
                assert(decimal_digits(n)[i] == (48 + n % 10) as u8);
            }
        }
    }
}

/// UTF-8 encoding distributes over concatenation.
pub proof fn lemma_encode_utf8_concat(a: Seq<char>, b: Seq<char>)
    ensures
        encode_utf8(a + b) == encode_utf8(a) + encode_utf8(b),
    decreases a.len(),
{
    if a.len() == 0 {
        assert(a + b =~= b);
        assert(Seq::<u8>::empty() + encode_utf8(b) =~= encode_utf8(b));
    } else {
        assert((a + b).drop_first() =~= a.drop_first() + b);
        lemma_encode_utf8_concat(a.drop_first(), b);
        assert((a + b)[0] == a[0]);
        assert(encode_utf8(a + b) == vstd::utf8::encode_scalar((a + b)[0] as u32) + encode_utf8(
            (a + b).drop_first(),
        ));
        assert(encode_utf8(a) == vstd::utf8::encode_scalar(a[0] as u32) + encode_utf8(
            a.drop_first(),
        ));
        assert((vstd::utf8::encode_scalar(a[0] as u32) + encode_utf8(a.drop_first()))
            + encode_utf8(b) =~= vstd::utf8::encode_scalar(a[0] as u32) + (encode_utf8(
            a.drop_first(),
        ) + encode_utf8(b)));
    }
}

/// Append the decimal rendering of `k` to `out`.
fn push_decimal(out: &mut Vec<u8>, k: u32)
    ensures
        final(out)@ == old(out)@ + decimal_digits(k as nat),
{
    let ghost base = out@;
    let mut tmp: Vec<u8> = Vec::new();
    let ghost low = Seq::<u8>::empty();
    let mut low = Ghost(low);
    let mut n: u32 = k;
    while n >= 10
        invariant
            decimal_digits(k as nat) == decimal_digits(n as nat) + low@,
            tmp@.len() == low@.len(),
            forall|i: int| 0 <= i < tmp@.len() ==> tmp@[i] == low@[low@.len() - 1 - i],
        decreases n,
    {
        let d: u8 = 48 + ((n % 10) as u8);
        proof {
            assert(decimal_digits(n as nat) == decimal_digits((n / 10) as nat).push(d));
            assert(decimal_digits((n / 10) as nat).push(d) + low@ =~= decimal_digits(
                (n / 10) as nat,
            ) + (seq![d] + low@));
        }
        tmp.push(d);
        proof {
            low@ = seq![d] + low@;
        }
        n = n / 10;
    }
    let d0: u8 = 48 + (n as u8);
    out.push(d0);
    proof {
        assert(decimal_digits(n as nat) == seq![d0]);
    }
    let mut j: usize = tmp.len();
    while j > 0
        invariant
            0 <= j <= tmp@.len(),
            tmp@.len() == low@.len(),
            forall|i: int| 0 <= i < tmp@.len() ==> tmp@[i] == low@[low@.len() - 1 - i],
            out@ == base + seq![d0] + low@.subrange(0, low@.len() - j),
        decreases j,
    {
        j -= 1;
        out.push(tmp[j]);
        proof {
            assert(tmp@[j as int] == low@[low@.len() - 1 - j]);
            assert(out@ =~= base + seq![d0] + low@.subrange(0, low@.len() - j));
        }
    }
    proof {
        assert(low@.subrange(0, low@.len() as int) =~= low@);
        assert(out@ =~= base + decimal_digits(k as nat));
    }
}

/// Relies on String::from_utf8: on valid UTF-8 input it returns the
/// string holding exactly those bytes, whose characters are their UTF-8
/// decoding.
#[verifier::external_body]
fn string_from_utf8(bytes: Vec<u8>) -> (r: String)
    requires
        valid_utf8(bytes@),
    ensures
        r@ == decode_utf8(bytes@),
{
    String::from_utf8(bytes).unwrap()
}

/// The cache file name for one key artifact: the cache directory, a stem,
/// the decimal circuit size parameter, and the `.bin` suffix.
pub open spec fn spec_cache_path(dir: Seq<char>, stem: Seq<char>, k: u32) -> Seq<char> {
    dir + stem + decimal_chars(k as nat) + ".bin"@
}

/// Build one cache file name.
fn build_cache_path(dir: &String, stem: &str, k: u32) -> (r: String)
    ensures
        r@ == spec_cache_path(dir@, stem@, k),
{
    let mut bytes: Vec<u8> = Vec::new();
    bytes.extend_from_slice(dir.as_str().as_bytes());
    bytes.extend_from_slice(stem.as_bytes());
    push_decimal(&mut bytes, k);
    bytes.extend_from_slice(".bin".as_bytes());
    proof {
        let digits = decimal_digits(k as nat);
        let dchars = decimal_chars(k as nat);
        lemma_decimal_digits_ascii(k as nat);
        assert(vstd::utf8::is_ascii_chars(dchars));
        vstd::utf8::is_ascii_chars_encode_utf8(dchars);
        assert(encode_utf8(dchars) =~= digits);
        lemma_encode_utf8_concat(dir@, stem@);
        lemma_encode_utf8_concat(dir@ + stem@, dchars);
        lemma_encode_utf8_concat(dir@ + stem@ + dchars, ".bin"@);
        assert(bytes@ =~= encode_utf8(dir@ + stem@ + dchars + ".bin"@));
        vstd::utf8::encode_utf8_valid_utf8(dir@ + stem@ + dchars + ".bin"@);
        vstd::utf8::encode_utf8_decode_utf8(dir@ + stem@ + dchars + ".bin"@);
    }
    string_from_utf8(bytes)
}

/// Configuration for key generation.
#[derive(Clone, Debug)]
pub struct KeygenConfig {
    /// Circuit size parameter: the circuit has 2^k rows.
    pub k: u32,
    /// Directory the keys are cached under.
    pub cache_dir: String,
    /// Lookup table width hint for range checks, interpreted by the
    /// backend.
    pub lookup_bits: usize,
}

impl KeygenConfig {
    /// Create a new key generation configuration.
    pub fn new(k: u32, cache_dir: &str, lookup_bits: usize) -> (c: Self)
        ensures
            c.k == k,
            c.cache_dir@ == cache_dir@,
            c.lookup_bits == lookup_bits,
    {
        Self { k, cache_dir: cache_dir.to_owned(), lookup_bits }
    }

    /// The cache file name of the structured-reference-string parameters.
    pub fn params_path(&self) -> (r: String)
        ensures
            r@ == spec_cache_path(self.cache_dir@, "/params_k"@, self.k),
    {
        build_cache_path(&self.cache_dir, "/params_k", self.k)
    }

    /// The cache file name of the verifying key.
    pub fn vk_path(&self) -> (r: String)
        ensures
            r@ == spec_cache_path(self.cache_dir@, "/counter_vk_k"@, self.k),
    {
        build_cache_path(&self.cache_dir, "/counter_vk_k", self.k)
    }

    /// The cache file name of the proving key.
    pub fn pk_path(&self) -> (r: String)
        ensures
            r@ == spec_cache_path(self.cache_dir@, "/counter_pk_k"@, self.k),
    {
        build_cache_path(&self.cache_dir, "/counter_pk_k", self.k)
    }
}

impl Default for KeygenConfig {
    /// The default configuration: 2^17 rows, keys cached under
    /// `.cache/keys`, 8 lookup bits.
    fn default() -> (c: Self)
        ensures
            c.k == 17,
            c.cache_dir@ == ".cache/keys"@,
            c.lookup_bits == 8,
    {
        KeygenConfig::new(17, ".cache/keys", 8)
    }
}

} // verus!
