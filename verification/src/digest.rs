//! Digests of downloaded and installed files: MD5 for resources, CRC-32
//! for engine files. Both are computed by their crates over the bytes fed
//! in, chunk by chunk, and each is a function of all the bytes fed, so a
//! check on a digest is a check on those bytes. CRC-32 is stated here bit
//! by bit; MD5 is named.

use vstd::prelude::*;

use md5::Digest;

use crate::text::string_of;

verus! {

/// The MD5 digest of `data` (RFC 1321), as md-5 computes it.
pub uninterp spec fn md5_digest(data: Seq<u8>) -> Seq<u8>;

/// `bits` steps of the reflected CRC-32 register: shift right, and xor in
/// the polynomial 0xEDB88320 when a one falls out.
pub open spec fn crc32_shift(r: u32, bits: nat) -> u32
    decreases bits,
{
    if bits == 0 {
        r
    } else {
        let s = crc32_shift(r, (bits - 1) as nat);
        if s & 1 == 1 {
            (s >> 1) ^ 0xEDB8_8320
        } else {
            s >> 1
        }
    }
}

/// The CRC-32 register after `data`, started at all ones.
pub open spec fn crc32_register(data: Seq<u8>) -> u32
    decreases data.len(),
{
    if data.len() == 0 {
        0xFFFF_FFFF
    } else {
        crc32_shift(crc32_register(data.drop_last()) ^ (data.last() as u32), 8)
    }
}

/// The CRC-32 (ISO-HDLC, as zip stores it) of `data`: the register after
/// `data`, inverted.
pub open spec fn crc32_of(data: Seq<u8>) -> u32 {
    crc32_register(data) ^ 0xFFFF_FFFF
}

/// An MD5 computation in progress. md-5's hasher type is a generic wrapper
/// over `typenum` block sizes that Verus cannot declare, so it is held here
/// out of Verus's sight; what it holds is the bytes fed so far.
#[verifier::external_body]
pub struct Md5Stream {
    inner: md5::Md5,
}

/// The bytes fed into an MD5 computation so far.
pub uninterp spec fn md5_fed(s: Md5Stream) -> Seq<u8>;

/// md-5's `Md5::new` (through `Digest`): a computation with nothing fed.
#[verifier::external_body]
fn md5_start() -> (r: Md5Stream)
    ensures
        md5_fed(r) == Seq::<u8>::empty(),
{
    Md5Stream { inner: md5::Md5::new() }
}

/// md-5's `Digest::update`: `chunk` fed after what was fed before.
#[verifier::external_body]
fn md5_feed(s: &mut Md5Stream, chunk: &[u8])
    ensures
        md5_fed(*final(s)) == md5_fed(*old(s)) + chunk@,
{
    s.inner.update(chunk)
}

/// md-5's `Digest::finalize`: the 16-byte digest of all the bytes fed.
#[verifier::external_body]
fn md5_finish(s: Md5Stream) -> (d: Vec<u8>)
    ensures
        d@ == md5_digest(md5_fed(s)),
        d@.len() == 16,
{
    s.inner.finalize().to_vec()
}

#[verifier::external_type_specification]
#[verifier::external_body]
pub struct ExCrc32Hasher(crc32fast::Hasher);

/// The bytes fed into a CRC-32 computation so far.
pub uninterp spec fn crc32_fed(h: crc32fast::Hasher) -> Seq<u8>;

/// crc32fast's `Hasher::new`: a computation with nothing fed.
#[verifier::external_body]
fn crc32_start() -> (r: crc32fast::Hasher)
    ensures
        crc32_fed(r) == Seq::<u8>::empty(),
{
    crc32fast::Hasher::new()
}

/// crc32fast's `Hasher::update`: `chunk` fed after what was fed before.
#[verifier::external_body]
fn crc32_feed(h: &mut crc32fast::Hasher, chunk: &[u8])
    ensures
        crc32_fed(*final(h)) == crc32_fed(*old(h)) + chunk@,
{
    h.update(chunk)
}

/// crc32fast's `Hasher::finalize`: the CRC-32 of all the bytes fed.
#[verifier::external_body]
fn crc32_finish(h: crc32fast::Hasher) -> (c: u32)
    ensures
        c == crc32_of(crc32_fed(h)),
{
    h.finalize()
}

/// One lower-case hex digit.
pub open spec fn hex_digit(d: int) -> char {
    if d < 10 {
        ((48 + d) as u32) as char
    } else {
        ((87 + d) as u32) as char
    }
}

/// Bytes as lower-case hex, two digits each, high nibble first.
pub open spec fn hex_text(d: Seq<u8>) -> Seq<char>
    decreases d.len(),
{
    if d.len() == 0 {
        Seq::empty()
    } else {
        hex_text(d.drop_last()) + seq![hex_digit((d.last() / 16) as int), hex_digit((d.last() % 16) as int)]
    }
}

fn hex_digit_of(d: u8) -> (c: char)
    requires
        d < 16,
    ensures
        c == hex_digit(d as int),
{
    if d < 10 {
        (48u8 + d) as char
    } else {
        (87u8 + d) as char
    }
}

/// Bytes as lower-case hex, the way digests are written down.
pub fn lower_hex(d: &[u8]) -> (r: String)
    ensures
        r@ == hex_text(d@),
{
    let mut out: Vec<char> = Vec::new();
    let mut i: usize = 0;
    while i < d.len()
        invariant
            i <= d@.len(),
            out@ == hex_text(d@.take(i as int)),
        decreases d.len() - i,
    {
        assert(d@.take(i + 1).drop_last() =~= d@.take(i as int));
        out.push(hex_digit_of(d[i] / 16));
        out.push(hex_digit_of(d[i] % 16));
        i = i + 1;
    }
    assert(d@.take(i as int) =~= d@);
    string_of(out.as_slice())
}

impl Md5Stream {
    /// An MD5 computation with nothing fed.
    pub fn new() -> (r: Md5Stream)
        ensures
            md5_fed(r) == Seq::<u8>::empty(),
    {
        md5_start()
    }

    /// Feed the next chunk of the data.
    pub fn feed(&mut self, chunk: &[u8])
        ensures
            md5_fed(*final(self)) == md5_fed(*old(self)) + chunk@,
    {
        md5_feed(self, chunk)
    }

    /// The MD5 of everything fed, in lower-case hex.
    pub fn hex_digest(self) -> (r: String)
        ensures
            r@ == hex_text(md5_digest(md5_fed(self))),
            r@.len() == 32,
    {
        let d = md5_finish(self);
        let r = lower_hex(d.as_slice());
        proof {
            lemma_hex_len(d@);
        }
        r
    }
}

pub proof fn lemma_hex_len(d: Seq<u8>)
    ensures
        hex_text(d).len() == 2 * d.len(),
    decreases d.len(),
{
    if d.len() > 0 {
        lemma_hex_len(d.drop_last());
    }
}

/// A CRC-32 computation in progress.
pub struct Crc32Stream {
    hasher: crc32fast::Hasher,
}

impl Crc32Stream {
    pub closed spec fn fed(&self) -> Seq<u8> {
        crc32_fed(self.hasher)
    }

    /// A CRC-32 computation with nothing fed.
    pub fn new() -> (r: Crc32Stream)
        ensures
            r.fed() == Seq::<u8>::empty(),
    {
        Crc32Stream { hasher: crc32_start() }
    }

    /// Feed the next chunk of the data.
    pub fn feed(&mut self, chunk: &[u8])
        ensures
            final(self).fed() == old(self).fed() + chunk@,
    {
        crc32_feed(&mut self.hasher, chunk)
    }

    /// The CRC-32 of everything fed.
    pub fn value(self) -> (c: u32)
        ensures
            c == crc32_of(self.fed()),
    {
        crc32_finish(self.hasher)
    }
}

} // verus!
