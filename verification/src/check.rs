use vstd::prelude::*;
use vstd::string::StringExecFns;

verus! {

use md5::Digest;
use md5::Md5;

/// Everything the external decoder yields for one file: the stream's bit
/// depth, the reference checksum embedded in its header, and the fully
/// decoded sample sequence.
pub struct DecodedStream {
    pub bits_per_sample: u32,
    pub md5sum: [u8; 16],
    pub samples: Vec<i32>,
}

/// Outcome of verifying one file.
#[derive(Debug)]
pub enum VerifyOutcome {
    /// The file decoded and its checksum matched, or no checksum was stored.
    Verified,
    /// The file decoded but its checksum did not match the stored one.
    Corrupt(String),
    /// The file could not be checked; the message says why.
    Failed(String),
}

/// The terminal job status an outcome dictates.
pub open spec fn outcome_status(o: VerifyOutcome) -> crate::types::FlacStatus {
    match o {
        VerifyOutcome::Verified => crate::types::FlacStatus::Passed,
        VerifyOutcome::Corrupt(_) => crate::types::FlacStatus::Bad,
        VerifyOutcome::Failed(_) => crate::types::FlacStatus::Error,
    }
}

/// The detail message an outcome carries, if any.
pub open spec fn outcome_msg(o: VerifyOutcome) -> Option<Seq<char>> {
    match o {
        VerifyOutcome::Verified => None,
        VerifyOutcome::Corrupt(m) => Some(m@),
        VerifyOutcome::Failed(m) => Some(m@),
    }
}

impl VerifyOutcome {
    /// Copy an outcome; the status it dictates and its message text carry
    /// over.
    pub fn duplicate(&self) -> (r: Self)
        ensures
            outcome_status(r) == outcome_status(*self),
            outcome_msg(r) == outcome_msg(*self),
    {
        match self {
            VerifyOutcome::Verified => VerifyOutcome::Verified,
            VerifyOutcome::Corrupt(m) => VerifyOutcome::Corrupt(m.clone()),
            VerifyOutcome::Failed(m) => VerifyOutcome::Failed(m.clone()),
        }
    }
}

/// The bit depths for which a byte packing is defined.
pub open spec fn supported_depth(bits: u32) -> bool {
    bits == 8 || bits == 16 || bits == 24 || bits == 32
}

/// A sample's two's-complement value, reinterpreted as unsigned.
pub open spec fn sample_unsigned(sample: i32) -> u32 {
    if sample >= 0 {
        sample as u32
    } else {
        (sample + 0x1_0000_0000) as u32
    }
}

/// The bytes a sample contributes to the checksum stream: the sample in the
/// file's native encoding, little-endian.  8-bit samples are stored unsigned
/// (offset by 128); 16-, 24- and 32-bit samples are stored signed, keeping
/// only the lowest 2, 3 or 4 bytes of the value.
pub open spec fn sample_bytes(sample: i32, bits: u32) -> Seq<u8> {
    let u = sample_unsigned(sample) as int;
    if bits == 8 {
        seq![(((u % 256) + 128) % 256) as u8]
    } else if bits == 16 {
        seq![(u % 256) as u8, ((u / 256) % 256) as u8]
    } else if bits == 24 {
        seq![(u % 256) as u8, ((u / 256) % 256) as u8, ((u / 65536) % 256) as u8]
    } else if bits == 32 {
        seq![
            (u % 256) as u8,
            ((u / 256) % 256) as u8,
            ((u / 65536) % 256) as u8,
            ((u / 16777216) % 256) as u8,
        ]
    } else {
        Seq::empty()
    }
}

/// The whole checksum input: every sample's bytes, in sample order.
pub open spec fn packed_bytes(samples: Seq<i32>, bits: u32) -> Seq<u8>
    decreases samples.len(),
{
    if samples.len() == 0 {
        Seq::empty()
    } else {
        packed_bytes(samples.drop_last(), bits) + sample_bytes(samples.last(), bits)
    }
}

/// What the MD5 digest of a byte sequence is; the checksum itself is
/// computed by the outside hash implementation.
pub uninterp spec fn md5_of(data: Seq<u8>) -> Seq<u8>;

/// Relies on md-5's `Md5` through the `Digest` trait: the digest is a pure
/// function of the input bytes and is 16 bytes long.
#[verifier::external_body]
fn md5_digest(data: &Vec<u8>) -> (r: Vec<u8>)
    ensures
        r@ == md5_of(data@),
        r@.len() == 16,
{
    Md5::digest(data.as_slice()).to_vec()
}

/// Every byte of the sequence is zero.
pub open spec fn all_zero(s: Seq<u8>) -> bool {
    forall|i: int| 0 <= i < s.len() ==> s[i] == 0
}

/// The decimal digit characters of `n`, most significant first.
pub open spec fn dec_digits(n: nat) -> Seq<char>
    decreases n,
{
    if n < 10 {
        seq![dec_digit_char(n)]
    } else {
        dec_digits(n / 10).push(dec_digit_char(n % 10))
    }
}

/// The character for one decimal digit.
pub open spec fn dec_digit_char(d: nat) -> char {
    if d == 0 {
        '0'
    } else if d == 1 {
        '1'
    } else if d == 2 {
        '2'
    } else if d == 3 {
        '3'
    } else if d == 4 {
        '4'
    } else if d == 5 {
        '5'
    } else if d == 6 {
        '6'
    } else if d == 7 {
        '7'
    } else if d == 8 {
        '8'
    } else {
        '9'
    }
}

/// The message recorded for a stream whose bit depth has no byte packing.
pub open spec fn unsupported_msg(bits: u32) -> Seq<char> {
    "unsupported bit depth: "@ + dec_digits(bits as nat)
}

/// The message recorded for a stream whose checksum does not match.
pub open spec fn mismatch_msg() -> Seq<char> {
    "checksum mismatch"@
}

fn digit_str(d: u32) -> (s: &'static str)
    requires
        d < 10,
    ensures
        s@ =~= seq![dec_digit_char(d as nat)],
{
    proof {
        reveal_strlit("0");
        reveal_strlit("1");
        reveal_strlit("2");
        reveal_strlit("3");
        reveal_strlit("4");
        reveal_strlit("5");
        reveal_strlit("6");
        reveal_strlit("7");
        reveal_strlit("8");
        reveal_strlit("9");
    }
    if d == 0 {
        "0"
    } else if d == 1 {
        "1"
    } else if d == 2 {
        "2"
    } else if d == 3 {
        "3"
    } else if d == 4 {
        "4"
    } else if d == 5 {
        "5"
    } else if d == 6 {
        "6"
    } else if d == 7 {
        "7"
    } else if d == 8 {
        "8"
    } else {
        "9"
    }
}

/// Render `n` in decimal.
pub fn u32_string(n: u32) -> (s: String)
    ensures
        s@ == dec_digits(n as nat),
    decreases n,
{
    if n < 10 {
        String::from_str(digit_str(n))
    } else {
        u32_string(n / 10).concat(digit_str(n % 10))
    }
}

/// Append the native-encoding bytes of one sample.
fn push_sample_bytes(out: &mut Vec<u8>, sample: i32, bits: u32)
    requires
        supported_depth(bits),
    ensures
        final(out)@ == old(out)@ + sample_bytes(sample, bits),
{
    let wide: i64 = sample as i64;
    let shifted: i64 = if wide < 0 {
        wide + 0x1_0000_0000
    } else {
        wide
    };
    let u: u32 = shifted as u32;
    assert(u == sample_unsigned(sample));
    if bits == 8 {
        out.push((((u % 256) + 128) % 256) as u8);
    } else if bits == 16 {
        out.push((u % 256) as u8);
        out.push(((u / 256) % 256) as u8);
    } else if bits == 24 {
        out.push((u % 256) as u8);
        out.push(((u / 256) % 256) as u8);
        out.push(((u / 65536) % 256) as u8);
    } else {
        out.push((u % 256) as u8);
        out.push(((u / 256) % 256) as u8);
        out.push(((u / 65536) % 256) as u8);
        out.push(((u / 16777216) % 256) as u8);
    }
    assert(out@ =~= old(out)@ + sample_bytes(sample, bits));
}

proof fn lemma_packed_take_step(samples: Seq<i32>, bits: u32, i: int)
    requires
        0 <= i < samples.len(),
    ensures
        packed_bytes(samples.take(i + 1), bits) == packed_bytes(samples.take(i), bits)
            + sample_bytes(samples[i], bits),
{
    assert(samples.take(i + 1).drop_last() =~= samples.take(i));
    assert(samples.take(i + 1).last() == samples[i]);
}

/// Pack a decoded sample sequence into the byte stream the checksum is
/// computed over.
pub fn pack_samples(samples: &Vec<i32>, bits: u32) -> (out: Vec<u8>)
    requires
        supported_depth(bits) || samples@.len() == 0,
    ensures
        out@ == packed_bytes(samples@, bits),
{
    let mut out: Vec<u8> = Vec::new();
    let n = samples.len();
    let mut i: usize = 0;
    while i < n
        invariant
            n == samples@.len(),
            i <= n,
            supported_depth(bits) || n == 0,
            out@ == packed_bytes(samples@.take(i as int), bits),
        decreases n - i,
    {
        proof {
            lemma_packed_take_step(samples@, bits, i as int);
        }
        push_sample_bytes(&mut out, samples[i], bits);
        i = i + 1;
    }
    proof {
        assert(samples@.take(n as int) =~= samples@);
    }
    out
}

fn is_all_zero(bytes: &[u8; 16]) -> (r: bool)
    ensures
        r == all_zero(bytes@),
{
    let mut i: usize = 0;
    while i < 16
        invariant
            i <= 16,
            forall|k: int| 0 <= k < i ==> bytes@[k] == 0,
        decreases 16 - i,
    {
        if bytes[i] != 0 {
            return false;
        }
        i = i + 1;
    }
    true
}

fn digest_equals(digest: &Vec<u8>, expected: &[u8; 16]) -> (r: bool)
    requires
        digest@.len() == 16,
    ensures
        r == (digest@ == expected@),
{
    let mut i: usize = 0;
    while i < 16
        invariant
            digest@.len() == 16,
            i <= 16,
            forall|k: int| 0 <= k < i ==> digest@[k] == expected@[k],
        decreases 16 - i,
    {
        if digest[i] != expected[i] {
            return false;
        }
        i = i + 1;
    }
    proof {
        assert(digest@ =~= expected@);
    }
    true
}

/// Verify one file from what the decoder yielded.
///
/// A decode failure is recorded as `Failed` with the decoder's message.  A
/// bit depth without a byte packing is recorded as `Failed` once there is a
/// sample to pack.  Otherwise the decoded samples are packed into the
/// native-encoding byte stream and digested; an all-zero reference checksum
/// means none was stored, and decoding alone counts as verification.
pub fn verify_decoded(decoded: Result<DecodedStream, String>) -> (r: VerifyOutcome)
    ensures
        decoded matches Err(e) ==> r == VerifyOutcome::Failed(e),
        decoded matches Ok(d) ==> {
            &&& !supported_depth(d.bits_per_sample) && d.samples@.len() > 0 ==> (r matches
                VerifyOutcome::Failed(m) && m@ == unsupported_msg(d.bits_per_sample))
            &&& supported_depth(d.bits_per_sample) || d.samples@.len() == 0 ==> {
                let digest = md5_of(packed_bytes(d.samples@, d.bits_per_sample));
                if all_zero(d.md5sum@) {
                    r == VerifyOutcome::Verified
                } else if digest == d.md5sum@ {
                    r == VerifyOutcome::Verified
                } else {
                    r matches VerifyOutcome::Corrupt(m) && m@ == mismatch_msg()
                }
            }
        },
{
    match decoded {
        Err(e) => VerifyOutcome::Failed(e),
        Ok(d) => {
            let bits = d.bits_per_sample;
            let supported = bits == 8 || bits == 16 || bits == 24 || bits == 32;
            if !supported && d.samples.len() > 0 {
                let mut message = String::from_str("unsupported bit depth: ");
                message.append(u32_string(bits).as_str());
                return VerifyOutcome::Failed(message);
            }
            let packed = pack_samples(&d.samples, bits);
            let digest = md5_digest(&packed);
            if is_all_zero(&d.md5sum) {
                VerifyOutcome::Verified
            } else if digest_equals(&digest, &d.md5sum) {
                VerifyOutcome::Verified
            } else {
                VerifyOutcome::Corrupt(String::from_str("checksum mismatch"))
            }
        },
    }
}

} // verus!
