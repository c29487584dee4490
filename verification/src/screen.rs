//! The check that a file passes before it is handed to `symphonia`.
//!
//! The demuxers and decoders of `symphonia` are not proved here, and on some
//! files they do not return. So a file is only opened where its bytes show,
//! by the walk below, that it is of a kind whose reader and decoder were
//! read to the end: a RIFF/WAVE file with samples as PCM integers or IEEE
//! floats, in a plain or an extensible format chunk. Everything else is
//! refused without being opened, audio of other containers and codecs
//! included.
//!
//! The walk goes through the chunks as the WAVE reader does, from the first
//! chunk up to the data chunk, and takes the same steps over padding and
//! lengths. What lies behind the header of the data chunk is not looked at.

use vstd::prelude::*;
use crate::decode::StreamFault;

verus! {

/// The largest length of the RIFF chunk that is let through.
pub const MAX_RIFF_LEN: u64 = 0xffff_fff0;

/// The little-endian 16-bit number at `i`.
pub open spec fn le16(bytes: Seq<u8>, i: int) -> int {
    bytes[i] + 256 * bytes[i + 1]
}

/// The little-endian 32-bit number at `i`.
pub open spec fn le32(bytes: Seq<u8>, i: int) -> int {
    le16(bytes, i) + 65536 * le16(bytes, i + 2)
}

/// Whether the four bytes at `i` are `tag`.
pub open spec fn tag_at(bytes: Seq<u8>, i: int, tag: Seq<u8>) -> bool {
    &&& bytes[i] == tag[0]
    &&& bytes[i + 1] == tag[1]
    &&& bytes[i + 2] == tag[2]
    &&& bytes[i + 3] == tag[3]
}

pub open spec fn tag_riff() -> Seq<u8> {
    seq![0x52u8, 0x49, 0x46, 0x46]
}

pub open spec fn tag_wave() -> Seq<u8> {
    seq![0x57u8, 0x41, 0x56, 0x45]
}

pub open spec fn tag_format() -> Seq<u8> {
    seq![0x66u8, 0x6d, 0x74, 0x20]
}

pub open spec fn tag_fact() -> Seq<u8> {
    seq![0x66u8, 0x61, 0x63, 0x74]
}

pub open spec fn tag_list() -> Seq<u8> {
    seq![0x4cu8, 0x49, 0x53, 0x54]
}

pub open spec fn tag_data() -> Seq<u8> {
    seq![0x64u8, 0x61, 0x74, 0x61]
}

/// The number of ones among the lowest `bits` binary digits of `mask`.
pub open spec fn ones(mask: int, bits: nat) -> int
    decreases bits,
{
    if bits == 0 {
        0
    } else {
        mask % 2 + ones(mask / 2, (bits - 1) as nat)
    }
}

/// Whether the sixteen bytes at `i` are the sub-format identifier that
/// begins with `first`: that of PCM integers with 1, that of IEEE floats
/// with 3.
pub open spec fn sub_format_at(bytes: Seq<u8>, i: int, first: u8) -> bool {
    bytes.subrange(i, i + 16) == seq![
        first,
        0u8,
        0,
        0,
        0,
        0,
        0x10,
        0,
        0x80,
        0,
        0,
        0xaa,
        0,
        0x38,
        0x9b,
        0x71,
    ]
}

/// Why the extensible format chunk whose fields stand at `at`, in a chunk of
/// `len` bytes, is not let through; `None` where it is. It holds 40 bytes, of
/// which 22 are the extension; its channel mask names as many channels as
/// the chunk counts; and its sub-format is PCM integers in a container of 8,
/// 16, 24 or 32 bits, or IEEE floats of 32 or 64 bits that are all valid.
pub open spec fn extensible_fault(bytes: Seq<u8>, at: int, len: int) -> Option<StreamFault> {
    let channels = le16(bytes, at + 2);
    let rate = le32(bytes, at + 4);
    let container = le16(bytes, at + 14);
    let valid = le16(bytes, at + 18);
    if len != 40 || rate == 0 || channels < 1 || channels > 32 || le16(bytes, at + 16) != 22 {
        Some(StreamFault::Malformed)
    } else if ones(le32(bytes, at + 20), 32) != channels || valid > container {
        Some(StreamFault::Malformed)
    } else if sub_format_at(bytes, at + 24, 1) {
        if container == 8 || container == 16 || container == 24 || container == 32 {
            None
        } else {
            Some(StreamFault::Unsupported)
        }
    } else if sub_format_at(bytes, at + 24, 3) {
        if (container == 32 || container == 64) && valid == container {
            None
        } else {
            Some(StreamFault::Unsupported)
        }
    } else {
        Some(StreamFault::Unsupported)
    }
}

/// Why the format chunk whose fields stand at `at`, in a chunk of `len`
/// bytes, is not let through; `None` where it is. Let through are PCM
/// integers of 8, 16, 24 or 32 bits and IEEE floats of 32 or 64 bits, in a
/// chunk of 16, 18 or 40 bytes, with 1 to 32 channels and a sample rate
/// above zero, and what [`extensible_fault`] lets through. Any other codec
/// is not supported.
pub open spec fn format_fault(bytes: Seq<u8>, at: int, len: int) -> Option<StreamFault> {
    let tag = le16(bytes, at);
    let channels = le16(bytes, at + 2);
    let rate = le32(bytes, at + 4);
    let bits = le16(bytes, at + 14);
    if len < 16 {
        Some(StreamFault::Malformed)
    } else if tag == 0xfffe {
        extensible_fault(bytes, at, len)
    } else if tag != 1 && tag != 3 {
        Some(StreamFault::Unsupported)
    } else if len != 16 && len != 18 && len != 40 {
        Some(StreamFault::Malformed)
    } else if rate == 0 || channels < 1 || channels > 32 {
        Some(StreamFault::Malformed)
    } else if tag == 1 {
        if bits == 8 || bits == 16 || bits == 24 || bits == 32 {
            None
        } else {
            Some(StreamFault::Unsupported)
        }
    } else if bits != 32 && bits != 64 {
        Some(StreamFault::Unsupported)
    } else if len == 18 && le16(bytes, at + 16) != 0 {
        Some(StreamFault::Malformed)
    } else {
        None
    }
}

/// Where the walk stands after one chunk.
pub enum Walk {
    /// The next chunk header is looked for at `pos`, with `consumed` bytes
    /// of the RIFF chunk counted.
    Next { pos: int, consumed: int },
    /// The data chunk was reached.
    Accept,
    /// The file is not let through.
    Refuse(StreamFault),
}

/// One step of the walk: over the padding byte after a chunk of odd length,
/// then over one chunk. A chunk has to lie within the RIFF chunk and, but
/// for the data chunk, within the file. A format chunk has to be one that is
/// let through; a fact chunk holds four bytes; a list chunk holds its form
/// and is of even length; a chunk of any other kind is stepped over.
pub open spec fn step(bytes: Seq<u8>, pos: int, consumed: int, riff: int) -> Walk {
    let pad: int = if consumed % 2 == 1 {
        1
    } else {
        0
    };
    let head = pos + pad;
    let body = head + 8;
    let counted = consumed + pad + 8;
    if counted > riff || body > bytes.len() {
        Walk::Refuse(StreamFault::Malformed)
    } else {
        let len = le32(bytes, head + 4);
        let next = Walk::Next { pos: body + len, consumed: counted + len };
        if len > riff - counted {
            Walk::Refuse(StreamFault::Malformed)
        } else if tag_at(bytes, head, tag_data()) {
            Walk::Accept
        } else if body + len > bytes.len() {
            Walk::Refuse(StreamFault::Malformed)
        } else if tag_at(bytes, head, tag_format()) {
            match format_fault(bytes, body, len) {
                Some(fault) => Walk::Refuse(fault),
                None => next,
            }
        } else if tag_at(bytes, head, tag_fact()) {
            if len == 4 {
                next
            } else {
                Walk::Refuse(StreamFault::Malformed)
            }
        } else if tag_at(bytes, head, tag_list()) {
            if len >= 4 && len % 2 == 0 {
                next
            } else {
                Walk::Refuse(StreamFault::Malformed)
            }
        } else {
            next
        }
    }
}

/// Why the walk from `pos` on does not reach the data chunk; `None` where it
/// does.
pub open spec fn walk(bytes: Seq<u8>, pos: int, consumed: int, riff: int) -> Option<StreamFault>
    decreases bytes.len() - pos,
{
    match step(bytes, pos, consumed, riff) {
        Walk::Accept => None,
        Walk::Refuse(fault) => Some(fault),
        Walk::Next { pos: next, consumed: counted } => if pos < next <= bytes.len() {
            walk(bytes, next, counted, riff)
        } else {
            Some(StreamFault::Malformed)
        },
    }
}

/// Why `bytes` are not opened; `None` where they are. A file that does not
/// begin as RIFF/WAVE is not supported; one whose RIFF chunk claims more
/// than [`MAX_RIFF_LEN`] bytes is malformed; for any other the walk decides.
pub open spec fn refusal(bytes: Seq<u8>) -> Option<StreamFault> {
    if bytes.len() < 12 || !tag_at(bytes, 0, tag_riff()) || !tag_at(bytes, 8, tag_wave()) {
        Some(StreamFault::Unsupported)
    } else if le32(bytes, 4) > MAX_RIFF_LEN {
        Some(StreamFault::Malformed)
    } else {
        walk(bytes, 12, 0, le32(bytes, 4))
    }
}

/// Whether `bytes` may be opened.
pub open spec fn admissible(bytes: Seq<u8>) -> bool {
    refusal(bytes) is None
}

/// Where the walk stands after one chunk, in machine numbers.
enum Stand {
    Next(usize, u64),
    Accept,
    Refuse(StreamFault),
}

impl Stand {
    spec fn view(self) -> Walk {
        match self {
            Stand::Next(pos, consumed) => Walk::Next { pos: pos as int, consumed: consumed as int },
            Stand::Accept => Walk::Accept,
            Stand::Refuse(fault) => Walk::Refuse(fault),
        }
    }
}

fn read16(bytes: &[u8], i: usize) -> (n: u64)
    requires
        i + 2 <= bytes@.len(),
    ensures
        n == le16(bytes@, i as int),
        n <= 0xffff,
{
    bytes[i] as u64 + 256 * (bytes[i + 1] as u64)
}

fn read32(bytes: &[u8], i: usize) -> (n: u64)
    requires
        i + 4 <= bytes@.len(),
    ensures
        n == le32(bytes@, i as int),
        n <= 0xffff_ffff,
{
    let n: usize = bytes.len();
    assert(i + 4 <= n);
    read16(bytes, i) + 65536 * read16(bytes, i + 2)
}

fn has_tag(bytes: &[u8], i: usize, a: u8, b: u8, c: u8, d: u8) -> (found: bool)
    requires
        i + 4 <= bytes@.len(),
    ensures
        found == tag_at(bytes@, i as int, seq![a, b, c, d]),
{
    bytes[i] == a && bytes[i + 1] == b && bytes[i + 2] == c && bytes[i + 3] == d
}

fn count_ones(mask: u64) -> (n: u64)
    requires
        mask <= 0xffff_ffff,
    ensures
        n == ones(mask as int, 32),
        n <= 32,
{
    let mut rest: u64 = mask;
    let mut n: u64 = 0;
    let mut k: u32 = 0;
    while k < 32
        invariant
            k <= 32,
            n <= k,
            n + ones(rest as int, (32 - k) as nat) == ones(mask as int, 32),
        decreases 32 - k,
    {
        n = n + rest % 2;
        rest = rest / 2;
        k = k + 1;
    }
    n
}

fn has_sub_format(bytes: &[u8], i: usize, first: u8) -> (found: bool)
    requires
        i + 16 <= bytes@.len(),
    ensures
        found == sub_format_at(bytes@, i as int, first),
{
    let n: usize = bytes.len();
    let found = bytes[i] == first && bytes[i + 1] == 0 && bytes[i + 2] == 0 && bytes[i + 3] == 0
        && bytes[i + 4] == 0 && bytes[i + 5] == 0 && bytes[i + 6] == 0x10 && bytes[i + 7] == 0
        && bytes[i + 8] == 0x80 && bytes[i + 9] == 0 && bytes[i + 10] == 0 && bytes[i + 11] == 0xaa
        && bytes[i + 12] == 0 && bytes[i + 13] == 0x38 && bytes[i + 14] == 0x9b && bytes[i + 15]
        == 0x71;
    proof {
        let want = seq![
            first,
            0u8,
            0,
            0,
            0,
            0,
            0x10,
            0,
            0x80,
            0,
            0,
            0xaa,
            0,
            0x38,
            0x9b,
            0x71,
        ];
        let have = bytes@.subrange(i as int, i + 16);
        if found {
            assert(have =~= want);
        } else {
            if have == want {
                assert(have[0] == want[0] && have[1] == want[1] && have[2] == want[2] && have[3]
                    == want[3] && have[4] == want[4] && have[5] == want[5] && have[6] == want[6]
                    && have[7] == want[7] && have[8] == want[8] && have[9] == want[9] && have[10]
                    == want[10] && have[11] == want[11] && have[12] == want[12] && have[13]
                    == want[13] && have[14] == want[14] && have[15] == want[15]);
            }
        }
    }
    found
}

fn check_extensible(bytes: &[u8], at: usize, len: u64) -> (fault: Option<StreamFault>)
    requires
        at + len <= bytes@.len(),
        len >= 16,
    ensures
        fault == extensible_fault(bytes@, at as int, len as int),
{
    if len != 40 {
        return Some(StreamFault::Malformed);
    }
    let n: usize = bytes.len();
    assert(at + 40 <= n);
    let channels: u64 = read16(bytes, at + 2);
    let rate: u64 = read32(bytes, at + 4);
    let container: u64 = read16(bytes, at + 14);
    let valid: u64 = read16(bytes, at + 18);
    if rate == 0 || channels < 1 || channels > 32 || read16(bytes, at + 16) != 22 {
        Some(StreamFault::Malformed)
    } else if count_ones(read32(bytes, at + 20)) != channels || valid > container {
        Some(StreamFault::Malformed)
    } else if has_sub_format(bytes, at + 24, 1) {
        if container == 8 || container == 16 || container == 24 || container == 32 {
            None
        } else {
            Some(StreamFault::Unsupported)
        }
    } else if has_sub_format(bytes, at + 24, 3) {
        if (container == 32 || container == 64) && valid == container {
            None
        } else {
            Some(StreamFault::Unsupported)
        }
    } else {
        Some(StreamFault::Unsupported)
    }
}

fn check_format(bytes: &[u8], at: usize, len: u64) -> (fault: Option<StreamFault>)
    requires
        at + len <= bytes@.len(),
    ensures
        fault == format_fault(bytes@, at as int, len as int),
{
    if len < 16 {
        return Some(StreamFault::Malformed);
    }
    let n: usize = bytes.len();
    assert(at + 16 <= n);
    let tag: u64 = read16(bytes, at);
    let channels: u64 = read16(bytes, at + 2);
    let rate: u64 = read32(bytes, at + 4);
    let bits: u64 = read16(bytes, at + 14);
    if tag == 0xfffe {
        check_extensible(bytes, at, len)
    } else if tag != 1 && tag != 3 {
        Some(StreamFault::Unsupported)
    } else if len != 16 && len != 18 && len != 40 {
        Some(StreamFault::Malformed)
    } else if rate == 0 || channels < 1 || channels > 32 {
        Some(StreamFault::Malformed)
    } else if tag == 1 {
        if bits == 8 || bits == 16 || bits == 24 || bits == 32 {
            None
        } else {
            Some(StreamFault::Unsupported)
        }
    } else if bits != 32 && bits != 64 {
        Some(StreamFault::Unsupported)
    } else if len == 18 && read16(bytes, at + 16) != 0 {
        Some(StreamFault::Malformed)
    } else {
        None
    }
}

fn take_step(bytes: &[u8], pos: usize, consumed: u64, riff: u64) -> (stand: Stand)
    requires
        pos <= bytes@.len(),
        consumed <= riff + 1,
        riff <= MAX_RIFF_LEN,
    ensures
        stand.view() == step(bytes@, pos as int, consumed as int, riff as int),
        stand matches Stand::Next(next, counted) ==> pos < next <= bytes@.len() && counted <= riff,
{
    let n: usize = bytes.len();
    let pad: u64 = consumed % 2;
    let counted: u64 = consumed + pad + 8;
    if counted > riff || n - pos < 9 && (pad == 1 || n - pos < 8) {
        return Stand::Refuse(StreamFault::Malformed);
    }
    let head: usize = if pad == 1 {
        pos + 1
    } else {
        pos
    };
    let body: usize = head + 8;
    let len: u64 = read32(bytes, head + 4);
    if len > riff - counted {
        return Stand::Refuse(StreamFault::Malformed);
    }
    if has_tag(bytes, head, 0x64, 0x61, 0x74, 0x61) {
        return Stand::Accept;
    }
    if len > (n - body) as u64 {
        return Stand::Refuse(StreamFault::Malformed);
    }
    let next = Stand::Next(body + len as usize, counted + len);
    if has_tag(bytes, head, 0x66, 0x6d, 0x74, 0x20) {
        match check_format(bytes, body, len) {
            Some(fault) => Stand::Refuse(fault),
            None => next,
        }
    } else if has_tag(bytes, head, 0x66, 0x61, 0x63, 0x74) {
        if len == 4 {
            next
        } else {
            Stand::Refuse(StreamFault::Malformed)
        }
    } else if has_tag(bytes, head, 0x4c, 0x49, 0x53, 0x54) {
        if len >= 4 && len % 2 == 0 {
            next
        } else {
            Stand::Refuse(StreamFault::Malformed)
        }
    } else {
        next
    }
}

/// Tells why `bytes` are not opened, or that they are.
pub fn screen(bytes: &[u8]) -> (fault: Option<StreamFault>)
    ensures
        fault == refusal(bytes@),
{
    let n: usize = bytes.len();
    if n < 12 || !has_tag(bytes, 0, 0x52, 0x49, 0x46, 0x46) || !has_tag(
        bytes,
        8,
        0x57,
        0x41,
        0x56,
        0x45,
    ) {
        return Some(StreamFault::Unsupported);
    }
    let riff: u64 = read32(bytes, 4);
    if riff > MAX_RIFF_LEN {
        return Some(StreamFault::Malformed);
    }
    let mut pos: usize = 12;
    let mut consumed: u64 = 0;
    loop
        invariant
            n == bytes@.len(),
            12 <= pos <= n,
            consumed <= riff + 1,
            riff <= MAX_RIFF_LEN,
            refusal(bytes@) == walk(bytes@, pos as int, consumed as int, riff as int),
        decreases n - pos,
    {
        match take_step(bytes, pos, consumed, riff) {
            Stand::Accept => {
                return None;
            },
            Stand::Refuse(fault) => {
                return Some(fault);
            },
            Stand::Next(next, counted) => {
                pos = next;
                consumed = counted;
            },
        }
    }
}

/// Tells whether `bytes` may be opened.
pub fn is_admissible(bytes: &[u8]) -> (ok: bool)
    ensures
        ok == admissible(bytes@),
{
    screen(bytes).is_none()
}

} // verus!
