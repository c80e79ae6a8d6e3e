use vstd::prelude::*;
use vstd::string::*;

use crate::error::RecordRouteError;
use crate::text::{chars_of, lower_of, lowercase, same_text};

verus! {

/// Index of the last `c` in `s`, or -1.
pub open spec fn last_index_of(s: Seq<char>, c: char) -> int
    decreases s.len(),
{
    if s.len() == 0 {
        -1
    } else if s.last() == c {
        s.len() - 1
    } else {
        last_index_of(s.drop_last(), c)
    }
}

/// The extension of the last component of `path`: what follows its last `.`, when that
/// `.` is not the component's first character. A path that ends in `/` has none.
pub open spec fn extension_of(path: Seq<char>) -> Option<Seq<char>> {
    let name = path.subrange(last_index_of(path, '/') + 1, path.len() as int);
    let dot = last_index_of(name, '.');
    if dot > 0 {
        Some(name.subrange(dot + 1, name.len() as int))
    } else {
        None
    }
}

/// Extensions of the audio and video files that transcription accepts, in lowercase.
pub open spec fn supported_extension(e: Seq<char>) -> bool {
    e == "flac"@ || e == "m4a"@ || e == "mp3"@ || e == "mp4"@ || e == "mpeg"@ || e == "mpga"@
        || e == "oga"@ || e == "ogg"@ || e == "qta"@ || e == "wav"@ || e == "webm"@
}

proof fn lemma_last_index(s: Seq<char>, c: char)
    ensures
        -1 <= last_index_of(s, c) < s.len(),
        last_index_of(s, c) >= 0 ==> s[last_index_of(s, c)] == c,
    decreases s.len(),
{
    if s.len() > 0 {
        lemma_last_index(s.drop_last(), c);
    }
}

fn find_last(s: &Vec<char>, lo: usize, c: char) -> (r: Option<usize>)
    requires
        lo <= s@.len(),
    ensures
        match r {
            Some(i) => lo <= i < s@.len() && i - lo == last_index_of(
                s@.subrange(lo as int, s@.len() as int),
                c,
            ),
            None => last_index_of(s@.subrange(lo as int, s@.len() as int), c) == -1,
        },
{
    let ghost full = s@.subrange(lo as int, s@.len() as int);
    let mut i = s.len();
    while i > lo
        invariant
            lo <= i <= s@.len(),
            full == s@.subrange(lo as int, s@.len() as int),
            last_index_of(full, c) == last_index_of(s@.subrange(lo as int, i as int), c),
        decreases i - lo,
    {
        let ghost cur = s@.subrange(lo as int, i as int);
        assert(cur.drop_last() =~= s@.subrange(lo as int, i - 1));
        if s[i - 1] == c {
            return Some(i - 1);
        }
        i = i - 1;
    }
    None
}

/// The extension of `path`, if it has one.
pub fn file_extension(path: &str) -> (r: Option<String>)
    ensures
        match r {
            Some(e) => extension_of(path@) == Some(e@),
            None => extension_of(path@) is None,
        },
{
    let chars = chars_of(path);
    let n = chars.len();
    let start = match find_last(&chars, 0, '/') {
        Some(i) => i + 1,
        None => 0,
    };
    assert(chars@.subrange(0, n as int) =~= path@);
    let ghost name = path@.subrange(start as int, n as int);
    assert(chars@.subrange(start as int, n as int) == name);
    match find_last(&chars, start, '.') {
        Some(d) => {
            if d > start {
                let e = path.substring_char(d + 1, n);
                assert(name.subrange(d - start + 1, name.len() as int) =~= path@.subrange(
                    d + 1,
                    n as int,
                ));
                Some(e.to_owned())
            } else {
                None
            }
        },
        None => None,
    }
}

/// Whether `ext`, already in lowercase, is the extension of a supported file.
pub fn is_supported_extension(ext: &str) -> (r: bool)
    ensures
        r == supported_extension(ext@),
{
    same_text(ext, "flac") || same_text(ext, "m4a") || same_text(ext, "mp3") || same_text(ext, "mp4")
        || same_text(ext, "mpeg") || same_text(ext, "mpga") || same_text(ext, "oga") || same_text(
        ext,
        "ogg",
    ) || same_text(ext, "qta") || same_text(ext, "wav") || same_text(ext, "webm")
}

/// Whether `path` names a file that transcription accepts, by its extension in any case.
pub fn is_supported_audio(path: &str) -> (r: bool)
    ensures
        r == (extension_of(path@) is Some && supported_extension(
            lower_of(extension_of(path@)->0),
        )),
{
    match file_extension(path) {
        Some(e) => {
            let low = lowercase(e.as_str());
            is_supported_extension(low.as_str())
        },
        None => false,
    }
}

/// Size of the header of a canonical WAV file.
pub const WAV_HEADER_LEN: usize = 44;

/// The format fields of a WAV header.
#[derive(Debug, Clone, Copy, PartialEq, Eq)]
pub struct WavHeader {
    pub num_channels: u16,
    pub sample_rate: u32,
    pub bits_per_sample: u16,
}

/// The little-endian 16-bit number at `b[i..i + 2]`.
pub open spec fn le16(b: Seq<u8>, i: int) -> int {
    b[i] as int + 256 * b[i + 1] as int
}

/// The little-endian 32-bit number at `b[i..i + 4]`.
pub open spec fn le32(b: Seq<u8>, i: int) -> int {
    le16(b, i) + 65536 * le16(b, i + 2)
}

/// `b` is a WAV header: at least 44 bytes, `RIFF` at 0 and `WAVE` at 8.
pub open spec fn is_wav_header(b: Seq<u8>) -> bool {
    &&& b.len() >= 44
    &&& b[0] == 0x52u8 && b[1] == 0x49u8 && b[2] == 0x46u8 && b[3] == 0x46u8
    &&& b[8] == 0x57u8 && b[9] == 0x41u8 && b[10] == 0x56u8 && b[11] == 0x45u8
}

/// Reads the header of a WAV file from its first bytes: channels at 22, sample rate at 24,
/// bits per sample at 34.
pub fn parse_wav_header(b: &Vec<u8>) -> (r: Result<WavHeader, RecordRouteError>)
    ensures
        r is Ok <==> is_wav_header(b@),
        r is Ok ==> {
            &&& r->Ok_0.num_channels == le16(b@, 22)
            &&& r->Ok_0.sample_rate == le32(b@, 24)
            &&& r->Ok_0.bits_per_sample == le16(b@, 34)
        },
        r is Err ==> r->Err_0 is Stt,
{
    if b.len() < WAV_HEADER_LEN {
        return Err(RecordRouteError::Stt("Failed to read WAV header".to_owned()));
    }
    if !(b[0] == 0x52 && b[1] == 0x49 && b[2] == 0x46 && b[3] == 0x46 && b[8] == 0x57 && b[9]
        == 0x41 && b[10] == 0x56 && b[11] == 0x45) {
        return Err(RecordRouteError::Stt("Invalid WAV file format".to_owned()));
    }
    let num_channels = b[22] as u16 + 256 * (b[23] as u16);
    let rate_lo = b[24] as u32 + 256 * (b[25] as u32);
    let rate_hi = b[26] as u32 + 256 * (b[27] as u32);
    let sample_rate = rate_lo + 65536 * rate_hi;
    let bits_per_sample = b[34] as u16 + 256 * (b[35] as u16);
    Ok(WavHeader { num_channels, sample_rate, bits_per_sample })
}

/// The 16-bit signed sample whose little-endian bytes are `lo`, `hi`.
pub open spec fn sample_of(lo: u8, hi: u8) -> i16 {
    ((lo as int + 256 * hi as int) as u16) as i16
}

/// The 16-bit PCM samples in `b[from..]`, two bytes each, little-endian; an odd last byte
/// is ignored.
pub fn pcm_samples(b: &Vec<u8>, from: usize) -> (r: Vec<i16>)
    requires
        from <= b@.len(),
    ensures
        r@.len() == (b@.len() - from) / 2,
        forall|k: int|
            0 <= k < r@.len() ==> #[trigger] r@[k] == sample_of(b@[from + 2 * k], b@[from + 2 * k + 1]),
{
    let n = (b.len() - from) / 2;
    let mut out: Vec<i16> = Vec::new();
    let mut k: usize = 0;
    while k < n
        invariant
            n == (b@.len() - from) / 2,
            from <= b@.len() <= usize::MAX,
            k <= n,
            out@.len() == k,
            forall|j: int|
                0 <= j < k ==> #[trigger] out@[j] == sample_of(b@[from + 2 * j], b@[from + 2 * j + 1]),
        decreases n - k,
    {
        assert(from + 2 * k + 1 < b@.len()) by (nonlinear_arith)
            requires
                k < n,
                n == (b@.len() - from) / 2,
                from <= b@.len(),
        ;
        let i = from + 2 * k;
        let v = b[i] as u16 + 256 * (b[i + 1] as u16);
        let sample = #[verifier::truncate] (v as i16);
        out.push(sample);
        k = k + 1;
    }
    out
}

} // verus!
