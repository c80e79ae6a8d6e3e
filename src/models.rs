use vstd::prelude::*;
use vstd::string::*;

use sha2::Digest;

use crate::audio::extension_of;
use crate::text::{chars_of, same_text, strip_all_prefixes, strip_prefixes, strs};

verus! {

/// Where the Whisper model files are published.
pub const MODEL_BASE_URL: &'static str = "https://huggingface.co/ggerganov/whisper.cpp/resolve/main";

/// A downloadable Whisper model.
#[derive(Debug, Clone)]
pub struct WhisperModel {
    pub name: String,
    /// File size in bytes.
    pub size: u64,
    /// SHA-256 digest of the file, where published.
    pub sha256: Option<String>,
    pub url: String,
}

/// Name of the file of the model called `name`.
pub open spec fn model_file_name(name: Seq<char>) -> Seq<char> {
    "ggml-"@ + name + ".bin"@
}

impl WhisperModel {
    /// Name of the model's file.
    pub fn filename(&self) -> (r: String)
        ensures
            r@ == model_file_name(self.name@),
    {
        let mut r = "ggml-".to_owned();
        r.append(self.name.as_str());
        r.append(".bin");
        r
    }
}

/// The model `name` of `mb` mebibytes, at its published address.
fn published_model(name: &str, mb: u64) -> (r: WhisperModel)
    requires
        mb <= 4096,
    ensures
        r.name@ == name@,
        r.size == mb * 1024 * 1024,
        r.sha256 is None,
        r.url@ == MODEL_BASE_URL@ + "/"@ + model_file_name(name@),
{
    let mut url = MODEL_BASE_URL.to_owned();
    url.append("/");
    url.append("ggml-");
    url.append(name);
    url.append(".bin");
    proof {
        assert(url@ =~= MODEL_BASE_URL@ + "/"@ + model_file_name(name@));
    }
    WhisperModel { name: name.to_owned(), size: mb * 1024 * 1024, sha256: None, url }
}

/// The Whisper models that can be downloaded, smallest first: tiny (75 MiB), base (142),
/// small (466), medium (1500) and large-v3 (3100).
pub fn available_whisper_models() -> (r: Vec<WhisperModel>)
    ensures
        r@.len() == 5,
        r@[0].name@ == "tiny"@ && r@[0].size == 75 * 1024 * 1024,
        r@[1].name@ == "base"@ && r@[1].size == 142 * 1024 * 1024,
        r@[2].name@ == "small"@ && r@[2].size == 466 * 1024 * 1024,
        r@[3].name@ == "medium"@ && r@[3].size == 1500 * 1024 * 1024,
        r@[4].name@ == "large-v3"@ && r@[4].size == 3100 * 1024 * 1024,
        forall|i: int|
            0 <= i < 5 ==> (#[trigger] r@[i]).sha256 is None && r@[i].url@ == MODEL_BASE_URL@
                + "/"@ + model_file_name(r@[i].name@),
{
    let mut r: Vec<WhisperModel> = Vec::new();
    r.push(published_model("tiny", 75));
    r.push(published_model("base", 142));
    r.push(published_model("small", 466));
    r.push(published_model("medium", 1500));
    r.push(published_model("large-v3", 3100));
    r
}

/// The file size, in bytes, of the downloadable model called `name`, if there is one.
pub open spec fn published_size(name: Seq<char>) -> Option<u64> {
    if name == "tiny"@ {
        Some((75 * 1024 * 1024) as u64)
    } else if name == "base"@ {
        Some((142 * 1024 * 1024) as u64)
    } else if name == "small"@ {
        Some((466 * 1024 * 1024) as u64)
    } else if name == "medium"@ {
        Some((1500 * 1024 * 1024) as u64)
    } else if name == "large-v3"@ {
        Some((3100 * 1024 * 1024) as u64)
    } else {
        None
    }
}

/// The model called `name` among those that can be downloaded, if it is one.
pub fn find_model(name: &str) -> (r: Option<WhisperModel>)
    ensures
        r is Some <==> published_size(name@) is Some,
        r is Some ==> {
            let m = r->0;
            &&& m.name@ == name@
            &&& Some(m.size) == published_size(name@)
            &&& m.sha256 is None
            &&& m.url@ == MODEL_BASE_URL@ + "/"@ + model_file_name(name@)
        },
{
    let mut models = available_whisper_models();
    let mut i: usize = 0;
    while i < models.len()
        invariant
            models@.len() == 5,
            i <= 5,
            models@[0].name@ == "tiny"@,
            models@[1].name@ == "base"@,
            models@[2].name@ == "small"@,
            models@[3].name@ == "medium"@,
            models@[4].name@ == "large-v3"@,
            models@[0].size == 75 * 1024 * 1024,
            models@[1].size == 142 * 1024 * 1024,
            models@[2].size == 466 * 1024 * 1024,
            models@[3].size == 1500 * 1024 * 1024,
            models@[4].size == 3100 * 1024 * 1024,
            forall|k: int| 0 <= k < 5 ==> (#[trigger] models@[k]).sha256 is None,
            forall|k: int| 0 <= k < 5 ==> (#[trigger] models@[k]).url@ == MODEL_BASE_URL@ + "/"@
                + model_file_name(models@[k].name@),
            forall|k: int| 0 <= k < i ==> (#[trigger] models@[k]).name@ != name@,
        decreases 5 - i,
    {
        if same_text(models[i].name.as_str(), name) {
            return Some(models.remove(i));
        }
        i = i + 1;
    }
    None
}

/// The name of the model stored in a file called `file_name`: a `.bin` file whose stem
/// begins with `ggml-`, without every leading `ggml-`.
pub open spec fn installed_name(file_name: Seq<char>) -> Option<Seq<char>> {
    match extension_of(file_name) {
        Some(ext) => if ext == "bin"@ && file_name.len() >= 4 {
            let stem = file_name.subrange(0, file_name.len() - 4);
            if stem.len() >= 5 && stem.subrange(0, 5) == "ggml-"@ {
                Some(strip_prefixes(stem, "ggml-"@))
            } else {
                None
            }
        } else {
            None
        },
        None => None,
    }
}

/// The model name of the file `file_name` in the models directory, if it holds one.
pub fn installed_model_name(file_name: &str) -> (r: Option<String>)
    ensures
        match r {
            Some(n) => installed_name(file_name@) == Some(n@),
            None => installed_name(file_name@) is None,
        },
{
    proof {
        reveal_strlit("bin");
        reveal_strlit("ggml-");
    }
    match crate::audio::file_extension(file_name) {
        Some(ext) => {
            let n = chars_of(file_name).len();
            if same_text(ext.as_str(), "bin") && n >= 4 {
                let stem = file_name.substring_char(0, n - 4);
                if chars_of(stem).len() >= 5 && same_text(stem.substring_char(0, 5), "ggml-") {
                    Some(strip_all_prefixes(stem, "ggml-"))
                } else {
                    None
                }
            } else {
                None
            }
        },
        None => None,
    }
}

/// The installed models that `keep` does not list, in order.
pub fn models_to_remove(installed: &Vec<String>, keep: &Vec<String>) -> (r: Vec<String>)
    ensures
        strs(r@) == strs(installed@).filter(|m: Seq<char>| !strs(keep@).contains(m)),
{
    let ghost all = strs(installed@);
    let ghost kept = strs(keep@);
    let mut out: Vec<String> = Vec::new();
    let mut i: usize = 0;
    while i < installed.len()
        invariant
            all == strs(installed@),
            kept == strs(keep@),
            i <= installed@.len(),
            strs(out@) == all.subrange(0, i as int).filter(|m: Seq<char>| !kept.contains(m)),
        decreases installed@.len() - i,
    {
        let ghost pre = all.subrange(0, i as int);
        assert(all.subrange(0, i + 1) =~= pre.push(all[i as int]));
        proof {
            pre.lemma_filter_push(all[i as int], |m: Seq<char>| !kept.contains(m));
        }
        let mut listed = false;
        let mut k: usize = 0;
        while k < keep.len()
            invariant
                kept == strs(keep@),
                i < installed@.len(),
                k <= keep@.len(),
                listed == exists|j: int| 0 <= j < k && kept[j] == installed@[i as int]@,
            decreases keep@.len() - k,
        {
            assert(kept[k as int] == keep@[k as int]@);
            if same_text(keep[k].as_str(), installed[i].as_str()) {
                listed = true;
            }
            proof {
                if listed {
                    if kept[k as int] != installed@[i as int]@ {
                        let j = choose|j: int| 0 <= j < k && kept[j] == installed@[i as int]@;
                        assert(0 <= j < k + 1 && kept[j] == installed@[i as int]@);
                    }
                } else {
                    assert forall|j: int| 0 <= j < k + 1 implies kept[j] != installed@[i as int]@ by {
                        if j < k {
                        }
                    }
                }
            }
            k = k + 1;
        }
        proof {
            if kept.contains(all[i as int]) {
                let j = choose|j: int| 0 <= j < kept.len() && kept[j] == all[i as int];
                assert(kept[j] == installed@[i as int]@);
            }
        }
        if !listed {
            out.push(installed[i].clone());
            assert(strs(out@) =~= strs(out@).drop_last().push(all[i as int]));
        }
        i = i + 1;
    }
    assert(all.subrange(0, installed@.len() as int) =~= all);
    out
}

/// A download of `actual` bytes of a model of `expected` bytes is complete enough to keep:
/// at least half the expected size.
pub fn download_size_ok(actual: u64, expected: u64) -> (r: bool)
    ensures
        r == (actual >= expected / 2),
{
    actual >= expected / 2
}

/// The SHA-256 digest of some bytes.
pub uninterp spec fn sha256_of(data: Seq<u8>) -> Seq<u8>;

/// Relies on `sha2::Sha256::digest`: the SHA-256 digest of the data, 32 bytes.
#[verifier::external_body]
fn sha256_digest(data: &Vec<u8>) -> (r: Vec<u8>)
    ensures
        r@ == sha256_of(data@),
        r@.len() == 32,
{
    sha2::Sha256::digest(data.as_slice()).to_vec()
}

/// Lowercase hexadecimal digit of `d`.
pub open spec fn hex_digit(d: int) -> char {
    if d < 10 {
        (('0' as int) + d) as char
    } else {
        (('a' as int) + d - 10) as char
    }
}

/// Lowercase hexadecimal form of `b`, two digits per byte.
pub open spec fn hex_of(b: Seq<u8>) -> Seq<char>
    decreases b.len(),
{
    if b.len() == 0 {
        seq![]
    } else {
        hex_of(b.drop_last()) + seq![hex_digit(b.last() as int / 16), hex_digit(b.last() as int % 16)]
    }
}

fn hex_digit_char(d: u8) -> (c: char)
    requires
        d < 16,
    ensures
        c == hex_digit(d as int),
{
    if d < 10 {
        (('0' as u8) + d) as char
    } else {
        (('a' as u8) + d - 10) as char
    }
}

/// Whether `digest`, written in lowercase hexadecimal, is `expected`.
pub fn digest_matches(digest: &Vec<u8>, expected: &str) -> (r: bool)
    ensures
        r == (hex_of(digest@) == expected@),
{
    let mut hex: Vec<char> = Vec::new();
    let mut i: usize = 0;
    while i < digest.len()
        invariant
            i <= digest@.len(),
            hex@ == hex_of(digest@.subrange(0, i as int)),
        decreases digest@.len() - i,
    {
        assert(digest@.subrange(0, i + 1).drop_last() =~= digest@.subrange(0, i as int));
        let b = digest[i];
        let hi = hex_digit_char(b / 16);
        let lo = hex_digit_char(b % 16);
        hex.push(hi);
        hex.push(lo);
        assert(hex@ =~= hex_of(digest@.subrange(0, i as int)) + seq![hi, lo]);
        i = i + 1;
    }
    assert(digest@.subrange(0, digest@.len() as int) =~= digest@);
    let e = chars_of(expected);
    if e.len() != hex.len() {
        return false;
    }
    let mut k: usize = 0;
    while k < hex.len()
        invariant
            e@ == expected@,
            hex@ == hex_of(digest@),
            e@.len() == hex@.len(),
            k <= hex@.len(),
            forall|j: int| 0 <= j < k ==> hex@[j] == e@[j],
        decreases hex@.len() - k,
    {
        if hex[k] != e[k] {
            assert(hex@[k as int] != e@[k as int]);
            return false;
        }
        k = k + 1;
    }
    assert(hex@ =~= e@);
    true
}

/// Whether a model file of contents `data` has the published digest `expected`; with no
/// published digest, any contents pass.
pub fn verify_model_data(data: &Vec<u8>, expected: Option<&str>) -> (r: bool)
    ensures
        match expected {
            None => r,
            Some(e) => r == (hex_of(sha256_of(data@)) == e@),
        },
{
    match expected {
        None => true,
        Some(e) => {
            let digest = sha256_digest(data);
            digest_matches(&digest, e)
        },
    }
}

} // verus!
