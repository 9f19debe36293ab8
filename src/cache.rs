use vstd::prelude::*;
use crate::error::TtsError;
use sha2::Digest;
use vstd::utf8::{encode_scalar, encode_utf8};
use vstd::string::{StringExecFns, StringSliceAdditionalSpecFns};

verus! {

/// The SHA-256 digest of a byte sequence.
pub uninterp spec fn sha256_of(data: Seq<u8>) -> Seq<u8>;

/// Lower-case hexadecimal digit for a value below sixteen.
pub open spec fn hex_digit(n: u8) -> char {
    if n < 10 {
        (('0' as u8) + n) as char
    } else {
        (('a' as u8) + (n - 10)) as char
    }
}

/// Two lower-case hexadecimal digits per byte, high nibble first.
pub open spec fn hex_of(b: Seq<u8>) -> Seq<char>
    decreases b.len(),
{
    if b.len() == 0 {
        seq![]
    } else {
        seq![hex_digit(b[0] / 16), hex_digit(b[0] % 16)] + hex_of(b.drop_first())
    }
}

/// Relies on `<sha2::Sha256 as Digest>::digest`: the 32-byte digest of `data`.
#[verifier::external_body]
fn sha256(data: &[u8]) -> (r: Vec<u8>)
    ensures
        r@ == sha256_of(data@),
        r@.len() == 32,
{
    sha2::Sha256::digest(data).to_vec()
}

/// Relies on `hex::encode`: two lower-case digits for each byte.
#[verifier::external_body]
fn to_hex(b: &[u8]) -> (r: String)
    ensures
        r@ == hex_of(b@),
{
    hex::encode(b)
}

/// The bytes that are digested for a request: text, provider and language,
/// and the voice only when one is given.
pub open spec fn key_message(
    text: Seq<char>,
    provider: Seq<char>,
    language: Seq<char>,
    voice: Option<Seq<char>>,
) -> Seq<u8> {
    let base = encode_utf8(text) + encode_utf8(provider) + encode_utf8(language);
    match voice {
        Some(v) => base + encode_utf8(v),
        None => base,
    }
}

/// The cache key of a request: the hex form of the digest of its message.
pub open spec fn cache_key(
    text: Seq<char>,
    provider: Seq<char>,
    language: Seq<char>,
    voice: Option<Seq<char>>,
) -> Seq<char> {
    hex_of(sha256_of(key_message(text, provider, language, voice)))
}

/// The text of an optional string.
pub open spec fn opt_str_view(o: Option<&str>) -> Option<Seq<char>> {
    match o {
        Some(s) => Some(s@),
        None => None,
    }
}

fn push_bytes(buf: &mut Vec<u8>, s: &str)
    ensures
        final(buf)@ == old(buf)@ + encode_utf8(s@),
{
    let b = s.as_bytes();
    let mut i: usize = 0;
    while i < b.len()
        invariant
            i <= b@.len(),
            b@ == s.spec_bytes(),
            buf@ == old(buf)@ + b@.subrange(0, i as int),
        decreases b@.len() - i,
    {
        buf.push(b[i]);
        i = i + 1;
        proof {
            assert(b@.subrange(0, i as int) == b@.subrange(0, i - 1) + seq![b@[i - 1]]);
        }
    }
    proof {
        assert(b@.subrange(0, b@.len() as int) == b@);
    }
}

/// Derives the cache key of a request.
pub fn generate_cache_key(text: &str, provider: &str, language: &str, voice: Option<&str>) -> (r: String)
    ensures
        r@ == cache_key(text@, provider@, language@, opt_str_view(voice)),
        r@.len() == 64,
{
    let mut message: Vec<u8> = Vec::new();
    push_bytes(&mut message, text);
    push_bytes(&mut message, provider);
    push_bytes(&mut message, language);
    if let Some(v) = voice {
        push_bytes(&mut message, v);
    }
    let digest = sha256(message.as_slice());
    let key = to_hex(digest.as_slice());
    proof {
        lemma_hex_len(digest@);
    }
    key
}

pub proof fn lemma_hex_len(b: Seq<u8>)
    ensures
        hex_of(b).len() == 2 * b.len(),
    decreases b.len(),
{
    if b.len() > 0 {
        lemma_hex_len(b.drop_first());
    }
}


/// A voice that is given always changes what is digested: the message for a
/// request with a non-empty voice is never the message for the same request
/// without one.
pub proof fn lemma_voice_presence_changes_message(
    text: Seq<char>,
    provider: Seq<char>,
    language: Seq<char>,
    v: Seq<char>,
)
    requires
        v.len() > 0,
    ensures
        key_message(text, provider, language, None) != key_message(
            text,
            provider,
            language,
            Some(v),
        ),
{
    let base = key_message(text, provider, language, None);
    assert(encode_utf8(v) == encode_scalar(v[0] as u32) + encode_utf8(v.drop_first()));
    assert(encode_scalar(v[0] as u32).len() >= 1);
    assert(key_message(text, provider, language, Some(v)).len() > base.len());
}

/// The key depends on the request's fields alone: equal fields give equal
/// keys.
pub proof fn lemma_key_deterministic(
    text1: Seq<char>,
    provider1: Seq<char>,
    language1: Seq<char>,
    voice1: Option<Seq<char>>,
    text2: Seq<char>,
    provider2: Seq<char>,
    language2: Seq<char>,
    voice2: Option<Seq<char>>,
)
    requires
        text1 == text2,
        provider1 == provider2,
        language1 == language2,
        voice1 == voice2,
    ensures
        cache_key(text1, provider1, language1, voice1) == cache_key(
            text2,
            provider2,
            language2,
            voice2,
        ),
{
}

/// The location of an entry: `<dir>/<key>.audio`.
pub open spec fn cache_path(dir: Seq<char>, key: Seq<char>) -> Seq<char> {
    dir + "/"@ + key + ".audio"@
}

/// The file under `cache_dir` that holds the entry for `cache_key`.
pub fn get_cache_path(cache_dir: &str, cache_key: &str) -> (r: String)
    ensures
        r@ == cache_path(cache_dir@, cache_key@),
{
    let mut path = String::from_str(cache_dir);
    path.append("/");
    path.append(cache_key);
    path.append(".audio");
    path
}

/// Totals over the entries directly under the cache directory.
#[derive(Debug, Clone, Copy)]
pub struct CacheStats {
    pub file_count: u64,
    pub total_bytes: u64,
}

/// One entry of the cache directory: whether it is a regular file, and its size.
#[derive(Debug, Clone, Copy)]
pub struct DirEntryInfo {
    pub is_file: bool,
    pub len: u64,
}

/// Number of regular files among the entries.
pub open spec fn file_count_of(entries: Seq<DirEntryInfo>) -> nat
    decreases entries.len(),
{
    if entries.len() == 0 {
        0
    } else {
        file_count_of(entries.drop_last()) + if entries.last().is_file { 1nat } else { 0nat }
    }
}

/// Sum of the sizes of the regular files among the entries.
pub open spec fn total_bytes_of(entries: Seq<DirEntryInfo>) -> nat
    decreases entries.len(),
{
    if entries.len() == 0 {
        0
    } else {
        total_bytes_of(entries.drop_last()) + if entries.last().is_file {
            entries.last().len as nat
        } else {
            0nat
        }
    }
}

/// Counts the regular files and sums their sizes; other entries are ignored.
pub fn tally_cache_entries(entries: &Vec<DirEntryInfo>) -> (r: CacheStats)
    requires
        total_bytes_of(entries@) <= u64::MAX,
    ensures
        r.file_count == file_count_of(entries@),
        r.total_bytes == total_bytes_of(entries@),
{
    let mut stats = CacheStats { file_count: 0, total_bytes: 0 };
    let mut i: usize = 0;
    while i < entries.len()
        invariant
            i <= entries@.len(),
            total_bytes_of(entries@) <= u64::MAX,
            stats.file_count == file_count_of(entries@.subrange(0, i as int)),
            stats.total_bytes == total_bytes_of(entries@.subrange(0, i as int)),
        decreases entries@.len() - i,
    {
        proof {
            let pre = entries@.subrange(0, i + 1);
            assert(pre.drop_last() == entries@.subrange(0, i as int));
            lemma_total_prefix(entries@, i + 1);
            lemma_count_prefix(entries@, i + 1);
        }
        if entries[i].is_file {
            stats.file_count = stats.file_count + 1;
            stats.total_bytes = stats.total_bytes + entries[i].len;
        }
        i = i + 1;
    }
    proof {
        assert(entries@.subrange(0, entries@.len() as int) == entries@);
    }
    stats
}

proof fn lemma_total_prefix(entries: Seq<DirEntryInfo>, n: int)
    requires
        0 <= n <= entries.len(),
    ensures
        total_bytes_of(entries.subrange(0, n)) <= total_bytes_of(entries),
    decreases entries.len(),
{
    if n < entries.len() {
        assert(entries.drop_last().subrange(0, n) == entries.subrange(0, n));
        lemma_total_prefix(entries.drop_last(), n);
    } else {
        assert(entries.subrange(0, n) == entries);
    }
}

proof fn lemma_count_prefix(entries: Seq<DirEntryInfo>, n: int)
    requires
        0 <= n <= entries.len(),
    ensures
        file_count_of(entries.subrange(0, n)) <= n,
    decreases n,
{
    if n > 0 {
        assert(entries.subrange(0, n).drop_last() == entries.subrange(0, n - 1));
        lemma_count_prefix(entries, n - 1);
    }
}


/// How a request uses the cache.
#[derive(Debug)]
pub enum CachePlan {
    /// Remove the request's entry and synthesize nothing.
    ClearEntry(String),
    /// Synthesize without reading or writing the cache.
    Bypass,
    /// Serve the entry under this key if present; otherwise synthesize and
    /// store the audio under it.
    Lookup(String),
}

/// Decides how a request uses the cache: clearing its entry takes
/// precedence, then bypassing, else a lookup under the request's key.
pub fn plan_cache(
    text: &str,
    provider: &str,
    language: &str,
    voice: Option<&str>,
    use_cache: bool,
    clear_entry: bool,
) -> (r: CachePlan)
    ensures
        clear_entry ==> (r matches CachePlan::ClearEntry(k) && k@ == cache_key(
            text@,
            provider@,
            language@,
            opt_str_view(voice),
        )),
        !clear_entry && !use_cache ==> r is Bypass,
        !clear_entry && use_cache ==> (r matches CachePlan::Lookup(k) && k@ == cache_key(
            text@,
            provider@,
            language@,
            opt_str_view(voice),
        )),
{
    if clear_entry {
        CachePlan::ClearEntry(generate_cache_key(text, provider, language, voice))
    } else if !use_cache {
        CachePlan::Bypass
    } else {
        CachePlan::Lookup(generate_cache_key(text, provider, language, voice))
    }
}

/// The key under which freshly synthesized audio is stored: only a lookup
/// plan stores, and only audio that was actually produced.
pub fn entry_to_store(plan: &CachePlan, synthesized: &Result<Vec<u8>, TtsError>) -> (r: Option<
    String,
>)
    ensures
        match (plan, synthesized) {
            (CachePlan::Lookup(k), Ok(_)) => r == Some(*k),
            _ => r is None,
        },
{
    match (plan, synthesized) {
        (CachePlan::Lookup(k), Ok(_)) => Some(k.clone()),
        _ => None,
    }
}

} // verus!
