//! Keys for caching and deduplication: BLAKE3 content hashes, the settings
//! fingerprint that invalidates cached results, and the partial hash of a
//! weak key.

use vstd::prelude::*;
use crate::text::{push_char, push_decimal};
use crate::types::{AppErrorView, ExportFormat, JobSettings, SettingsFingerprint};

verus! {

broadcast use vstd::string::group_string_axioms;

// ---------------------------------------------------------------------------
// BLAKE3
// ---------------------------------------------------------------------------

#[verifier::external_type_specification]
#[verifier::external_body]
pub struct ExBlake3Hasher(blake3::Hasher);

/// The lowercase hexadecimal BLAKE3 digest of some bytes
/// (`blake3::hash(data).to_hex()`).
pub uninterp spec fn blake3_hex(data: Seq<u8>) -> Seq<char>;

/// The bytes fed to an incremental BLAKE3 hasher so far.
pub uninterp spec fn hasher_input(h: blake3::Hasher) -> Seq<u8>;

/// Whether a text is 64 lowercase hexadecimal digits.
pub open spec fn is_lower_hex_64(s: Seq<char>) -> bool {
    s.len() == 64 && forall|i: int| 0 <= i < 64 ==> ('0' <= #[trigger] s[i] <= '9' || 'a' <= s[i] <= 'f')
}

/// `blake3::hash(data).to_hex()`: the digest is named `blake3_hex`; that it
/// is 64 lowercase hex digits is what `Hash::to_hex` writes.
#[verifier::external_body]
fn blake3_hash_hex(data: &[u8]) -> (r: String)
    ensures
        r@ == blake3_hex(data@),
        is_lower_hex_64(r@),
{
    blake3::hash(data).to_hex().to_string()
}

/// `blake3::Hasher::new`: a hasher that has been fed nothing.
#[verifier::external_body]
fn hasher_new() -> (h: blake3::Hasher)
    ensures
        hasher_input(h) == Seq::<u8>::empty(),
{
    blake3::Hasher::new()
}

/// `blake3::Hasher::update`: feeds more bytes to the hasher.
#[verifier::external_body]
fn hasher_update(h: &mut blake3::Hasher, data: &[u8])
    ensures
        hasher_input(*final(h)) == hasher_input(*old(h)) + data@,
{
    h.update(data);
}

/// `blake3::Hasher::finalize` then `to_hex`: the digest of everything fed,
/// the same as hashing it all at once.
#[verifier::external_body]
fn hasher_finalize_hex(h: &blake3::Hasher) -> (r: String)
    ensures
        r@ == blake3_hex(hasher_input(*h)),
        is_lower_hex_64(r@),
{
    h.finalize().to_hex().to_string()
}

/// Incremental BLAKE3 hashing of a file's content, fed as it is read.
pub struct ContentHasher {
    hasher: blake3::Hasher,
}

impl ContentHasher {
    /// The bytes fed so far.
    pub closed spec fn input(&self) -> Seq<u8> {
        hasher_input(self.hasher)
    }

    pub fn new() -> (h: ContentHasher)
        ensures
            h.input() == Seq::<u8>::empty(),
    {
        ContentHasher { hasher: hasher_new() }
    }

    /// Feeds the next bytes.
    pub fn update(&mut self, data: &[u8])
        ensures
            final(self).input() == old(self).input() + data@,
    {
        hasher_update(&mut self.hasher, data);
    }

    /// The lowercase hex digest of everything fed so far.
    pub fn finalize_hex(&self) -> (r: String)
        ensures
            r@ == blake3_hex(self.input()),
            is_lower_hex_64(r@),
    {
        hasher_finalize_hex(&self.hasher)
    }
}

/// The lowercase hex BLAKE3 digest of some bytes (used for the first
/// megabyte of a file in its weak key).
pub fn partial_hash(data: &[u8]) -> (r: String)
    ensures
        r@ == blake3_hex(data@),
        is_lower_hex_64(r@),
{
    blake3_hash_hex(data)
}

/// How many bytes of a file its weak key hashes: 1 MiB.
pub const WEAK_KEY_READ_SIZE: usize = 1048576;

// ---------------------------------------------------------------------------
// Settings fingerprint
// ---------------------------------------------------------------------------

/// The number of a format in declaration order (`Txt` 0, `Srt` 1, `Json` 2).
pub open spec fn format_number(f: ExportFormat) -> nat {
    match f {
        ExportFormat::Txt => 0,
        ExportFormat::Srt => 1,
        ExportFormat::Json => 2,
    }
}

/// The text the settings fingerprint hashes: `"{language}|{format number}"`.
pub open spec fn fingerprint_text(language: Seq<char>, format: ExportFormat) -> Seq<char> {
    language + seq!['|'] + crate::text::decimal(format_number(format))
}

/// The settings fingerprint: the BLAKE3 digest of the language and the
/// output format, so that changing either invalidates cached results.
pub fn settings_fingerprint(settings: &JobSettings) -> (r: Result<SettingsFingerprint, AppErrorView>)
    ensures
        r matches Ok(fp) && fp.0@ == blake3_hex(vstd::utf8::encode_utf8(
            fingerprint_text(settings.language@, settings.output_format),
        )),
{
    let mut data = settings.language.clone();
    push_char(&mut data, '|');
    let n: u64 = match settings.output_format {
        ExportFormat::Txt => 0,
        ExportFormat::Srt => 1,
        ExportFormat::Json => 2,
    };
    push_decimal(&mut data, n);
    assert(n as nat == format_number(settings.output_format));
    assert(data@ =~= fingerprint_text(settings.language@, settings.output_format));
    let bytes = data.as_str().as_bytes();
    assert(bytes@ == vstd::utf8::encode_utf8(data@));
    let hash = blake3_hash_hex(bytes);
    Ok(SettingsFingerprint::new(hash))
}

} // verus!
