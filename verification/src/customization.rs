//! The assistant's customization: its fields and defaults, how a request
//! updates them, and the encrypted file they are kept in (a twelve-byte
//! nonce followed by the AES-256-GCM ciphertext).

use vstd::prelude::*;
use aes_gcm::aead::{Aead, KeyInit};
use crate::random::random_nonce;
use crate::text::owned;

verus! {

#[verifier::external_type_specification]
#[verifier::external_body]
pub struct ExAeadError(aes_gcm::Error);

/// The largest plaintext AES-GCM accepts, in bytes.
pub const PLAINTEXT_MAX: u64 = 0x10_0000_0000;

/// The length of the nonce stored in front of the ciphertext.
pub const NONCE_LEN: usize = 12;

/// The length of the authentication tag at the end of the ciphertext.
pub const TAG_LEN: usize = 16;

/// The shortest file that can hold a nonce and a tag.
pub const MIN_SEALED_LEN: usize = 28;

/// What AES-256-GCM produces from `plaintext` under `key` and `nonce` with
/// no associated data: the encrypted bytes followed by the tag.
pub uninterp spec fn aes256gcm_sealed(key: Seq<u8>, nonce: Seq<u8>, plaintext: Seq<u8>) -> Seq<u8>;

/// What AES-256-GCM recovers from `ciphertext` under `key` and `nonce` with
/// no associated data, or nothing when the tag does not check out.
pub uninterp spec fn aes256gcm_opened(key: Seq<u8>, nonce: Seq<u8>, ciphertext: Seq<u8>) -> Option<Seq<u8>>;

/// Calls `Aead::encrypt` of `aes_gcm::Aes256Gcm` keyed with `key`, under
/// `nonce`, with no associated data. The source refuses a plaintext longer
/// than `P_MAX` (2^36 bytes) and otherwise returns the ciphertext with the
/// sixteen-byte tag appended; the bytes themselves are named, not stated.
/// Decrypting that ciphertext under the same key and nonce recomputes the
/// same tag and gives the plaintext back, which the contract states of the
/// named decryption.
/// `Key::from_slice` and `Nonce::from_slice` panic on other lengths than 32
/// and 12, hence the requirements.
#[verifier::external_body]
fn aes256gcm_encrypt(key: &[u8], nonce: &[u8], plaintext: &[u8]) -> (r: Result<Vec<u8>, aes_gcm::Error>)
    requires
        key@.len() == 32,
        nonce@.len() == 12,
    ensures
        r is Ok <==> plaintext@.len() <= PLAINTEXT_MAX,
        r matches Ok(c) ==> c@ == aes256gcm_sealed(key@, nonce@, plaintext@) && c@.len() == plaintext@.len() + 16,
        r matches Ok(c) ==> aes256gcm_opened(key@, nonce@, c@) == Some(plaintext@),
{
    let cipher = aes_gcm::Aes256Gcm::new(aes_gcm::Key::<aes_gcm::Aes256Gcm>::from_slice(key));
    cipher.encrypt(aes_gcm::Nonce::from_slice(nonce), plaintext)
}

/// Calls `Aead::decrypt` of `aes_gcm::Aes256Gcm` keyed with `key`, under
/// `nonce`, with no associated data. Its result is named.
#[verifier::external_body]
fn aes256gcm_decrypt(key: &[u8], nonce: &[u8], ciphertext: &[u8]) -> (r: Result<Vec<u8>, aes_gcm::Error>)
    requires
        key@.len() == 32,
        nonce@.len() == 12,
    ensures
        match aes256gcm_opened(key@, nonce@, ciphertext@) {
            Some(p) => r matches Ok(x) && x@ == p,
            None => r is Err,
        },
{
    let cipher = aes_gcm::Aes256Gcm::new(aes_gcm::Key::<aes_gcm::Aes256Gcm>::from_slice(key));
    cipher.decrypt(aes_gcm::Nonce::from_slice(nonce), ciphertext)
}

/// The file contents for `plaintext` sealed under `key` and `nonce`.
pub open spec fn sealed_file(key: Seq<u8>, nonce: Seq<u8>, plaintext: Seq<u8>) -> Seq<u8> {
    if plaintext.len() <= PLAINTEXT_MAX {
        nonce + aes256gcm_sealed(key, nonce, plaintext)
    } else {
        nonce
    }
}

/// The bytes of a customization file: the nonce, then the ciphertext.
pub fn sealed_bytes(nonce: &[u8], ciphertext: &[u8]) -> (r: Vec<u8>)
    ensures
        r@ == nonce@ + ciphertext@,
{
    let mut out: Vec<u8> = Vec::new();
    let mut i: usize = 0;
    while i < nonce.len()
        invariant
            i <= nonce@.len(),
            out@ == nonce@.take(i as int),
        decreases nonce.len() - i,
    {
        out.push(nonce[i]);
        assert(nonce@.take(i + 1) =~= nonce@.take(i as int).push(nonce@[i as int]));
        i = i + 1;
    }
    let mut j: usize = 0;
    while j < ciphertext.len()
        invariant
            i == nonce@.len(),
            j <= ciphertext@.len(),
            out@ == nonce@ + ciphertext@.take(j as int),
        decreases ciphertext.len() - j,
    {
        out.push(ciphertext[j]);
        assert(ciphertext@.take(j + 1) =~= ciphertext@.take(j as int).push(ciphertext@[j as int]));
        j = j + 1;
    }
    assert(ciphertext@.take(ciphertext@.len() as int) =~= ciphertext@);
    assert(nonce@.take(nonce@.len() as int) =~= nonce@);
    out
}

/// Seals `plaintext` for the customization file: the nonce followed by the
/// ciphertext (a plaintext too long to encrypt leaves the nonce alone).
pub fn seal_customization(key: &[u8], nonce: &[u8], plaintext: &[u8]) -> (r: Vec<u8>)
    requires
        key@.len() == 32,
        nonce@.len() == 12,
    ensures
        r@ == sealed_file(key@, nonce@, plaintext@),
        plaintext@.len() <= PLAINTEXT_MAX ==> r@.len() == plaintext@.len() + MIN_SEALED_LEN,
        plaintext@.len() <= PLAINTEXT_MAX ==> opened_file(key@, r@) == Some(plaintext@),
{
    let ct = match aes256gcm_encrypt(key, nonce, plaintext) {
        Ok(c) => c,
        Err(_) => Vec::new(),
    };
    let out = sealed_bytes(nonce, ct.as_slice());
    proof {
        if plaintext@.len() > PLAINTEXT_MAX {
            assert(nonce@ + Seq::<u8>::empty() =~= nonce@);
        } else {
            assert(out@.take(12) =~= nonce@);
            assert(out@.skip(12) =~= ct@);
        }
    }
    out
}

/// What opening a customization file gives: nothing for a file shorter than
/// a nonce and a tag, else what AES-256-GCM recovers from the bytes after
/// the first twelve under those twelve as the nonce.
pub open spec fn opened_file(key: Seq<u8>, data: Seq<u8>) -> Option<Seq<u8>> {
    if data.len() < MIN_SEALED_LEN {
        None
    } else {
        aes256gcm_opened(key, data.take(12), data.skip(12))
    }
}

/// Opens a customization file.
pub fn open_customization(key: &[u8], data: &[u8]) -> (r: Option<Vec<u8>>)
    requires
        key@.len() == 32,
    ensures
        match opened_file(key@, data@) {
            Some(p) => r matches Some(x) && x@ == p,
            None => r is None,
        },
{
    if data.len() < MIN_SEALED_LEN {
        return None;
    }
    let nonce = vstd::slice::slice_subrange(data, 0, NONCE_LEN);
    let ct = vstd::slice::slice_subrange(data, NONCE_LEN, data.len());
    assert(nonce@ =~= data@.take(12));
    assert(ct@ =~= data@.skip(12));
    let r = aes256gcm_decrypt(key, nonce, ct);
    match r {
        Ok(p) => Some(p),
        Err(_) => None,
    }
}

/// Seals `plaintext` for the customization file under a fresh random nonce.
/// Whatever nonce is drawn, opening the result under `key` gives the
/// plaintext back.
pub fn seal_with_fresh_nonce(key: &[u8], plaintext: &[u8]) -> (r: Vec<u8>)
    requires
        key@.len() == 32,
    ensures
        exists|nonce: Seq<u8>| nonce.len() == 12 && r@ == #[trigger] sealed_file(key@, nonce, plaintext@),
        plaintext@.len() <= PLAINTEXT_MAX ==> opened_file(key@, r@) == Some(plaintext@),
{
    let nonce_bytes = random_nonce();
    let nonce = nonce_bytes.as_slice();
    seal_customization(key, nonce, plaintext)
}

/// The assistant's settings, one string each.
pub struct CustomizationFields {
    pub name: String,
    pub greeting: String,
    pub wake_word: String,
    pub tts_engine: String,
    pub tts_voice: String,
    pub stt_language: String,
    pub theme: String,
    pub primary_color: String,
    pub accent_color: String,
    pub icon_style: String,
    pub response_style: String,
    pub persona: String,
}

/// The customization as it is served: a record of its fields, or, once a
/// customization file exists, the list of default pairs (the defaults are
/// kept as a list of pairs, into which no stored field is merged).
pub enum Customization {
    Fields(CustomizationFields),
    DefaultList,
}

/// A request to change some fields; absent fields stay as they are.
pub struct CustomizationBody {
    pub name: Option<String>,
    pub greeting: Option<String>,
    pub wake_word: Option<String>,
    pub tts_engine: Option<String>,
    pub tts_voice: Option<String>,
    pub stt_language: Option<String>,
    pub theme: Option<String>,
    pub primary_color: Option<String>,
    pub accent_color: Option<String>,
    pub icon_style: Option<String>,
    pub response_style: Option<String>,
    pub persona: Option<String>,
}

/// The default fields, in order, as (key, value) pairs.
pub open spec fn default_pairs() -> Seq<(Seq<char>, Seq<char>)> {
    seq![
        ("name"@, "UMBRA"@),
        ("greeting"@, "sir"@),
        ("wake_word"@, "umbra"@),
        ("tts_engine"@, "fish"@),
        ("tts_voice"@, "default"@),
        ("stt_language"@, "en-US"@),
        ("theme"@, "dark"@),
        ("primary_color"@, "#7c3aed"@),
        ("accent_color"@, "#06b6d4"@),
        ("icon_style"@, "default"@),
        ("response_style"@, "concise"@),
        ("persona"@, "professional"@),
    ]
}

/// The fields as (key, value) pairs, in the order of the defaults.
pub open spec fn field_pairs(f: CustomizationFields) -> Seq<(Seq<char>, Seq<char>)> {
    seq![
        ("name"@, f.name@),
        ("greeting"@, f.greeting@),
        ("wake_word"@, f.wake_word@),
        ("tts_engine"@, f.tts_engine@),
        ("tts_voice"@, f.tts_voice@),
        ("stt_language"@, f.stt_language@),
        ("theme"@, f.theme@),
        ("primary_color"@, f.primary_color@),
        ("accent_color"@, f.accent_color@),
        ("icon_style"@, f.icon_style@),
        ("response_style"@, f.response_style@),
        ("persona"@, f.persona@),
    ]
}

/// The default fields.
pub fn default_fields() -> (r: CustomizationFields)
    ensures
        field_pairs(r) == default_pairs(),
{
    CustomizationFields {
        name: owned("UMBRA"),
        greeting: owned("sir"),
        wake_word: owned("umbra"),
        tts_engine: owned("fish"),
        tts_voice: owned("default"),
        stt_language: owned("en-US"),
        theme: owned("dark"),
        primary_color: owned("#7c3aed"),
        accent_color: owned("#06b6d4"),
        icon_style: owned("default"),
        response_style: owned("concise"),
        persona: owned("professional"),
    }
}

/// The default pairs, as served once a customization file exists.
pub fn default_list() -> (r: Vec<(String, String)>)
    ensures
        r@.len() == default_pairs().len(),
        forall|i: int| 0 <= i < r@.len() ==> (#[trigger] r@[i]).0@ == default_pairs()[i].0 && r@[i].1@ == default_pairs()[i].1,
{
    let f = default_fields();
    let r = vec![
        (owned("name"), f.name),
        (owned("greeting"), f.greeting),
        (owned("wake_word"), f.wake_word),
        (owned("tts_engine"), f.tts_engine),
        (owned("tts_voice"), f.tts_voice),
        (owned("stt_language"), f.stt_language),
        (owned("theme"), f.theme),
        (owned("primary_color"), f.primary_color),
        (owned("accent_color"), f.accent_color),
        (owned("icon_style"), f.icon_style),
        (owned("response_style"), f.response_style),
        (owned("persona"), f.persona),
    ];
    r
}

/// What the customization file holds, as far as loading is concerned.
pub enum StoredCustomization {
    /// There is no file.
    Missing,
    /// The file exists but could not be read.
    Unreadable,
    /// The bytes of the file.
    Bytes(Vec<u8>),
}

/// Loads the customization: the default fields when no file exists; once a
/// file exists, whatever it holds, the default list (the file is opened,
/// but its fields have no record to merge into).
pub fn load_customization(key: &[u8], stored: &StoredCustomization) -> (r: Customization)
    requires
        key@.len() == 32,
    ensures
        match stored {
            StoredCustomization::Missing => r matches Customization::Fields(f) && field_pairs(f) == default_pairs(),
            _ => r is DefaultList,
        },
{
    match stored {
        StoredCustomization::Missing => Customization::Fields(default_fields()),
        StoredCustomization::Unreadable => Customization::DefaultList,
        StoredCustomization::Bytes(data) => {
            let _opened = open_customization(key, data.as_slice());
            Customization::DefaultList
        },
    }
}

/// `new` is `old` replaced by `update` when present.
pub open spec fn updated(old: String, update: Option<String>, new: String) -> bool {
    new@ == match update {
        Some(v) => v@,
        None => old@,
    }
}

fn pick(old: String, update: Option<String>) -> (r: String)
    ensures
        updated(old, update, r),
{
    match update {
        Some(v) => v,
        None => old,
    }
}

/// Applies a change request: on a record of fields each present field
/// replaces the stored one; the default list is left as it is.
pub fn apply_customization(current: Customization, body: CustomizationBody) -> (r: Customization)
    ensures
        match current {
            Customization::Fields(f) => r matches Customization::Fields(g) && {
                &&& updated(f.name, body.name, g.name)
                &&& updated(f.greeting, body.greeting, g.greeting)
                &&& updated(f.wake_word, body.wake_word, g.wake_word)
                &&& updated(f.tts_engine, body.tts_engine, g.tts_engine)
                &&& updated(f.tts_voice, body.tts_voice, g.tts_voice)
                &&& updated(f.stt_language, body.stt_language, g.stt_language)
                &&& updated(f.theme, body.theme, g.theme)
                &&& updated(f.primary_color, body.primary_color, g.primary_color)
                &&& updated(f.accent_color, body.accent_color, g.accent_color)
                &&& updated(f.icon_style, body.icon_style, g.icon_style)
                &&& updated(f.response_style, body.response_style, g.response_style)
                &&& updated(f.persona, body.persona, g.persona)
            },
            Customization::DefaultList => r is DefaultList,
        },
{
    match current {
        Customization::Fields(f) => Customization::Fields(
            CustomizationFields {
                name: pick(f.name, body.name),
                greeting: pick(f.greeting, body.greeting),
                wake_word: pick(f.wake_word, body.wake_word),
                tts_engine: pick(f.tts_engine, body.tts_engine),
                tts_voice: pick(f.tts_voice, body.tts_voice),
                stt_language: pick(f.stt_language, body.stt_language),
                theme: pick(f.theme, body.theme),
                primary_color: pick(f.primary_color, body.primary_color),
                accent_color: pick(f.accent_color, body.accent_color),
                icon_style: pick(f.icon_style, body.icon_style),
                response_style: pick(f.response_style, body.response_style),
                persona: pick(f.persona, body.persona),
            },
        ),
        Customization::DefaultList => Customization::DefaultList,
    }
}

} // verus!
