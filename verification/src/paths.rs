//! Path keys and path joining.
//!
//! Two paths name the same asset when they differ only in letter case, in
//! the separator used, or in Unicode canonical form. [`normalize`] maps a
//! path to the key that stands for all of them; every identity comparison
//! in this crate goes through it.

use vstd::prelude::*;
use unicode_normalization::UnicodeNormalization;
use crate::text::{
    chars_of, concat, ends_with, lowercase_of, replace_char, replaced, starts_with, string_of,
    to_lowercase,
};

verus! {

/// The canonical composition (NFC) of a string, as the crate
/// `unicode-normalization` computes it.
pub uninterp spec fn nfc_of(s: Seq<char>) -> Seq<char>;

/// Calls `UnicodeNormalization::nfc` of the crate `unicode-normalization`
/// and collects what it yields. Trusted: the result is named [`nfc_of`];
/// nothing more is claimed of it.
#[verifier::external_body]
fn nfc(s: &str) -> (r: String)
    ensures
        r@ == nfc_of(s@),
{
    s.nfc().collect()
}

/// `composed` with every backslash turned into a forward slash.
pub open spec fn slashed(composed: Seq<char>) -> Seq<char> {
    replaced(composed, '\\', '/')
}

/// The key of a path: lower-cased, composed, and with forward slashes only.
pub open spec fn normalized(path: Seq<char>) -> Seq<char> {
    slashed(nfc_of(lowercase_of(path)))
}

/// Turns every backslash of `composed` into a forward slash.
pub fn forward_slashes(composed: &str) -> (key: String)
    ensures
        key@ == slashed(composed@),
{
    let chars = chars_of(composed);
    let out = replace_char(&chars, '\\', '/');
    string_of(&out)
}

/// The key under which a path is stored and looked up.
pub fn normalize(path: &str) -> (key: String)
    ensures
        key@ == normalized(path@),
{
    let lower = to_lowercase(path);
    let composed = nfc(lower.as_str());
    forward_slashes(composed.as_str())
}

/// A key never holds a backslash.
pub proof fn lemma_key_has_no_backslash(path: Seq<char>)
    ensures
        !normalized(path).contains('\\'),
{
    let key = normalized(path);
    assert forall|i: int| 0 <= i < key.len() implies key[i] != '\\' by {}
}

/// Whether a key names a texture: it lies under `textures/` and ends in
/// `.dds`.
pub open spec fn is_texture_key(key: Seq<char>) -> bool {
    ".dds"@.is_suffix_of(key) && "textures/"@.is_prefix_of(key)
}

/// Whether a key names a texture.
pub fn is_texture(key: &str) -> (r: bool)
    ensures
        r == is_texture_key(key@),
{
    let chars = chars_of(key);
    let ext = chars_of(".dds");
    let root = chars_of("textures/");
    ends_with(&chars, &ext) && starts_with(&chars, &root)
}

/// `name` seen from the directory `dir`: a name that begins with `/`
/// stands for itself, otherwise it follows `dir`, with one `/` between the
/// two unless `dir` is empty or ends in one.
pub open spec fn joined(dir: Seq<char>, name: Seq<char>) -> Seq<char> {
    if name.len() > 0 && name[0] == '/' {
        name
    } else if dir.len() == 0 || dir.last() == '/' {
        dir + name
    } else {
        dir.push('/') + name
    }
}

/// The path of `name` inside the directory `dir`.
pub fn join_path(dir: &str, name: &str) -> (path: String)
    ensures
        path@ == joined(dir@, name@),
{
    let d = chars_of(dir);
    let n = chars_of(name);
    if n.len() > 0 && n[0] == '/' {
        string_of(&n)
    } else if d.len() == 0 || d[d.len() - 1] == '/' {
        string_of(&concat(&d, &n))
    } else {
        let mut with_sep = d;
        with_sep.push('/');
        string_of(&concat(&with_sep, &n))
    }
}

} // verus!
