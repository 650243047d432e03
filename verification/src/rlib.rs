//! The `.rlib` artifact: its type metadata, and the source hashes stored with it.
//!
//! Writing and reading the `ar` archive and its JSON member is done by the command-line
//! front end; this module holds the metadata and computes the hashes.
use sha2::Digest;
use std::collections::BTreeMap;
use vstd::prelude::*;
use crate::text::{chars_of, push_char, push_str, str_eq, string_of};

verus! {

/// Type metadata stored in .rlib archives.
#[derive(Debug)]
pub struct TypeMetadata {
    pub compiler_version: String,
    pub name: String,
    pub version: String,
    pub exports: Exports,
}

/// Exported public API of a piece.
#[derive(Debug)]
pub struct Exports {
    pub types: Vec<ExportedType>,
    pub functions: Vec<ExportedFunction>,
    pub traits: Vec<ExportedTrait>,
    pub modules: BTreeMap<String, Exports>,
}

impl Default for Exports {
    /// An export list with nothing in it.
    fn default() -> (r: Exports)
        ensures
            r.types@.len() == 0,
            r.functions@.len() == 0,
            r.traits@.len() == 0,
    {
        Exports { types: Vec::new(), functions: Vec::new(), traits: Vec::new(), modules: BTreeMap::new() }
    }
}

/// An exported type (class or struct).
#[derive(Debug, Clone)]
pub struct ExportedType {
    pub name: String,
    pub kind: String,
    pub fields: Vec<ExportedField>,
    pub methods: Vec<ExportedFunction>,
}

/// An exported field.
#[derive(Debug, Clone)]
pub struct ExportedField {
    pub name: String,
    pub ty: String,
    pub visibility: String,
}

/// An exported function or method.
#[derive(Debug, Clone)]
pub struct ExportedFunction {
    pub name: String,
    pub params: Vec<ExportedParam>,
    pub return_type: String,
    pub visibility: String,
}

/// An exported function parameter.
#[derive(Debug, Clone)]
pub struct ExportedParam {
    pub name: String,
    pub ty: String,
}

/// An exported trait.
#[derive(Debug, Clone)]
pub struct ExportedTrait {
    pub name: String,
    pub methods: Vec<ExportedFunction>,
}

/// The SHA-256 digest of a byte sequence.
pub uninterp spec fn sha256_of(data: Seq<u8>) -> Seq<u8>;

/// Calls `sha2::Sha256::digest`: the 32-byte SHA-256 digest of `data`. The contract
/// names the digest (`sha256_of`) and states its length, which the crate fixes
/// (`OutputSize = U32`); the digest's value itself is not stated.
#[verifier::external_body]
fn sha256_digest(data: &[u8]) -> (r: Vec<u8>)
    ensures
        r@ == sha256_of(data@),
        r@.len() == 32,
{
    sha2::Sha256::digest(data).to_vec()
}

/// The lower-case hexadecimal digit for `n < 16`.
pub open spec fn hex_digit(n: int) -> char {
    if n < 10 {
        (n + 48) as char
    } else {
        (n + 87) as char
    }
}

/// Lower-case hexadecimal rendering of bytes, two digits per byte.
pub open spec fn hex_of(s: Seq<u8>) -> Seq<char>
    decreases s.len(),
{
    if s.len() == 0 {
        Seq::empty()
    } else {
        hex_of(s.drop_last()) + seq![hex_digit(s.last() as int / 16), hex_digit(s.last() as int % 16)]
    }
}

/// Two hexadecimal digits per byte.
pub proof fn lemma_hex_len(s: Seq<u8>)
    ensures
        hex_of(s).len() == 2 * s.len(),
    decreases s.len(),
{
    if s.len() > 0 {
        lemma_hex_len(s.drop_last());
    }
}

fn hex_char(d: u8) -> (c: char)
    requires
        d < 16,
    ensures
        c == hex_digit(d as int),
{
    if d < 10 {
        (d + 48) as char
    } else {
        (d + 87) as char
    }
}

/// Renders a digest as stored: `sha256:` and its bytes in lower-case hexadecimal.
pub fn format_digest(digest: &[u8]) -> (r: String)
    ensures
        r@ == "sha256:"@ + hex_of(digest@),
{
    let mut out = string_of("sha256:");
    let mut i: usize = 0;
    while i < digest.len()
        invariant
            i <= digest@.len(),
            out@ == "sha256:"@ + hex_of(digest@.take(i as int)),
        decreases digest@.len() - i,
    {
        let b = digest[i];
        push_char(&mut out, hex_char(b / 16));
        push_char(&mut out, hex_char(b % 16));
        proof {
            let t = digest@.take(i + 1);
            assert(t.drop_last() =~= digest@.take(i as int));
            assert(t.last() == b);
            assert(out@ =~= "sha256:"@ + hex_of(t));
        }
        i = i + 1;
    }
    proof { assert(digest@.take(i as int) =~= digest@); }
    out
}

/// Whether the source hash descends into a directory: not into hidden ones (starting
/// with `.`) nor into `target`.
pub fn is_hashed_dir(name: &str) -> (r: bool)
    ensures
        r == !((name@.len() > 0 && name@[0] == '.') || name@ == "target"@),
{
    let cs = chars_of(name);
    !((cs.len() > 0 && cs[0] == '.') || str_eq(name, "target"))
}

/// The SHA-256 hash of a byte slice, as `sha256:<hex>`.
pub fn hash_bytes(data: &[u8]) -> (r: String)
    ensures
        r@ == "sha256:"@ + hex_of(sha256_of(data@)),
        r@.len() == 71,
{
    let digest = sha256_digest(data);
    let r = format_digest(digest.as_slice());
    proof {
        lemma_hex_len(digest@);
        reveal_strlit("sha256:");
    }
    r
}

/// The message given when an archive was written by another compiler version.
pub open spec fn incompatible_message(found: Seq<char>, current: Seq<char>) -> Seq<char> {
    "incompatible .rlib: compiled with rivenc "@ + found + " but current compiler is "@ + current
}

/// Checks that an archive's recorded compiler version is the running compiler's: `Ok`
/// exactly when the two are the same text, and otherwise an error naming both.
pub fn check_compatible(found: &str, current: &str) -> (r: Result<(), String>)
    ensures
        r.is_ok() <==> found@ == current@,
        r matches Err(m) ==> m@ == incompatible_message(found@, current@),
{
    if str_eq(found, current) {
        Ok(())
    } else {
        let mut m = string_of("incompatible .rlib: compiled with rivenc ");
        push_str(&mut m, found);
        push_str(&mut m, " but current compiler is ");
        push_str(&mut m, current);
        Err(m)
    }
}


/// The bytes hashed for a set of source files: each file's path (UTF-8) followed by its
/// contents, file after file.
pub open spec fn sources_bytes(files: Seq<(String, Vec<u8>)>) -> Seq<u8>
    decreases files.len(),
{
    if files.len() == 0 {
        Seq::empty()
    } else {
        sources_bytes(files.drop_last()) + vstd::utf8::encode_utf8(files.last().0@) + files.last().1@
    }
}

/// The source hash of a directory, given its `.rvn` files in the order they are walked,
/// each with its path relative to the directory: `sha256:` and the hexadecimal SHA-256
/// of each path followed by its contents.
pub fn hash_source_files(files: &Vec<(String, Vec<u8>)>) -> (r: String)
    ensures
        r@ == "sha256:"@ + hex_of(sha256_of(sources_bytes(files@))),
{
    let mut data: Vec<u8> = Vec::new();
    let mut i: usize = 0;
    while i < files.len()
        invariant
            i <= files@.len(),
            data@ == sources_bytes(files@.take(i as int)),
        decreases files@.len() - i,
    {
        let ghost before = data@;
        let path_bytes = files[i].0.as_str().as_bytes();
        let mut k: usize = 0;
        while k < path_bytes.len()
            invariant
                k <= path_bytes@.len(),
                data@ == before + path_bytes@.take(k as int),
            decreases path_bytes@.len() - k,
        {
            data.push(path_bytes[k]);
            k = k + 1;
            proof { assert(data@ =~= before + path_bytes@.take(k as int)); }
        }
        let ghost mid = data@;
        let content = &files[i].1;
        let mut k: usize = 0;
        while k < content.len()
            invariant
                k <= content@.len(),
                data@ == mid + content@.take(k as int),
            decreases content@.len() - k,
        {
            data.push(content[k]);
            k = k + 1;
            proof { assert(data@ =~= mid + content@.take(k as int)); }
        }
        proof {
            assert(path_bytes@.take(path_bytes@.len() as int) =~= path_bytes@);
            assert(content@.take(content@.len() as int) =~= content@);
            assert(files@.take(i + 1).drop_last() =~= files@.take(i as int));
            assert(files@.take(i + 1).last() == files@[i as int]);
        }
        i = i + 1;
    }
    proof { assert(files@.take(files@.len() as int) =~= files@); }
    hash_bytes(data.as_slice())
}

} // verus!
