//! Locating the zip archive embedded in the self-extracting installer.
//!
//! The vendor ships the injector inside a self-extracting executable. The
//! archive is found by scanning the byte stream for the first occurrence of
//! the zip local-file-header signature `50 4B 03 04`; the archive starts at
//! the signature itself.

use std::io::Read;

use vstd::prelude::*;
use vstd::slice::slice_subrange;
use vstd::string::*;

use crate::errors::ReShaderError;
use crate::errors::ReShaderResult;

verus! {

/// True when the zip local-file-header signature stands at offset `k` of `b`.
pub open spec fn is_sig_at(b: Seq<u8>, k: int) -> bool {
    &&& 0 <= k
    &&& k + 4 <= b.len()
    &&& b[k] == 0x50u8
    &&& b[k + 1] == 0x4bu8
    &&& b[k + 2] == 0x03u8
    &&& b[k + 3] == 0x04u8
}

/// Offset of the embedded zip archive in `data`: the first offset at which
/// the signature occurs. `None` exactly when the signature occurs nowhere.
pub fn find_zip_offset(data: &[u8]) -> (r: Option<usize>)
    ensures
        match r {
            Some(k) => is_sig_at(data@, k as int) && forall|j: int|
                0 <= j < k ==> !is_sig_at(data@, j),
            None => forall|j: int| !is_sig_at(data@, j),
        },
{
    let n = data.len();
    if n < 4 {
        return None;
    }
    let mut i: usize = 0;
    while i <= n - 4
        invariant
            n == data@.len(),
            4 <= n,
            0 <= i <= n - 4 + 1,
            forall|j: int| 0 <= j < i ==> !is_sig_at(data@, j),
        decreases n - i,
    {
        if data[i] == 0x50 && data[i + 1] == 0x4b && data[i + 2] == 0x03 && data[i + 3] == 0x04 {
            return Some(i);
        }
        i = i + 1;
    }
    None
}

/// The signature occurs somewhere in `b`.
pub open spec fn has_sig(b: Seq<u8>) -> bool {
    exists|k: int| is_sig_at(b, k)
}

/// The first offset at which the signature occurs.
pub open spec fn sig_offset(b: Seq<u8>) -> int {
    choose|k: int| is_sig_at(b, k) && forall|j: int| 0 <= j < k ==> !is_sig_at(b, j)
}

/// The first signature offset is the unique one with nothing before it.
pub proof fn lemma_sig_offset(b: Seq<u8>, k: int)
    requires
        is_sig_at(b, k),
        forall|j: int| 0 <= j < k ==> !is_sig_at(b, j),
    ensures
        sig_offset(b) == k,
{
    let c = choose|c: int| is_sig_at(b, c) && forall|j: int| 0 <= j < c ==> !is_sig_at(b, j);
    if c < k {
        assert(!is_sig_at(b, c));
    }
    if k < c {
        assert(!is_sig_at(b, k));
    }
}

/// How a zip read of a byte region can fail.
#[derive(Debug, Clone, Copy, PartialEq, Eq, Structural)]
pub enum ZipEntryError {
    /// The bytes do not open as a zip archive.
    BadArchive,
    /// The archive opened but holds no entry of the requested name.
    EntryNotFound,
    /// The entry exists but its content could not be read out.
    ReadFailed,
}

/// Whether the byte region opens as a zip archive; a function of the bytes
/// alone.
pub uninterp spec fn zip_parses(b: Seq<u8>) -> bool;

/// The stored content of the named entry of the archive held in `b`, or
/// nothing when the archive holds no entry of that name; a function of the
/// bytes and the name alone.
pub uninterp spec fn zip_entry(b: Seq<u8>, name: Seq<char>) -> Option<Seq<u8>>;

/// Relies on `zip::ZipArchive::new` and `ZipArchive::by_name`: opening
/// succeeds or fails on the bytes alone; `by_name` fails with `FileNotFound`
/// exactly when the name is absent from the central directory; a successful
/// read yields the entry's stored content.
#[verifier::external_body]
fn read_zip_entry(bytes: &[u8], name: &str) -> (r: Result<Vec<u8>, ZipEntryError>)
    ensures
        r matches Ok(v) ==> zip_parses(bytes@) && zip_entry(bytes@, name@) == Some(v@),
        (r matches Err(ZipEntryError::BadArchive)) <==> !zip_parses(bytes@),
        (r matches Err(ZipEntryError::EntryNotFound)) <==> (zip_parses(bytes@) && zip_entry(
            bytes@,
            name@,
        ) is None),
        r matches Err(ZipEntryError::ReadFailed) ==> zip_parses(bytes@) && zip_entry(
            bytes@,
            name@,
        ) is Some,
{
    let mut archive = match zip::ZipArchive::new(std::io::Cursor::new(bytes)) {
        Ok(a) => a,
        Err(_) => return Err(ZipEntryError::BadArchive),
    };
    let mut file = match archive.by_name(name) {
        Ok(f) => f,
        Err(zip::result::ZipError::FileNotFound) => return Err(ZipEntryError::EntryNotFound),
        Err(_) => return Err(ZipEntryError::ReadFailed),
    };
    let mut buf = Vec::new();
    match file.read_to_end(&mut buf) {
        Ok(_) => Ok(buf),
        Err(_) => Err(ZipEntryError::ReadFailed),
    }
}

/// The name of the library entry carved out of the installer's archive.
pub open spec fn injector_entry_name() -> Seq<char> {
    "ReShade64.dll"@
}

/// Carves the injector library out of a downloaded installer executable:
/// locates the embedded zip archive at the first signature offset, opens the
/// trailing region as an archive, and reads the injector library entry.
///
/// Fails with `NoZipFile` exactly when the installer holds no signature,
/// with `ReadZipFile` exactly when the trailing region does not open as an
/// archive, and with `NoReShade64Dll` exactly when the archive opens but
/// lacks the entry.
pub fn carve_injector_library(installer: &[u8]) -> (r: ReShaderResult<Vec<u8>>)
    ensures
        (r matches Err(e) && e == ReShaderError::NoZipFile) <==> !has_sig(installer@),
        has_sig(installer@) ==> {
            let tail = installer@.skip(sig_offset(installer@));
            &&& (r matches Ok(v) ==> zip_entry(tail, injector_entry_name()) == Some(v@))
            &&& ((r matches Err(e) && e == ReShaderError::ReadZipFile) <==> !zip_parses(tail))
            &&& ((r matches Err(e) && e == ReShaderError::NoReShade64Dll) <==> (zip_parses(tail)
                && zip_entry(tail, injector_entry_name()) is None))
            &&& ((r matches Err(e) && e == ReShaderError::ExtractZipFile) ==> (zip_parses(tail)
                && zip_entry(tail, injector_entry_name()) is Some))
        },
{
    let k = match find_zip_offset(installer) {
        Some(k) => k,
        None => {
            return Err(ReShaderError::NoZipFile);
        },
    };
    proof {
        lemma_sig_offset(installer@, k as int);
    }
    let tail = slice_subrange(installer, k, installer.len());
    proof {
        assert(tail@ =~= installer@.skip(k as int));
    }
    match read_zip_entry(tail, "ReShade64.dll") {
        Ok(v) => Ok(v),
        Err(ZipEntryError::BadArchive) => Err(ReShaderError::ReadZipFile),
        Err(ZipEntryError::EntryNotFound) => Err(ReShaderError::NoReShade64Dll),
        Err(ZipEntryError::ReadFailed) => Err(ReShaderError::ExtractZipFile),
    }
}

/// The on-disk file name under which the carved injector library is kept in
/// the data directory; it encodes the installed variant, so that both
/// variants can coexist and only the symlink decides which is active.
pub fn injector_file_name(vanilla: bool) -> (r: String)
    ensures
        vanilla ==> r@ == "ReShade64.Vanilla.dll"@,
        !vanilla ==> r@ == "ReShade64.Addon.dll"@,
{
    if vanilla {
        String::from_str("ReShade64.Vanilla.dll")
    } else {
        String::from_str("ReShade64.Addon.dll")
    }
}

} // verus!
