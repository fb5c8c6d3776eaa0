//! The content sniffer: picks a file extension from the downloaded bytes.
//!
//! The upstream service omits or misreports content types, so the
//! extension is inferred from the payload's magic bytes rather than from
//! the URL or any header. An unrecognized payload falls back to a generic
//! binary extension instead of failing the task.

use crate::paths::ResourceDescriptor;
use crate::paths::final_path;
use vstd::prelude::*;

verus! {

/// The extension that byte-signature sniffing assigns to a payload
/// (`png`, `jpg`, ..., or the generic binary fallback). A pure function of
/// the bytes.
pub uninterp spec fn sniffed_extension(bytes: Seq<u8>) -> Seq<char>;

/// Relies on `file_format::FileFormat::from_bytes` and
/// `FileFormat::extension`: detection reads only the payload, never fails,
/// and every format carries a fixed, nonempty extension (arbitrary binary
/// data is the fallback).
#[verifier::external_body]
fn sniff_extension_raw(bytes: &[u8]) -> (r: String)
    ensures
        r@ == sniffed_extension(bytes@),
        r@.len() > 0,
{
    file_format::FileFormat::from_bytes(bytes).extension().to_string()
}

/// Where one fetched payload is to be written: the directory to create,
/// the resolved extension, and the full file path.
#[derive(Debug)]
pub struct WritePlan {
    pub directory: String,
    pub extension: String,
    pub path: String,
}

/// Builds the write target for a payload whose extension is already
/// resolved: directory `root/local_directory`, file
/// `root/local_directory/local_stem.extension`.
pub fn write_plan_with_extension(root: &str, descriptor: &ResourceDescriptor, extension: String)
    -> (r: WritePlan)
    ensures
        r.extension == extension,
        r.directory@ == root@ + "/"@ + descriptor.local_directory@,
        r.path@ == root@ + "/"@ + descriptor.local_directory@ + "/"@ + descriptor.local_stem@
            + "."@ + extension@,
{
    let directory = crate::paths::directory_path(root, descriptor.local_directory.as_str());
    let path = final_path(
        root,
        descriptor.local_directory.as_str(),
        descriptor.local_stem.as_str(),
        extension.as_str(),
    );
    WritePlan { directory, extension, path }
}

/// Sniffs the payload and builds the write target from the resolved
/// extension: the extension is exactly what byte-signature sniffing
/// assigns to `bytes`, and the path puts `local_stem.extension` under
/// `root/local_directory`.
pub fn plan_write(root: &str, descriptor: &ResourceDescriptor, bytes: &[u8]) -> (r: WritePlan)
    ensures
        r.extension@ == sniffed_extension(bytes@),
        r.extension@.len() > 0,
        r.directory@ == root@ + "/"@ + descriptor.local_directory@,
        r.path@ == root@ + "/"@ + descriptor.local_directory@ + "/"@ + descriptor.local_stem@
            + "."@ + sniffed_extension(bytes@),
{
    let extension = sniff_extension_raw(bytes);
    write_plan_with_extension(root, descriptor, extension)
}

} // verus!
