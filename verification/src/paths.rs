//! The path resolver: maps a resource URL to a deterministic local
//! storage location.
//!
//! The conventional catalog layout nests resources as
//! `<collection>/<resource-id>`, so the last two path segments of a URL
//! become the subdirectory and the filename stem. A URL whose path is
//! shorter is rejected as malformed rather than guessed at. No network or
//! filesystem I/O happens here.

use crate::errors::MalformedResourceUrl;
use vstd::prelude::*;

verus! {

/// The slash-separated path segments of `url`, or `None` when `url` does
/// not parse as an absolute URL or its path has no segments at all.
/// Parsing is a pure function of the text.
pub uninterp spec fn url_segments_of(url: Seq<char>) -> Option<Seq<Seq<char>>>;

/// Relies on `url::Url::parse` and `url::Url::path_segments`: parsing is
/// deterministic in the text, and `path_segments` returns the parsed URL's
/// path split on `/` (after the leading one), or `None` for a URL that
/// cannot be a base.
#[verifier::external_body]
fn url_path_segments(url: &str) -> (r: Option<Vec<String>>)
    ensures
        r is Some <==> url_segments_of(url@) is Some,
        r matches Some(v) ==> Some(v.deep_view()) == url_segments_of(url@),
{
    match url::Url::parse(url) {
        Ok(u) => match u.path_segments() {
            Some(segments) => Some(segments.map(|s| s.to_string()).collect()),
            None => None,
        },
        Err(_) => None,
    }
}

/// The resolved, pre-download record identifying one resource: where it
/// comes from and where it will be stored. Derived once per discovered URL
/// and never mutated afterwards.
#[derive(Clone, Debug, PartialEq, Eq)]
pub struct ResourceDescriptor {
    pub source_url: String,
    pub local_directory: String,
    pub local_stem: String,
}

/// The mathematical content of a descriptor.
pub struct DescriptorView {
    pub source_url: Seq<char>,
    pub local_directory: Seq<char>,
    pub local_stem: Seq<char>,
}

impl View for ResourceDescriptor {
    type V = DescriptorView;

    open spec fn view(&self) -> DescriptorView {
        DescriptorView {
            source_url: self.source_url@,
            local_directory: self.local_directory@,
            local_stem: self.local_stem@,
        }
    }
}

impl DeepView for ResourceDescriptor {
    type V = DescriptorView;

    open spec fn deep_view(&self) -> DescriptorView {
        self.view()
    }
}

/// The `(local_directory, local_stem)` pair that `url` resolves to: its
/// last two path segments, or `None` when the path has fewer than two.
pub open spec fn resolved_parts(url: Seq<char>) -> Option<(Seq<char>, Seq<char>)> {
    match url_segments_of(url) {
        Some(segs) => if segs.len() >= 2 {
            Some((segs[segs.len() - 2], segs[segs.len() - 1]))
        } else {
            None
        },
        None => None,
    }
}

/// Builds the descriptor for `url` out of its already-split path segments:
/// the second-to-last segment names the subdirectory, the last one the
/// filename stem. Fails exactly when fewer than two segments exist.
pub fn descriptor_from_segments(url: &str, segments: &Vec<String>) -> (r: Result<
    ResourceDescriptor,
    MalformedResourceUrl,
>)
    ensures
        r is Ok <==> segments.deep_view().len() >= 2,
        r matches Ok(d) ==> ({
            &&& d.source_url@ == url@
            &&& d.local_directory@ == segments.deep_view()[segments.deep_view().len() - 2]
            &&& d.local_stem@ == segments.deep_view()[segments.deep_view().len() - 1]
        }),
{
    let n = segments.len();
    if n < 2 {
        Err(MalformedResourceUrl)
    } else {
        Ok(
            ResourceDescriptor {
                source_url: url.to_owned(),
                local_directory: segments[n - 2].clone(),
                local_stem: segments[n - 1].clone(),
            },
        )
    }
}

/// Resolves a resource URL to its descriptor: deterministic in the URL,
/// and `MalformedResourceUrl` exactly when the URL does not parse or its
/// path has fewer than two segments.
pub fn resolve_descriptor(url: &str) -> (r: Result<ResourceDescriptor, MalformedResourceUrl>)
    ensures
        r is Ok <==> resolved_parts(url@) is Some,
        r matches Ok(d) ==> ({
            &&& d.source_url@ == url@
            &&& resolved_parts(url@) == Some((d.local_directory@, d.local_stem@))
        }),
{
    match url_path_segments(url) {
        Some(segments) => descriptor_from_segments(url, &segments),
        None => Err(MalformedResourceUrl),
    }
}

/// Law: path resolution is deterministic. The parts a URL resolves to are
/// a function of the URL alone, so any two descriptors that meet the
/// resolver's contract for the same URL store to the same location.
pub proof fn lemma_resolution_deterministic(
    d1: DescriptorView,
    d2: DescriptorView,
    url: Seq<char>,
)
    requires
        resolved_parts(url) == Some((d1.local_directory, d1.local_stem)),
        resolved_parts(url) == Some((d2.local_directory, d2.local_stem)),
    ensures
        d1.local_directory == d2.local_directory,
        d1.local_stem == d2.local_stem,
{
}

/// The last path segment of `url`, or `None` when `url` does not parse or
/// has an empty segment list.
pub open spec fn repo_id_of(url: Seq<char>) -> Option<Seq<char>> {
    match url_segments_of(url) {
        Some(segs) => if segs.len() >= 1 {
            Some(segs[segs.len() - 1])
        } else {
            None
        },
        None => None,
    }
}

/// The identifier a sub-catalog is stored under: the last path segment of
/// its URL. Fails exactly when no segment can be derived.
pub fn resolve_repo_id(url: &str) -> (r: Result<String, MalformedResourceUrl>)
    ensures
        r is Ok <==> repo_id_of(url@) is Some,
        r matches Ok(s) ==> Some(s@) == repo_id_of(url@),
{
    match url_path_segments(url) {
        Some(segments) => {
            let n = segments.len();
            if n == 0 {
                Err(MalformedResourceUrl)
            } else {
                Ok(segments[n - 1].clone())
            }
        },
        None => Err(MalformedResourceUrl),
    }
}

/// The directory all files of one collection go to: `root/directory`.
pub fn directory_path(root: &str, directory: &str) -> (r: String)
    ensures
        r@ == root@ + "/"@ + directory@,
{
    let mut path = root.to_owned();
    path.append("/");
    path.append(directory);
    path
}

/// The path a resource is stored at before its extension is known:
/// `root/directory/stem`.
pub fn stem_path(root: &str, directory: &str, stem: &str) -> (r: String)
    ensures
        r@ == root@ + "/"@ + directory@ + "/"@ + stem@,
{
    let mut path = directory_path(root, directory);
    path.append("/");
    path.append(stem);
    path
}

/// The final path a resource is written to, once sniffing has resolved its
/// extension: `root/directory/stem.extension`.
pub fn final_path(root: &str, directory: &str, stem: &str, extension: &str) -> (r: String)
    ensures
        r@ == root@ + "/"@ + directory@ + "/"@ + stem@ + "."@ + extension@,
{
    let mut path = stem_path(root, directory, stem);
    path.append(".");
    path.append(extension);
    path
}

} // verus!
