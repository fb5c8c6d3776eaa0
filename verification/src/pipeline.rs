//! The discovery half of the pipeline: from a catalog tree to the
//! descriptor list a batch runs over.
//!
//! Every URL discovered in the catalog either yields one descriptor or is
//! set aside as malformed — skipped and reported, never silently dropped
//! and never fatal to the batch.

use crate::json::JsonValue;
use crate::json::find_urls_under;
use crate::json::urls_under;
use crate::paths::DescriptorView;
use crate::paths::ResourceDescriptor;
use crate::paths::resolve_descriptor;
use crate::paths::resolved_parts;
use vstd::prelude::*;

verus! {

/// The descriptors the resolvable URLs of `urls` yield, in order.
pub open spec fn descriptors_of(urls: Seq<Seq<char>>) -> Seq<DescriptorView>
    decreases urls.len(),
{
    if urls.len() == 0 {
        Seq::empty()
    } else {
        descriptors_of(urls.drop_last()) + match resolved_parts(urls.last()) {
            Some(parts) => seq![
                DescriptorView {
                    source_url: urls.last(),
                    local_directory: parts.0,
                    local_stem: parts.1,
                },
            ],
            None => Seq::empty(),
        }
    }
}

/// The URLs of `urls` that resolve to no storage path, in order.
pub open spec fn malformed_of(urls: Seq<Seq<char>>) -> Seq<Seq<char>>
    decreases urls.len(),
{
    if urls.len() == 0 {
        Seq::empty()
    } else {
        malformed_of(urls.drop_last()) + match resolved_parts(urls.last()) {
            Some(parts) => Seq::<Seq<char>>::empty(),
            None => seq![urls.last()],
        }
    }
}

/// Resolves every discovered URL: the resolvable ones become descriptors,
/// the malformed ones are set aside, both in discovery order.
pub fn resolve_all(urls: &Vec<String>) -> (r: (Vec<ResourceDescriptor>, Vec<String>))
    ensures
        r.0.deep_view() == descriptors_of(urls.deep_view()),
        r.1.deep_view() == malformed_of(urls.deep_view()),
{
    let n = urls.len();
    let mut descriptors: Vec<ResourceDescriptor> = Vec::new();
    let mut malformed: Vec<String> = Vec::new();
    let mut i: usize = 0;
    while i < n
        invariant
            i <= n,
            n == urls@.len(),
            descriptors.deep_view() == descriptors_of(urls.deep_view().take(i as int)),
            malformed.deep_view() == malformed_of(urls.deep_view().take(i as int)),
        decreases n - i,
    {
        let ghost dv_before = descriptors.deep_view();
        let ghost mv_before = malformed.deep_view();
        match resolve_descriptor(urls[i].as_str()) {
            Ok(d) => {
                descriptors.push(d);
            },
            Err(_) => {
                malformed.push(urls[i].clone());
            },
        }
        proof {
            let uv = urls.deep_view();
            assert(uv.take(i + 1).drop_last() =~= uv.take(i as int));
            if resolved_parts(uv[i as int]) is Some {
                assert(descriptors.deep_view() =~= descriptors_of(uv.take(i + 1)));
                assert(malformed.deep_view() =~= malformed_of(uv.take(i + 1)));
            } else {
                assert(descriptors.deep_view() =~= descriptors_of(uv.take(i + 1)));
                assert(malformed.deep_view() =~= malformed_of(uv.take(i + 1)));
            }
        }
        i = i + 1;
    }
    proof {
        assert(urls.deep_view().take(n as int) =~= urls.deep_view());
    }
    (descriptors, malformed)
}

/// Discovers every resource URL under `key` in the catalog tree and
/// resolves each: one descriptor per resolvable URL and one malformed
/// entry per URL without a storage path, both in document order.
pub fn descriptors_from_catalog(catalog: &JsonValue, key: &String) -> (r: (
    Vec<ResourceDescriptor>,
    Vec<String>,
))
    ensures
        r.0.deep_view() == descriptors_of(urls_under(*catalog, key@)),
        r.1.deep_view() == malformed_of(urls_under(*catalog, key@)),
{
    let urls = find_urls_under(catalog, key);
    resolve_all(&urls)
}

} // verus!
