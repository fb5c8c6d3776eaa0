//! Discovery-and-bounded-download pipeline.
//!
//! Walks an untyped JSON catalog for resource URLs, derives a deterministic
//! local path for each, and models the bounded-concurrency batch that fetches
//! and persists every resource with per-task failure isolation.

mod batch;
mod catalog;
mod errors;
mod json;
mod paths;
mod pipeline;
mod sniff;

pub use batch::Batch;
pub use batch::DownloadOutcome;
pub use batch::TaskPhase;
pub use batch::does_io;
pub use batch::dry_run_outcome;
pub use batch::failures_in;
pub use batch::holds_permit;
pub use batch::is_dry_outcome;
pub use batch::is_terminal;
pub use batch::lemma_ceiling_respected;
pub use batch::lemma_dry_run_skips_io;
pub use batch::lemma_one_outcome_per_descriptor;
pub use batch::lemma_summary_covers_batch;
pub use batch::permits_held;
pub use batch::run_dry_batch;
pub use batch::successes_in;
pub use catalog::Cdn;
pub use catalog::Image;
pub use catalog::ImageDownload;
pub use catalog::ImageDownloadView;
pub use catalog::MediaView;
pub use catalog::PanelMedia;
pub use catalog::Repo;
pub use catalog::Spec;
pub use catalog::all_repo_urls;
pub use catalog::catalog_media_of;
pub use catalog::decode_strings;
pub use catalog::decoded_forms;
pub use catalog::decoded_repo_data;
pub use catalog::decoded_strings;
pub use catalog::downloads_of_data;
pub use catalog::downloads_of_forms;
pub use catalog::downloads_of_repos;
pub use catalog::get_field;
pub use catalog::image_of;
pub use catalog::lookup_entries;
pub use catalog::media_of;
pub use catalog::plan_image_downloads;
pub use catalog::repo_data_of;
pub use catalog::repo_url;
pub use catalog::row_repo_urls;
pub use errors::CatalogError;
pub use errors::DownloadErrorKind;
pub use errors::FetchError;
pub use errors::MalformedResourceUrl;
pub use errors::classify_status;
pub use errors::is_success_status;
pub use json::JsonValue;
pub use json::entry_urls;
pub use json::extract_urls;
pub use json::find_urls_under;
pub use json::lemma_matched_key_ends_branch;
pub use json::parse_catalog;
pub use json::spec_parse_json;
pub use json::urls_under;
pub use json::urls_under_entries;
pub use json::urls_under_items;
pub use paths::DescriptorView;
pub use paths::ResourceDescriptor;
pub use paths::descriptor_from_segments;
pub use paths::directory_path;
pub use paths::final_path;
pub use paths::lemma_resolution_deterministic;
pub use paths::repo_id_of;
pub use paths::resolve_descriptor;
pub use paths::resolve_repo_id;
pub use paths::resolved_parts;
pub use paths::stem_path;
pub use paths::url_segments_of;
pub use pipeline::descriptors_from_catalog;
pub use pipeline::descriptors_of;
pub use pipeline::malformed_of;
pub use pipeline::resolve_all;
pub use sniff::WritePlan;
pub use sniff::plan_write;
pub use sniff::sniffed_extension;
pub use sniff::write_plan_with_extension;
