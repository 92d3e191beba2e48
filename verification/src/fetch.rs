//! What the document fetcher computes: the URL a service's description lives
//! at, and the check that a response body looks like such a description.
//! The HTTP work itself is the caller's concern.

use vstd::prelude::*;
use crate::config::{ServiceConfig, ServiceConfigView};
use crate::text::{concat_str, contains_seq, contains_substr};

verus! {

/// The outcome of fetching one service's document.
pub struct FetchResult {
    pub service: String,
    pub content: Option<String>,
    pub error: Option<String>,
}

/// The URL a service's description is fetched from:
/// `https://{service}/$discovery/{format}`, with `?label={label}` appended
/// when a visibility label is configured.
pub open spec fn spec_build_url(c: ServiceConfigView) -> Seq<char> {
    let base = "https://"@ + c.service + "/$discovery/"@ + c.format;
    match c.visibility_label {
        Some(label) => base + "?label="@ + label,
        None => base,
    }
}

/// Builds the discovery URL of one service.
pub fn build_url(service: &ServiceConfig) -> (r: String)
    ensures
        r@ == spec_build_url(service.deep_view()),
{
    let mut url = concat_str("https://", service.service.as_str());
    url.append("/$discovery/");
    url.append(service.format.as_str());
    match &service.visibility_label {
        Some(label) => {
            url.append("?label=");
            url.append(label.as_str());
            proof {
                assert(url@ =~= spec_build_url(service.deep_view()));
            }
        },
        None => {
            proof {
                assert(url@ =~= spec_build_url(service.deep_view()));
            }
        },
    }
    url
}

/// Whether a response body looks like a discovery document: it mentions the
/// quoted `discoveryVersion` field somewhere.
pub fn is_discovery_document(content: &str) -> (r: bool)
    ensures
        r == contains_seq(content@, "\"discoveryVersion\""@),
{
    contains_substr(content, "\"discoveryVersion\"")
}

} // verus!
