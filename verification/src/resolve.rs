//! The resolution pipeline's decision logic: response-status validation, the
//! lookup URLs, the listing-page extraction, and the resolution of one raw
//! import path's page body to its canonical root-module identifier. The
//! network fetches themselves happen outside the crate; each function here
//! takes a fetched response as plain values.

use vstd::prelude::*;
use vstd::string::*;

use crate::extract::Extraction;
use crate::extract::anomaly_counts;
use crate::extract::extract_first_texts;
use crate::extract::first_texts;
use crate::extract::node_view;
use crate::extract::select_text_nodes;
use crate::extract::selected_texts;
use crate::extract::selector_ok;
use crate::text::trim_str;
use crate::text::trimmed;

verus! {

/// Whether an HTTP status code counts as success: the 2xx range.
pub open spec fn status_success(status: u16) -> bool {
    200 <= status < 300
}

/// Returns whether the status code is in the 2xx success range.
pub fn status_is_success(status: u16) -> (r: bool)
    ensures
        r == status_success(status),
{
    200 <= status && status < 300
}

/// The selector matching the import-detail elements of a listing page.
pub fn listing_selector() -> (s: &'static str)
    ensures
        s@ == ".ImportedBy-detailsIndent"@,
{
    ".ImportedBy-detailsIndent"
}

/// The selector matching the second breadcrumb item's anchor on a path's own
/// page, whose text names the root module that owns the path.
pub fn breadcrumb_selector() -> (s: &'static str)
    ensures
        s@ == ".go-Main-headerBreadcrumb li:nth-child(2) a"@,
{
    ".go-Main-headerBreadcrumb li:nth-child(2) a"
}

/// The URL of the page listing the importers of `module`.
pub fn listing_url(module: &str) -> (r: String)
    ensures
        r@ == "https://pkg.go.dev/"@ + module@ + "?tab=importedby"@,
{
    let mut url = String::from_str("https://pkg.go.dev/");
    url.append(module);
    url.append("?tab=importedby");
    url
}

/// The URL of a raw import path's own page.
pub fn lookup_url(path: &str) -> (r: String)
    ensures
        r@ == "https://pkg.go.dev/"@ + path@,
{
    let mut url = String::from_str("https://pkg.go.dev/");
    url.append(path);
    url
}

/// Why a whole run must stop: the listing page cannot be read at all.
#[derive(Debug, PartialEq, Eq)]
pub enum FatalError {
    /// The listing fetch answered with a non-2xx status.
    HttpStatus(u16),
    /// The listing selector does not compile: a defect, not an input.
    InvalidSelector,
}

/// Why one raw import path yielded no identifier. Such a failure is logged
/// and dropped; it never stops the run.
#[derive(Debug, PartialEq, Eq)]
pub enum ResolveFailure {
    /// The fetch itself failed before any status arrived, with the
    /// transport's own description. Produced at the fetch boundary, outside
    /// this crate.
    Transport(String),
    /// The path's page answered with a non-2xx status.
    HttpStatus(u16),
    /// The breadcrumb selector does not compile: a defect, not an input.
    InvalidSelector,
    /// No element of the page matches the breadcrumb selector.
    NoElement,
    /// The matching element has no text node.
    NoText,
}

/// Validates the listing response and extracts the raw import paths: the
/// first text node of each import-detail element, in document order,
/// together with the anomaly counts. Fails on a non-2xx status or an invalid
/// selector, and only then.
pub fn extract_listing(status: u16, body: &str, selector: &str) -> (r: Result<
    Extraction,
    FatalError,
>)
    ensures
        !status_success(status) ==> r == Result::<Extraction, FatalError>::Err(
            FatalError::HttpStatus(status),
        ),
        status_success(status) && !selector_ok(selector@) ==> r == Result::<
            Extraction,
            FatalError,
        >::Err(FatalError::InvalidSelector),
        status_success(status) && selector_ok(selector@) ==> r is Ok,
        r matches Ok(e) ==> e.texts.deep_view() == first_texts(selected_texts(body@, selector@))
            && e.anomalies@.map_values(|c: usize| c as nat) == anomaly_counts(
            selected_texts(body@, selector@),
        ),
{
    if !status_is_success(status) {
        return Err(FatalError::HttpStatus(status));
    }
    match extract_first_texts(body, selector) {
        Some(e) => Ok(e),
        None => Err(FatalError::InvalidSelector),
    }
}

/// What resolving one fetched page comes to, as a function of the response
/// and the selector: the trimmed first text of the first matching element,
/// or the failure that stops short of it.
pub open spec fn resolution_of(status: u16, body: Seq<char>, selector: Seq<char>) -> Result<
    Seq<char>,
    ResolveFailure,
> {
    if !status_success(status) {
        Err(ResolveFailure::HttpStatus(status))
    } else if !selector_ok(selector) {
        Err(ResolveFailure::InvalidSelector)
    } else if selected_texts(body, selector).len() == 0 {
        Err(ResolveFailure::NoElement)
    } else {
        match selected_texts(body, selector)[0].0 {
            Some(t) => Ok(trimmed(t)),
            None => Err(ResolveFailure::NoText),
        }
    }
}

/// Resolves one raw import path's fetched page to the canonical identifier
/// of its owning root module: the first text node of the first element
/// matching the breadcrumb selector, trimmed of surrounding whitespace.
pub fn resolve_page(status: u16, body: &str, selector: &str) -> (r: Result<String, ResolveFailure>)
    ensures
        match resolution_of(status, body@, selector@) {
            Ok(id) => r matches Ok(s) && s@ == id,
            Err(f) => r == Result::<String, ResolveFailure>::Err(f),
        },
{
    if !status_is_success(status) {
        return Err(ResolveFailure::HttpStatus(status));
    }
    let nodes = match select_text_nodes(body, selector) {
        Some(nodes) => nodes,
        None => {
            return Err(ResolveFailure::InvalidSelector);
        },
    };
    let ghost nv = nodes@.map_values(|n| node_view(n));
    if nodes.len() == 0 {
        return Err(ResolveFailure::NoElement);
    }
    proof {
        assert(nv[0] == node_view(nodes@[0]));
    }
    match &nodes[0].first {
        Some(t) => Ok(trim_str(t.as_str())),
        None => Err(ResolveFailure::NoText),
    }
}

} // verus!
