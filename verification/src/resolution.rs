//! Resolution: turning a candidate's detail page into a transfer
//! identifier.
//!
//! The page's anchors come out of the `scraper` crate behind one trusted
//! wrapper, as a plain list of `href` targets in document order.  The
//! verified scan returns the first target that begins with the
//! magnet-style transfer-scheme prefix, verbatim; a page with no such
//! anchor is a hard error, because the caller asked to resolve one
//! specific candidate and has no fallback.

use vstd::prelude::*;
use crate::errors::ResolveError;
use crate::text::seq_starts_with;
use crate::text::str_starts_with;

verus! {

/// A magnet-style transfer identifier: an opaque URI-like token that the
/// transfer engine can locate content by.  Produced once per candidate;
/// never parsed by this library.
#[derive(Clone, Debug)]
pub struct TransferIdentifier {
    pub uri: String,
}

impl View for TransferIdentifier {
    type V = Seq<char>;

    open spec fn view(&self) -> Seq<char> {
        self.uri@
    }
}

/// The transfer-scheme prefix that marks an anchor as a transfer link.
pub open spec fn transfer_scheme_prefix() -> Seq<char> {
    "magnet:"@
}

/// True when an anchor target is a transfer link.
pub open spec fn is_transfer_target(t: Seq<char>) -> bool {
    seq_starts_with(t, transfer_scheme_prefix())
}

/// The view of a string sequence.
pub open spec fn targets_view(ts: Seq<String>) -> Seq<Seq<char>> {
    ts.map_values(|t: String| t@)
}

/// The `href` targets of the page's anchors, in document order.  Named
/// here because the value is fixed by the page text alone but is far too
/// involved to restate.
pub uninterp spec fn anchor_targets_of(page: Seq<char>) -> Seq<Seq<char>>;

/// Relies on the `scraper` crate (`Html::parse_document`, `Selector::parse`,
/// `select`, `ElementRef::attr`): the `href` values of the page's `a`
/// elements, in document order, skipping anchors without an `href`
/// attribute.
#[verifier::external_body]
fn extract_anchor_targets(page: &str) -> (targets: Vec<String>)
    ensures
        targets_view(targets@) == anchor_targets_of(page@),
{
    let doc = scraper::Html::parse_document(page);
    let a_sel = scraper::Selector::parse("a").unwrap();
    let mut targets = Vec::new();
    for a in doc.select(&a_sel) {
        if let Some(href) = a.attr("href") {
            targets.push(href.to_string());
        }
    }
    targets
}

/// The first transfer-scheme target of an anchor list, if any.
pub open spec fn first_transfer_target(ts: Seq<Seq<char>>) -> Option<Seq<char>>
    decreases ts.len(),
{
    if ts.len() == 0 {
        None
    } else if is_transfer_target(ts[0]) {
        Some(ts[0])
    } else {
        first_transfer_target(ts.drop_first())
    }
}

/// Law: when one anchor is a transfer link and none before it is, the
/// scan returns that anchor's target unchanged.  In particular a page
/// with exactly one transfer-scheme anchor resolves to that target,
/// byte for byte.
pub proof fn lemma_first_target_at(ts: Seq<Seq<char>>, k: int)
    requires
        0 <= k < ts.len(),
        is_transfer_target(ts[k]),
        forall|j: int| 0 <= j < k ==> !is_transfer_target(#[trigger] ts[j]),
    ensures
        first_transfer_target(ts) == Some(ts[k]),
    decreases k,
{
    if k == 0 {
    } else {
        assert(ts.drop_first()[k - 1] == ts[k]);
        assert(forall|j: int|
            0 <= j < k - 1 ==> !is_transfer_target(#[trigger] ts.drop_first()[j]));
        lemma_first_target_at(ts.drop_first(), k - 1);
    }
}

/// Law: a page whose anchors hold no transfer-scheme target resolves to
/// nothing, so `resolve_page` fails with `IdentifierNotFound` on it.
pub proof fn lemma_no_transfer_target(ts: Seq<Seq<char>>)
    requires
        forall|j: int| 0 <= j < ts.len() ==> !is_transfer_target(#[trigger] ts[j]),
    ensures
        first_transfer_target(ts) is None,
    decreases ts.len(),
{
    if ts.len() == 0 {
    } else {
        assert(forall|j: int|
            0 <= j < ts.drop_first().len() ==> !is_transfer_target(
                #[trigger] ts.drop_first()[j],
            ));
        lemma_no_transfer_target(ts.drop_first());
    }
}

/// The scanning half of resolution: the first transfer-scheme target of
/// the anchor list, verbatim, or `IdentifierNotFound` when there is none.
pub fn find_identifier(targets: &Vec<String>) -> (r: Result<TransferIdentifier, ResolveError>)
    ensures
        match first_transfer_target(targets_view(targets@)) {
            Some(t) => r matches Ok(id) && id@ == t,
            None => r == Err::<TransferIdentifier, ResolveError>(ResolveError::IdentifierNotFound),
        },
{
    let ghost ts = targets_view(targets@);
    let mut i: usize = 0;
    while i < targets.len()
        invariant
            i <= targets@.len(),
            ts == targets_view(targets@),
            forall|j: int| 0 <= j < i ==> !is_transfer_target(#[trigger] ts[j]),
        decreases targets@.len() - i,
    {
        if str_starts_with(targets[i].as_str(), "magnet:") {
            proof {
                lemma_first_target_at(ts, i as int);
            }
            return Ok(TransferIdentifier { uri: targets[i].clone() });
        }
        i += 1;
    }
    proof {
        lemma_no_transfer_target(ts);
    }
    Err(ResolveError::IdentifierNotFound)
}

/// Resolution on a fetched detail page: scans the page's anchors for the
/// first transfer-scheme target and returns it unchanged, or fails with
/// `IdentifierNotFound` when the page has none.
pub fn resolve_page(page: &str) -> (r: Result<TransferIdentifier, ResolveError>)
    ensures
        match first_transfer_target(anchor_targets_of(page@)) {
            Some(t) => r matches Ok(id) && id@ == t,
            None => r == Err::<TransferIdentifier, ResolveError>(ResolveError::IdentifierNotFound),
        },
{
    let targets = extract_anchor_targets(page);
    find_identifier(&targets)
}

} // verus!
