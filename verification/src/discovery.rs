//! Discovery: turning a listing page into an ordered list of candidates.
//!
//! The listing site's HTML is parsed by the `scraper` crate behind one
//! trusted wrapper that hands back, per table row, the three plain values
//! the pipeline reads: the row's title text, its detail link, and its
//! uploader (source) name.  Everything after that point is verified:
//! rows that lack one of the three cells are skipped (a malformed row is
//! never an error), rows whose source is not on the allow-list are
//! dropped silently, and the survivors come back in page order.

use vstd::prelude::*;
use vstd::string::StringExecFns;
use vstd::utf8::encode_utf8;
use crate::sources::TrustedSourceSet;
use crate::text::percent_encode;
use crate::text::percent_encoded;
use crate::text::str_eq;

verus! {

/// One listing candidate.  Identity is its detail URL: two candidates
/// naming the same detail page stand for the same content item.
#[derive(Clone, Debug)]
pub struct Candidate {
    pub display_name: String,
    pub detail_url: String,
    pub source_name: String,
}

impl Candidate {
    /// Candidate identity: equality of the detail URLs.
    pub fn same_identity(&self, other: &Candidate) -> (r: bool)
        ensures
            r == (self.detail_url@ == other.detail_url@),
    {
        str_eq(self.detail_url.as_str(), other.detail_url.as_str())
    }
}

/// What one listing row offers before validation: the title text, the
/// detail link, and the source name, each absent when the row lacks the
/// cell that carries it.
pub struct ListingRow {
    pub name: Option<String>,
    pub href: Option<String>,
    pub source: Option<String>,
}

/// The view of an optional string.
pub open spec fn opt_text(o: Option<String>) -> Option<Seq<char>> {
    match o {
        Some(s) => Some(s@),
        None => None,
    }
}

/// The view of one listing row: (name, href, source).
pub open spec fn row_view(r: ListingRow) -> (
    Option<Seq<char>>,
    Option<Seq<char>>,
    Option<Seq<char>>,
) {
    (opt_text(r.name), opt_text(r.href), opt_text(r.source))
}

/// The view of a row sequence.
pub open spec fn rows_view(rows: Seq<ListingRow>) -> Seq<
    (Option<Seq<char>>, Option<Seq<char>>, Option<Seq<char>>),
> {
    rows.map_values(|r: ListingRow| row_view(r))
}

/// The view of one candidate: (display name, detail URL, source name).
pub open spec fn cand_view(c: Candidate) -> (Seq<char>, Seq<char>, Seq<char>) {
    (c.display_name@, c.detail_url@, c.source_name@)
}

/// The view of a candidate sequence.
pub open spec fn cands_view(cs: Seq<Candidate>) -> Seq<(Seq<char>, Seq<char>, Seq<char>)> {
    cs.map_values(|c: Candidate| cand_view(c))
}

/// The rows that the listing site's page markup offers, in page order:
/// one triple per table row of the page, holding the text of the row's
/// second name-cell anchor, that anchor's `href` target, and the text of
/// the row's uploader cell.  Named here because its value is fixed by
/// the page text alone but is far too involved to restate.
pub uninterp spec fn listing_rows_of(page: Seq<char>) -> Seq<
    (Option<Seq<char>>, Option<Seq<char>>, Option<Seq<char>>),
>;

/// Relies on the `scraper` crate (`Html::parse_document`, `Selector::parse`,
/// `select`, `ElementRef::text`, `ElementRef::attr`): one entry per `tr`
/// element of the page, in page order, holding the collected text of the
/// second anchor in the row's `td.coll-1` name cell, that anchor's `href`
/// value, and the collected text of the row's `td.coll-5` uploader cell,
/// each `None` where the row lacks that cell, anchor, or attribute.
#[verifier::external_body]
fn extract_listing_rows(page: &str) -> (rows: Vec<ListingRow>)
    ensures
        rows_view(rows@) == listing_rows_of(page@),
{
    let doc = scraper::Html::parse_document(page);
    let row_sel = scraper::Selector::parse("tr").unwrap();
    let link_sel = scraper::Selector::parse("td.coll-1 a").unwrap();
    let source_sel = scraper::Selector::parse("td.coll-5").unwrap();
    let mut rows = Vec::new();
    for row in doc.select(&row_sel) {
        let link = row.select(&link_sel).nth(1);
        rows.push(ListingRow {
            name: link.map(|a| a.text().collect()),
            href: link.and_then(|a| a.attr("href")).map(|h| h.to_string()),
            source: row.select(&source_sel).next().map(|c| c.text().collect()),
        });
    }
    rows
}

/// A row is well formed when all three cells are present.  A row that is
/// not well formed is skipped, never an error: partial results are
/// preferable to total failure on adversarial markup.
pub open spec fn row_wellformed(r: (Option<Seq<char>>, Option<Seq<char>>, Option<Seq<char>>)) -> bool {
    r.0 is Some && r.1 is Some && r.2 is Some
}

/// A row survives discovery when it is well formed and its source name
/// is on the allow-list.
pub open spec fn row_accepted(
    r: (Option<Seq<char>>, Option<Seq<char>>, Option<Seq<char>>),
    trusted: Set<Seq<char>>,
) -> bool {
    row_wellformed(r) && trusted.contains(r.2->0)
}

/// The base that a row's relative detail link is resolved against.
pub open spec fn detail_url_base() -> Seq<char> {
    "https://1337x.to"@
}

/// The candidate built from an accepted row.
pub open spec fn accepted_candidate(
    r: (Option<Seq<char>>, Option<Seq<char>>, Option<Seq<char>>),
) -> (Seq<char>, Seq<char>, Seq<char>) {
    (r.0->0, detail_url_base() + r.1->0, r.2->0)
}

/// What discovery returns for a row sequence: the accepted rows, as
/// candidates, in page order.
pub open spec fn discovered(
    rows: Seq<(Option<Seq<char>>, Option<Seq<char>>, Option<Seq<char>>)>,
    trusted: Set<Seq<char>>,
) -> Seq<(Seq<char>, Seq<char>, Seq<char>)>
    decreases rows.len(),
{
    if rows.len() == 0 {
        Seq::empty()
    } else {
        let head: Seq<(Seq<char>, Seq<char>, Seq<char>)> = if row_accepted(rows[0], trusted) {
            seq![accepted_candidate(rows[0])]
        } else {
            Seq::empty()
        };
        head + discovered(rows.drop_first(), trusted)
    }
}

proof fn lemma_discovered_push(
    rows: Seq<(Option<Seq<char>>, Option<Seq<char>>, Option<Seq<char>>)>,
    r: (Option<Seq<char>>, Option<Seq<char>>, Option<Seq<char>>),
    trusted: Set<Seq<char>>,
)
    ensures
        discovered(rows.push(r), trusted) == if row_accepted(r, trusted) {
            discovered(rows, trusted).push(accepted_candidate(r))
        } else {
            discovered(rows, trusted)
        },
    decreases rows.len(),
{
    if rows.len() == 0 {
        assert(rows.push(r).drop_first() =~= rows);
        if row_accepted(r, trusted) {
            assert(discovered(rows.push(r), trusted) =~= discovered(rows, trusted).push(
                accepted_candidate(r),
            ));
        } else {
            assert(discovered(rows.push(r), trusted) =~= discovered(rows, trusted));
        }
    } else {
        assert(rows.push(r).drop_first() =~= rows.drop_first().push(r));
        lemma_discovered_push(rows.drop_first(), r, trusted);
        if row_accepted(r, trusted) {
            assert(discovered(rows.push(r), trusted) =~= discovered(rows, trusted).push(
                accepted_candidate(r),
            ));
        } else {
            assert(discovered(rows.push(r), trusted) =~= discovered(rows, trusted));
        }
    }
}

/// Resolves a row's relative detail link against the listing site's base.
pub fn detail_url(href: &str) -> (r: String)
    ensures
        r@ == detail_url_base() + href@,
{
    let mut url = String::from_str("https://1337x.to");
    url.append(href);
    url
}

/// The filtering half of discovery: keeps the well-formed rows whose
/// source is trusted, in order, and builds a candidate from each.
pub fn candidates_from_rows(rows: &Vec<ListingRow>, trusted: &TrustedSourceSet) -> (cands: Vec<
    Candidate,
>)
    ensures
        cands_view(cands@) == discovered(rows_view(rows@), trusted@),
{
    let mut out: Vec<Candidate> = Vec::new();
    let mut i: usize = 0;
    while i < rows.len()
        invariant
            i <= rows@.len(),
            cands_view(out@) == discovered(rows_view(rows@).subrange(0, i as int), trusted@),
        decreases rows@.len() - i,
    {
        let row = &rows[i];
        match (&row.name, &row.href, &row.source) {
            (Some(name), Some(href), Some(source)) => {
                if trusted.is_trusted(source.as_str()) {
                    let url = detail_url(href.as_str());
                    out.push(
                        Candidate {
                            display_name: name.clone(),
                            detail_url: url,
                            source_name: source.clone(),
                        },
                    );
                }
            },
            _ => {},
        }
        proof {
            let rv = rows_view(rows@);
            lemma_discovered_push(rv.subrange(0, i as int), rv[i as int], trusted@);
            assert(rv.subrange(0, i + 1) =~= rv.subrange(0, i as int).push(rv[i as int]));
            assert(cands_view(out@) =~= discovered(rv.subrange(0, i + 1), trusted@));
        }
        i += 1;
    }
    proof {
        assert(rows_view(rows@).subrange(0, rows@.len() as int) =~= rows_view(rows@));
    }
    out
}

/// Discovery on a fetched listing page: parses the page's rows, skips
/// the malformed ones, drops untrusted sources, and returns the rest as
/// candidates in page order.  Total: a page that matches nothing gives
/// an empty list, not an error.
pub fn discover_page(page: &str, trusted: &TrustedSourceSet) -> (cands: Vec<Candidate>)
    ensures
        cands_view(cands@) == discovered(listing_rows_of(page@), trusted@),
{
    let rows = extract_listing_rows(page);
    candidates_from_rows(&rows, trusted)
}

/// The search URL for a title query: the query's UTF-8 bytes are
/// percent-encoded into the listing site's category-search path.  An
/// empty query is legal and asks for the unfiltered top listing.
pub open spec fn search_url_view(query: Seq<char>) -> Seq<char> {
    "https://1337x.to/category-search/"@ + percent_encoded(encode_utf8(query)) + "/Games/1/"@
}

/// Builds the listing-site search URL for a title query.
pub fn search_url(query: &str) -> (r: String)
    ensures
        r@ == search_url_view(query@),
{
    let mut url = String::from_str("https://1337x.to/category-search/");
    let encoded = percent_encode(query);
    url.append(encoded.as_str());
    url.append("/Games/1/");
    url
}

/// Law: every candidate that discovery returns carries a source name on
/// the allow-list, so a source that is not trusted never appears in the
/// result.
pub proof fn lemma_discovered_sources_trusted(
    rows: Seq<(Option<Seq<char>>, Option<Seq<char>>, Option<Seq<char>>)>,
    trusted: Set<Seq<char>>,
)
    ensures
        forall|i: int|
            0 <= i < discovered(rows, trusted).len() ==> trusted.contains(
                #[trigger] discovered(rows, trusted)[i].2,
            ),
        forall|s: Seq<char>, i: int|
            #![trigger trusted.contains(s), discovered(rows, trusted)[i]]
            !trusted.contains(s) && 0 <= i < discovered(rows, trusted).len() ==> discovered(
                rows,
                trusted,
            )[i].2 != s,
    decreases rows.len(),
{
    if rows.len() == 0 {
    } else {
        lemma_discovered_sources_trusted(rows.drop_first(), trusted);
    }
    let d = discovered(rows, trusted);
    assert forall|i: int| 0 <= i < d.len() implies trusted.contains(#[trigger] d[i].2) by {
        let rest = discovered(rows.drop_first(), trusted);
        if row_accepted(rows[0], trusted) {
            if i == 0 {
                assert(d[i] == accepted_candidate(rows[0]));
            } else {
                assert(d[i] == rest[i - 1]);
            }
        } else {
            assert(d =~= rest);
        }
    }
    assert forall|s: Seq<char>, i: int|
        #![trigger trusted.contains(s), d[i]]
        !trusted.contains(s) && 0 <= i < d.len() implies d[i].2 != s by {
        assert(trusted.contains(d[i].2));
    }
}

/// Law: a malformed row (one lacking its name, link, or source cell) is
/// skipped and nothing else changes; one bad row never aborts the parse
/// or costs any other row its candidate.
pub proof fn lemma_malformed_row_skipped(
    pre: Seq<(Option<Seq<char>>, Option<Seq<char>>, Option<Seq<char>>)>,
    bad: (Option<Seq<char>>, Option<Seq<char>>, Option<Seq<char>>),
    post: Seq<(Option<Seq<char>>, Option<Seq<char>>, Option<Seq<char>>)>,
    trusted: Set<Seq<char>>,
)
    requires
        !row_wellformed(bad),
    ensures
        discovered(pre + seq![bad] + post, trusted) == discovered(pre + post, trusted),
    decreases pre.len(),
{
    if pre.len() == 0 {
        assert((pre + seq![bad] + post)[0] == bad);
        assert((pre + seq![bad] + post).drop_first() =~= post);
        assert(pre + post =~= post);
    } else {
        assert((pre + seq![bad] + post)[0] == pre[0]);
        assert((pre + post)[0] == pre[0]);
        assert((pre + seq![bad] + post).drop_first() =~= pre.drop_first() + seq![bad] + post);
        assert((pre + post).drop_first() =~= pre.drop_first() + post);
        lemma_malformed_row_skipped(pre.drop_first(), bad, post, trusted);
    }
}

} // verus!
