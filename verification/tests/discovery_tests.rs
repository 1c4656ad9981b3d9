use torrent_flow::discovery::candidates_from_rows;
use torrent_flow::discovery::discover_page;
use torrent_flow::discovery::search_url;
use torrent_flow::discovery::detail_url;
use torrent_flow::text::percent_encode;
use torrent_flow::Candidate;
use torrent_flow::ListingRow;
use torrent_flow::TrustedSourceSet;

fn trusted(names: &[&str]) -> TrustedSourceSet {
    let mut owned: Vec<String> = Vec::new();
    for n in names {
        owned.push(String::from(*n));
    }
    TrustedSourceSet::from_names(owned)
}

fn row(name: &str, href: &str, source: &str) -> ListingRow {
    ListingRow {
        name: Some(String::from(name)),
        href: Some(String::from(href)),
        source: Some(String::from(source)),
    }
}

#[test]
fn discover_keeps_only_trusted_row() {
    // Listing page with two rows: source "TrustedX" on the allow-list,
    // source "Untrusted" not.  Exactly one candidate comes back.
    let page = "<html><body><table>\
        <tr><td class=\"coll-1\"><a href=\"#\">i</a><a href=\"/torrent/1/foo/\">Foo</a></td>\
        <td class=\"coll-5\">TrustedX</td></tr>\
        <tr><td class=\"coll-1\"><a href=\"#\">i</a><a href=\"/torrent/2/bar/\">Bar</a></td>\
        <td class=\"coll-5\">Untrusted</td></tr>\
        </table></body></html>";
    let allow = trusted(&["TrustedX"]);
    let cands: Vec<Candidate> = discover_page(page, &allow);
    assert_eq!(cands.len(), 1);
    assert_eq!(cands[0].display_name, "Foo");
    assert_eq!(cands[0].detail_url, "https://1337x.to/torrent/1/foo/");
    assert_eq!(cands[0].source_name, "TrustedX");
}

#[test]
fn discover_never_returns_untrusted_source() {
    let page = "<html><body><table>\
        <tr><td class=\"coll-1\"><a href=\"#\">i</a><a href=\"/torrent/1/a/\">A</a></td>\
        <td class=\"coll-5\">NotOnList</td></tr>\
        <tr><td class=\"coll-1\"><a href=\"#\">i</a><a href=\"/torrent/2/b/\">B</a></td>\
        <td class=\"coll-5\">AlsoNot</td></tr>\
        </table></body></html>";
    let allow = trusted(&["TrustedX"]);
    let cands = discover_page(page, &allow);
    assert!(cands.is_empty());
}

#[test]
fn discover_skips_malformed_rows() {
    // Four rows: one lacks the second name anchor, one lacks the source
    // cell, one lacks the href attribute; only the whole row survives.
    // A malformed row never aborts the parse.
    let page = "<html><body><table>\
        <tr><td class=\"coll-1\"><a href=\"/only-icon\">i</a></td>\
        <td class=\"coll-5\">TrustedX</td></tr>\
        <tr><td class=\"coll-1\"><a href=\"#\">i</a><a href=\"/torrent/3/c/\">C</a></td></tr>\
        <tr><td class=\"coll-1\"><a href=\"#\">i</a><a>NoHref</a></td>\
        <td class=\"coll-5\">TrustedX</td></tr>\
        <tr><td class=\"coll-1\"><a href=\"#\">i</a><a href=\"/torrent/4/d/\">D</a></td>\
        <td class=\"coll-5\">TrustedX</td></tr>\
        </table></body></html>";
    let allow = trusted(&["TrustedX"]);
    let cands = discover_page(page, &allow);
    assert_eq!(cands.len(), 1);
    assert_eq!(cands[0].display_name, "D");
    assert_eq!(cands[0].detail_url, "https://1337x.to/torrent/4/d/");
}

#[test]
fn discover_keeps_page_order() {
    let page = "<html><body><table>\
        <tr><th>name</th><th>uploader</th></tr>\
        <tr><td class=\"coll-1\"><a href=\"#\">i</a><a href=\"/torrent/1/z/\">Zeta</a></td>\
        <td class=\"coll-5\">One</td></tr>\
        <tr><td class=\"coll-1\"><a href=\"#\">i</a><a href=\"/torrent/2/a/\">Alpha</a></td>\
        <td class=\"coll-5\">Two</td></tr>\
        <tr><td class=\"coll-1\"><a href=\"#\">i</a><a href=\"/torrent/3/m/\">Mu</a></td>\
        <td class=\"coll-5\">One</td></tr>\
        </table></body></html>";
    let allow = trusted(&["One", "Two"]);
    let cands = discover_page(page, &allow);
    assert_eq!(cands.len(), 3);
    assert_eq!(cands[0].display_name, "Zeta");
    assert_eq!(cands[1].display_name, "Alpha");
    assert_eq!(cands[2].display_name, "Mu");
}

#[test]
fn discover_empty_page_gives_empty_list() {
    let allow = trusted(&["TrustedX"]);
    let cands = discover_page("<html><body></body></html>", &allow);
    assert!(cands.is_empty());
    let cands = discover_page("", &allow);
    assert!(cands.is_empty());
}

#[test]
fn candidates_from_rows_filters_and_builds_urls() {
    let rows = vec![
        row("Foo", "/torrent/1/foo/", "TrustedX"),
        ListingRow { name: None, href: Some(String::from("/x")), source: Some(String::from("TrustedX")) },
        row("Bar", "/torrent/2/bar/", "Nobody"),
        row("Baz", "/torrent/3/baz/", "TrustedX"),
    ];
    let allow = trusted(&["TrustedX"]);
    let cands = candidates_from_rows(&rows, &allow);
    assert_eq!(cands.len(), 2);
    assert_eq!(cands[0].display_name, "Foo");
    assert_eq!(cands[0].detail_url, "https://1337x.to/torrent/1/foo/");
    assert_eq!(cands[1].display_name, "Baz");
}

#[test]
fn candidate_identity_is_the_detail_url() {
    let a = Candidate {
        display_name: String::from("Foo v1.0"),
        detail_url: String::from("https://1337x.to/torrent/1/foo/"),
        source_name: String::from("One"),
    };
    let b = Candidate {
        display_name: String::from("Foo (repack)"),
        detail_url: String::from("https://1337x.to/torrent/1/foo/"),
        source_name: String::from("Two"),
    };
    let c = Candidate {
        display_name: String::from("Foo v1.0"),
        detail_url: String::from("https://1337x.to/torrent/9/foo/"),
        source_name: String::from("One"),
    };
    assert!(a.same_identity(&b));
    assert!(!a.same_identity(&c));
}

#[test]
fn search_url_percent_encodes_the_query() {
    assert_eq!(
        search_url("Cyberpunk 2077"),
        "https://1337x.to/category-search/Cyberpunk%202077/Games/1/"
    );
}

#[test]
fn search_url_empty_query_is_legal() {
    assert_eq!(search_url(""), "https://1337x.to/category-search//Games/1/");
}

#[test]
fn percent_encode_keeps_unreserved_bytes() {
    assert_eq!(percent_encode("AZaz09-_.~"), "AZaz09-_.~");
}

#[test]
fn percent_encode_escapes_reserved_and_multibyte() {
    assert_eq!(percent_encode("a b/c"), "a%20b%2Fc");
    // U+00E9 is C3 A9 in UTF-8: each byte is escaped.
    assert_eq!(percent_encode("caf\u{e9}"), "caf%C3%A9");
}

#[test]
fn detail_url_prefixes_the_site_base() {
    assert_eq!(detail_url("/torrent/42/x/"), "https://1337x.to/torrent/42/x/");
}
