use torrent_flow::resolution::find_identifier;
use torrent_flow::resolution::resolve_page;
use torrent_flow::ResolveError;

#[test]
fn resolve_single_magnet_anchor_returns_it_verbatim() {
    // Exactly one transfer-scheme anchor on the page: its target comes
    // back unchanged, byte for byte.
    let page = "<html><body>\
        <a href=\"/home\">home</a>\
        <a href=\"magnet:?xt=urn:btih:8DF6E26142615621983763B729F640372CF1FC34\">get</a>\
        <a href=\"/other\">other</a>\
        </body></html>";
    let id = resolve_page(page).unwrap();
    assert_eq!(id.uri, "magnet:?xt=urn:btih:8DF6E26142615621983763B729F640372CF1FC34");
}

#[test]
fn resolve_no_magnet_anchor_fails_with_identifier_not_found() {
    let page = "<html><body>\
        <a href=\"/home\">home</a>\
        <a href=\"https://example.net/magnet-faq\">about magnets</a>\
        </body></html>";
    assert_eq!(resolve_page(page).unwrap_err(), ResolveError::IdentifierNotFound);
}

#[test]
fn resolve_empty_page_fails_with_identifier_not_found() {
    assert_eq!(resolve_page("").unwrap_err(), ResolveError::IdentifierNotFound);
}

#[test]
fn resolve_takes_the_first_of_several_magnet_anchors() {
    let page = "<html><body>\
        <a href=\"magnet:?xt=urn:btih:FIRST\">one</a>\
        <a href=\"magnet:?xt=urn:btih:SECOND\">two</a>\
        </body></html>";
    let id = resolve_page(page).unwrap();
    assert_eq!(id.uri, "magnet:?xt=urn:btih:FIRST");
}

#[test]
fn resolve_skips_anchors_without_href() {
    let page = "<html><body>\
        <a name=\"top\">no target</a>\
        <a href=\"magnet:?xt=urn:btih:ABC\">get</a>\
        </body></html>";
    let id = resolve_page(page).unwrap();
    assert_eq!(id.uri, "magnet:?xt=urn:btih:ABC");
}

#[test]
fn resolve_decodes_entities_in_the_target() {
    // The attribute holds &amp;: the parsed target carries a plain
    // ampersand, and that parsed value is what comes back.
    let page = "<html><body>\
        <a href=\"magnet:?xt=urn:btih:ABC&amp;dn=Foo\">get</a>\
        </body></html>";
    let id = resolve_page(page).unwrap();
    assert_eq!(id.uri, "magnet:?xt=urn:btih:ABC&dn=Foo");
}

#[test]
fn find_identifier_scans_plain_targets() {
    let targets = vec![
        String::from("/home"),
        String::from("magnet:?xt=urn:btih:XYZ"),
        String::from("magnet:?xt=urn:btih:LATER"),
    ];
    let id = find_identifier(&targets).unwrap();
    assert_eq!(id.uri, "magnet:?xt=urn:btih:XYZ");

    let none: Vec<String> = vec![String::from("/a"), String::from("/b")];
    assert_eq!(find_identifier(&none).unwrap_err(), ResolveError::IdentifierNotFound);
}

#[test]
fn find_identifier_needs_the_full_scheme_prefix() {
    // "magnet" without the colon is not a transfer target.
    let targets = vec![String::from("magnetism.html")];
    assert_eq!(find_identifier(&targets).unwrap_err(), ResolveError::IdentifierNotFound);
}

#[test]
fn resolve_error_messages() {
    assert_eq!(
        ResolveError::IdentifierNotFound.describe(),
        "no transfer identifier on the detail page"
    );
    assert_eq!(ResolveError::FetchFailed.describe(), "could not fetch the detail page");
}
