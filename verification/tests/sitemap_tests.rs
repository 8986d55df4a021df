use actix_sitemaps_rs::response::{sitemap_file_response, Response};
use actix_sitemaps_rs::sitemap::{
    serve_sitemap, ServeAction, Sitemap, SitemapBuilder,
};
use actix_sitemaps_rs::strategy::{
    NotFoundStrategy, RedirectToRootStrategy, ShowErrorMessageStrategy,
};

const SITEMAP_XML: &str =
    "<?xml version=\"1.0\" encoding=\"UTF-8\"?><urlset></urlset>";

/// Run one request against the configuration the way the surrounding
/// program would: follow the decision, using `contents` in place of what a
/// matching request would read from disk.
fn run_request<S: NotFoundStrategy>(
    sitemap: &Sitemap<S>,
    uri: &str,
    contents: &str,
) -> Response {
    let requested = uri.strip_prefix('/').unwrap_or(uri);
    match serve_sitemap(sitemap, requested) {
        ServeAction::ReadFile(_path) => sitemap_file_response(contents.to_string()),
        ServeAction::Respond(response) => response,
    }
}

#[test]
fn given_sitemap_at_root_then_get_success_status_code_when_show_error_message_strategy() {
    let sitemap = SitemapBuilder::default()
        .static_file("sitemaps.xml".to_string())
        .web_filename("sitemaps.xml".to_string())
        .not_found_strategy(ShowErrorMessageStrategy)
        .build();

    let resp = run_request(&sitemap, "/sitemaps.xml", SITEMAP_XML);
    assert!(200 <= resp.status && resp.status < 300);
}

#[test]
fn given_sitemap_with_webdirectory_then_get_success_status_code_when_show_error_message_strategy()
{
    let sitemap = SitemapBuilder::default()
        .static_file("./sitemaps.xml".to_string())
        .web_directory(".well-known/".to_string())
        .web_filename("sitemaps.xml".to_string())
        .not_found_strategy(ShowErrorMessageStrategy)
        .build();

    let resp = run_request(&sitemap, "/.well-known/sitemaps.xml", SITEMAP_XML);
    assert!(200 <= resp.status && resp.status < 300);
}

#[test]
fn given_sitemap_then_get_not_found_when_show_error_message_strategy() {
    let sitemap = SitemapBuilder::default()
        .static_file("./sitemaps.xml".to_string())
        .web_directory(".well-known/".to_string())
        .web_filename("sitemaps.xml".to_string())
        .not_found_strategy(ShowErrorMessageStrategy)
        .build();

    let resp = run_request(&sitemap, "/notfound/sitemaps.xml", SITEMAP_XML);
    assert_eq!(resp.status, 404);
}

#[test]
fn given_sitemap_then_get_not_found_when_bad_path_and_redirect_to_root_strategy() {
    let sitemap = SitemapBuilder::default()
        .static_file("./sitemaps.xml".to_string())
        .web_directory("./.well-known/".to_string())
        .web_filename("sitemaps.xml".to_string())
        .not_found_strategy(RedirectToRootStrategy)
        .build();

    let resp = run_request(&sitemap, "/notfound/sitemaps.xml", SITEMAP_XML);
    assert_eq!(resp.header("location").unwrap(), "/");
}

#[test]
fn matching_request_serves_exact_file_contents_as_xml() {
    let sitemap = SitemapBuilder::default()
        .static_file("sitemaps.xml".to_string())
        .web_filename("sitemaps.xml".to_string())
        .build();

    let resp = run_request(&sitemap, "/sitemaps.xml", SITEMAP_XML);
    assert_eq!(resp.status, 200);
    assert_eq!(resp.header("content-type").unwrap(), "application/xml");
    assert_eq!(resp.body, SITEMAP_XML);
}

#[test]
fn mismatched_request_names_no_file_and_returns_strategy_response() {
    let sitemap = SitemapBuilder::default()
        .web_directory(".well-known".to_string())
        .web_filename("sitemaps.xml".to_string())
        .build();

    match serve_sitemap(&sitemap, "elsewhere/sitemaps.xml") {
        ServeAction::ReadFile(path) => {
            panic!("a mismatched request must not read {path}")
        }
        ServeAction::Respond(response) => {
            let direct = ShowErrorMessageStrategy.handle_not_found();
            assert_eq!(response.status, direct.status);
            assert_eq!(response.headers, direct.headers);
            assert_eq!(response.body, direct.body);
        }
    }
}

#[test]
fn redirect_strategy_always_returns_status_308_with_location_root() {
    let resp = RedirectToRootStrategy.handle_not_found();
    assert_eq!(resp.status, 308);
    assert_eq!(resp.header("location").unwrap(), "/");
    assert_eq!(resp.body, "");
}

#[test]
fn show_error_message_strategy_always_returns_status_404_with_message() {
    let resp = ShowErrorMessageStrategy.handle_not_found();
    assert_eq!(resp.status, 404);
    assert_eq!(resp.body, "404 Not Found");
}

#[test]
fn same_request_twice_yields_identical_responses() {
    let sitemap = SitemapBuilder::default()
        .web_directory(".well-known".to_string())
        .web_filename("sitemaps.xml".to_string())
        .not_found_strategy(RedirectToRootStrategy)
        .build();

    for uri in ["/.well-known/sitemaps.xml", "/notfound/sitemaps.xml"] {
        let first = run_request(&sitemap, uri, SITEMAP_XML);
        let second = run_request(&sitemap, uri, SITEMAP_XML);
        assert_eq!(first.status, second.status);
        assert_eq!(first.headers, second.headers);
        assert_eq!(first.body, second.body);
    }
}

#[test]
fn default_builder_serves_sitemaps_xml_at_root() {
    let sitemap = SitemapBuilder::default().build();
    let resp = run_request(&sitemap, "/sitemaps.xml", SITEMAP_XML);
    assert_eq!(resp.status, 200);
    let miss = run_request(&sitemap, "/other.xml", SITEMAP_XML);
    assert_eq!(miss.status, 404);
    assert_eq!(miss.body, "404 Not Found");
}

#[test]
fn missing_header_lookup_returns_none() {
    let resp = ShowErrorMessageStrategy.handle_not_found();
    assert!(resp.header("location").is_none());
}
