use actix_sitemaps_rs::paths::normalize;
use actix_sitemaps_rs::sitemap::SitemapBuilder;

#[test]
fn empty_web_directory_matches_filename_alone() {
    let sitemap = SitemapBuilder::default()
        .web_directory("".to_string())
        .web_filename("sitemaps.xml".to_string())
        .build();
    assert!(sitemap.matches_request("sitemaps.xml"));
    assert!(!sitemap.matches_request("anything/sitemaps.xml"));
}

#[test]
fn matching_is_case_sensitive_and_exact() {
    let sitemap = SitemapBuilder::default()
        .web_directory(".well-known".to_string())
        .web_filename("sitemaps.xml".to_string())
        .build();
    assert!(sitemap.matches_request(".well-known/sitemaps.xml"));
    assert!(!sitemap.matches_request(".well-known/Sitemaps.xml"));
    assert!(!sitemap.matches_request(".well-known/sitemaps.xml.bak"));
    assert!(!sitemap.matches_request("sitemaps.xml"));
    assert!(!sitemap.matches_request("prefix/.well-known/sitemaps.xml"));
}

#[test]
fn repeated_and_trailing_separators_collapse() {
    let sitemap = SitemapBuilder::default()
        .web_directory(".well-known/".to_string())
        .web_filename("sitemaps.xml".to_string())
        .build();
    assert!(sitemap.matches_request(".well-known/sitemaps.xml"));
    assert!(sitemap.matches_request(".well-known//sitemaps.xml"));
    assert!(sitemap.matches_request(".well-known/sitemaps.xml/"));
}

#[test]
fn inner_dot_segments_drop_and_leading_dot_is_kept() {
    let sitemap = SitemapBuilder::default()
        .web_directory("./.well-known/".to_string())
        .web_filename("sitemaps.xml".to_string())
        .build();
    assert!(!sitemap.matches_request(".well-known/sitemaps.xml"));
    assert!(sitemap.matches_request("./.well-known/sitemaps.xml"));
    assert!(sitemap.matches_request("./.well-known/./sitemaps.xml"));
}

#[test]
fn absolute_web_filename_stands_alone() {
    let sitemap = SitemapBuilder::default()
        .web_directory(".well-known".to_string())
        .web_filename("/abs/sitemaps.xml".to_string())
        .build();
    assert!(!sitemap.matches_request("abs/sitemaps.xml"));
    assert!(!sitemap.matches_request(".well-known/abs/sitemaps.xml"));
    assert!(sitemap.matches_request("/abs/sitemaps.xml"));
}

#[test]
fn normalize_splits_collapses_and_flags_absolute() {
    let p = normalize("/a//b/./c/");
    assert!(p.absolute);
    assert_eq!(p.segments, vec![vec!['a'], vec!['b'], vec!['c']]);

    let q = normalize("./x");
    assert!(!q.absolute);
    assert_eq!(q.segments, vec![vec!['.'], vec!['x']]);

    let r = normalize("");
    assert!(!r.absolute);
    assert!(r.segments.is_empty());

    let s = normalize("..");
    assert!(!s.absolute);
    assert_eq!(s.segments, vec![vec!['.', '.']]);
}
