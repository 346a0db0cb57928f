use rn_site::assets::range::{parse, Asked, PREFIX};
use rn_site::assets::{content_type, sanitize, Tree};

#[test]
fn every_shipped_extension_has_a_content_type_a_browser_accepts() {
    assert_eq!(content_type("pkg/rn-starscape_bg.wasm"), "application/wasm");
    assert_eq!(content_type("stars/named.json"), "application/json");
    assert_eq!(content_type("sky/milkyway.webp"), "image/webp");
    assert_eq!(content_type("fonts/agency-bold.ttf"), "font/ttf");
    assert_eq!(content_type("tokens.css"), "text/css; charset=utf-8");
}

#[test]
fn an_unknown_extension_is_never_guessed_into_a_text_type() {
    assert_eq!(content_type("stars/bright.bin"), "application/octet-stream");
    assert_eq!(content_type("NOTICE"), "application/octet-stream");
}

#[test]
fn the_extension_is_what_follows_the_last_dot() {
    assert_eq!(content_type("a.min.js"), "text/javascript; charset=utf-8");
    assert_eq!(content_type("app.mjs"), "text/javascript; charset=utf-8");
    assert_eq!(content_type("photo.jpeg"), "image/jpeg");
    assert_eq!(content_type("index.html"), "text/html; charset=utf-8");
    assert_eq!(content_type("robots.txt"), "text/plain; charset=utf-8");
    assert_eq!(content_type("font.woff2"), "font/woff2");
    assert_eq!(content_type("favicon.ico"), "image/x-icon");
    assert_eq!(content_type("logo.svg"), "image/svg+xml");
    assert_eq!(content_type("logo.png"), "image/png");
    assert_eq!(content_type("archive.tar.gz"), "application/octet-stream");
    assert_eq!(content_type("trailing."), "application/octet-stream");
    assert_eq!(content_type("UPPER.CSS"), "application/octet-stream", "extensions are matched exactly");
}

#[test]
fn traversal_and_absolute_paths_never_reach_the_filesystem() {
    assert_eq!(
        sanitize("stars/bright.bin").as_deref(),
        Some("stars/bright.bin")
    );
    assert_eq!(
        sanitize("/stars/bright.bin").as_deref(),
        Some("stars/bright.bin")
    );
    assert!(sanitize("../../etc/passwd").is_none());
    assert!(sanitize("stars/../../secret").is_none());
    assert!(sanitize("").is_none());
    assert!(sanitize("/").is_none());
}

#[test]
fn only_normal_components_are_admitted() {
    assert!(sanitize("./stars").is_none(), "a leading current-directory component");
    assert!(sanitize(".").is_none());
    assert_eq!(sanitize("stars/./bright.bin").as_deref(), Some("stars/./bright.bin"));
    assert_eq!(sanitize("//stars//bright.bin").as_deref(), Some("stars//bright.bin"));
    assert_eq!(sanitize(".hidden").as_deref(), Some(".hidden"));
    assert!(sanitize("stars/..").is_none());
}

#[test]
fn each_tree_lives_where_its_build_puts_it() {
    assert_eq!(Tree::Static.on_disk("static"), "static");
    assert_eq!(Tree::Starscape.on_disk("static"), "crates/starscape/dist");
    assert_eq!(Tree::Member.on_disk("x"), "crates/app-member/dist");
    assert_eq!(Tree::Org.on_disk("x"), "crates/app-org/dist");
    assert_eq!(Tree::Platform.on_disk("x"), "crates/app-platform/dist");
}

#[test]
fn a_plain_span_resolves_to_the_bytes_the_manifest_named() {
    assert_eq!(
        parse(Some("bytes=12-4459"), 49_405_260),
        Asked::Slice {
            start: 12,
            end: 4_459
        }
    );
    assert_eq!(
        parse(Some("bytes=0-0"), 10),
        Asked::Slice { start: 0, end: 0 }
    );
}

#[test]
fn an_open_ended_or_suffix_span_is_resolved_against_the_real_length() {
    assert_eq!(
        parse(Some("bytes=8-"), 10),
        Asked::Slice { start: 8, end: 9 }
    );
    assert_eq!(
        parse(Some("bytes=-3"), 10),
        Asked::Slice { start: 7, end: 9 }
    );
    assert_eq!(
        parse(Some("bytes=-50"), 10),
        Asked::Slice { start: 0, end: 9 }
    );
    assert_eq!(
        parse(Some("bytes=5-99"), 10),
        Asked::Slice { start: 5, end: 9 }
    );
}

#[test]
fn a_range_the_file_cannot_satisfy_is_the_only_thing_that_is_refused() {
    for outside in ["bytes=10-12", "bytes=99-", "bytes=-0"] {
        assert_eq!(parse(Some(outside), 10), Asked::Unsatisfiable, "{outside}");
    }
    assert_eq!(parse(Some("bytes=0-0"), 0), Asked::Unsatisfiable);
}

#[test]
fn anything_we_do_not_understand_is_ignored_rather_than_refused() {
    for ignored in [
        "items=0-1",
        "bytes=0-1,4-5",
        "bytes=abc-def",
        "bytes=9-2",
        "bytes",
        "",
    ] {
        assert_eq!(parse(Some(ignored), 10), Asked::Whole, "{ignored}");
    }
    assert_eq!(parse(None, 10), Asked::Whole);
}

#[test]
fn the_catalog_prefix_is_the_lod_tree() {
    assert_eq!(PREFIX, "stars/lod/");
}
