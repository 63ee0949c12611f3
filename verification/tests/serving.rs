//! Serving-surface decisions: built-in assets, additional assets, and
//! the source-directory fallback.

use mdbook_incremental_preview::rebuilding::ServeInfo;
use mdbook_incremental_preview::web_server::{
    content_type, is_additional_asset, live_patch_js_path, live_patch_websocket_path,
    serves_from_source_dir, static_asset, AssetKind,
};

#[test]
fn well_known_assets_have_their_content_types() {
    assert_eq!(static_asset("book.js"), Some(AssetKind::Js));
    assert_eq!(static_asset("css/chrome.css"), Some(AssetKind::Css));
    assert_eq!(static_asset("favicon.png"), Some(AssetKind::Png));
    assert_eq!(static_asset("favicon.svg"), Some(AssetKind::Svg));
    assert_eq!(
        static_asset("FontAwesome/fonts/fontawesome-webfont.woff2"),
        Some(AssetKind::Woff2),
    );
    assert_eq!(static_asset("FontAwesome/fonts/FontAwesome.ttf"), Some(AssetKind::Ttf));
    assert_eq!(static_asset(live_patch_js_path()), Some(AssetKind::Js));
    assert_eq!(static_asset("index.html"), None);
    assert_eq!(static_asset(""), None);

    assert_eq!(content_type(AssetKind::Js), "application/javascript");
    assert_eq!(content_type(AssetKind::Css), "text/css");
    assert_eq!(content_type(AssetKind::Ttf), "font/ttf");
    assert_eq!(content_type(AssetKind::Svg), "image/svg+xml");
    assert_eq!(content_type(AssetKind::Woff2), "font/woff2");
    assert_eq!(content_type(AssetKind::Eot), "application/vnd.ms-fontobject");
    assert_eq!(content_type(AssetKind::Png), "image/png");
    assert_eq!(content_type(AssetKind::Txt), "text/plain");
}

#[test]
fn additional_assets_match_by_exact_relative_path() {
    let info = ServeInfo {
        src_dir: "/book/src".to_string(),
        theme_dir: "/book/theme".to_string(),
        additional_css: vec!["style/extra.css".to_string()],
        additional_js: vec!["js/extra.js".to_string()],
        file_404: "/tmp/build/404.html".to_string(),
    };
    assert!(is_additional_asset(&info, "/js/extra.js"));
    assert!(is_additional_asset(&info, "style/extra.css"));
    assert!(!is_additional_asset(&info, "/js/other.js"));
    assert!(!is_additional_asset(&info, "extra.js"));
}

#[test]
fn markdown_sources_never_fall_through() {
    assert!(!serves_from_source_dir("chapter/intro.md"));
    assert!(serves_from_source_dir("chapter/intro.html"));
    assert!(serves_from_source_dir("image.png"));
}

#[test]
fn websocket_endpoint_names() {
    assert_eq!(live_patch_websocket_path(), "__mdbook_incremental_preview_live_patch");
    assert_eq!(
        live_patch_js_path(),
        "__mdbook_incremental_preview/websocket_live_patch.js",
    );
}
