//! The serving surface's decisions.
//!
//! The routes themselves are plain HTTP plumbing; what is decided here
//! is which well-known paths are served from the binary's built-in
//! assets and with which content type, which requests are the user's
//! additional CSS/JS, and which may fall through to the source
//! directory.

use crate::pathstr::{ends_with_md_spec, path_ends_with_md, path_trim_leading_slashes, str_eq, trim_slashes_spec};
use crate::rebuilding::ServeInfo;
use crate::watch_files::seq_has;
use vstd::prelude::*;

verus! {

/// The HTTP endpoint prefix for the live-patch WebSocket.
pub fn live_patch_websocket_path() -> (r: &'static str)
    ensures
        r@ == "__mdbook_incremental_preview_live_patch"@,
{
    "__mdbook_incremental_preview_live_patch"
}

/// URL path of the JavaScript for live patching, served from the binary
/// and injected into every rendered page.
pub fn live_patch_js_path() -> (r: &'static str)
    ensures
        r@ == "__mdbook_incremental_preview/websocket_live_patch.js"@,
{
    "__mdbook_incremental_preview/websocket_live_patch.js"
}

/// The content types the built-in static assets are served with.
#[derive(Clone, Copy, Debug, PartialEq, Eq, Structural)]
pub enum AssetKind {
    Js,
    Css,
    Ttf,
    Svg,
    Woff,
    Woff2,
    Eot,
    Png,
    Txt,
}

/// The content-type header value for each asset kind.
pub open spec fn spec_content_type(kind: AssetKind) -> Seq<char> {
    match kind {
        AssetKind::Js => "application/javascript"@,
        AssetKind::Css => "text/css"@,
        AssetKind::Ttf => "font/ttf"@,
        AssetKind::Svg => "image/svg+xml"@,
        AssetKind::Woff => "font/woff"@,
        AssetKind::Woff2 => "font/woff2"@,
        AssetKind::Eot => "application/vnd.ms-fontobject"@,
        AssetKind::Png => "image/png"@,
        AssetKind::Txt => "text/plain"@,
    }
}

/// The content-type header value for an asset kind.
pub fn content_type(kind: AssetKind) -> (r: &'static str)
    ensures
        r@ == spec_content_type(kind),
{
    match kind {
        AssetKind::Js => "application/javascript",
        AssetKind::Css => "text/css",
        AssetKind::Ttf => "font/ttf",
        AssetKind::Svg => "image/svg+xml",
        AssetKind::Woff => "font/woff",
        AssetKind::Woff2 => "font/woff2",
        AssetKind::Eot => "application/vnd.ms-fontobject",
        AssetKind::Png => "image/png",
        AssetKind::Txt => "text/plain",
    }
}

/// The fixed table of built-in static assets, mirroring the fallback
/// theme, Font Awesome, the fallback fonts stylesheet, the playground
/// editor scripts, and the live-patch client script.
pub open spec fn spec_static_asset(p: Seq<char>) -> Option<AssetKind> {
    if p == "book.js"@ {
        Option::Some(AssetKind::Js)
    } else if p == "css/chrome.css"@ {
        Option::Some(AssetKind::Css)
    } else if p == "css/general.css"@ {
        Option::Some(AssetKind::Css)
    } else if p == "css/print.css"@ {
        Option::Some(AssetKind::Css)
    } else if p == "css/variables.css"@ {
        Option::Some(AssetKind::Css)
    } else if p == "favicon.png"@ {
        Option::Some(AssetKind::Png)
    } else if p == "favicon.svg"@ {
        Option::Some(AssetKind::Svg)
    } else if p == "highlight.css"@ {
        Option::Some(AssetKind::Css)
    } else if p == "tomorrow-night.css"@ {
        Option::Some(AssetKind::Css)
    } else if p == "ayu-highlight.css"@ {
        Option::Some(AssetKind::Css)
    } else if p == "highlight.js"@ {
        Option::Some(AssetKind::Js)
    } else if p == "clipboard.min.js"@ {
        Option::Some(AssetKind::Js)
    } else if p == "FontAwesome/css/font-awesome.css"@ {
        Option::Some(AssetKind::Css)
    } else if p == "FontAwesome/fonts/fontawesome-webfont.eot"@ {
        Option::Some(AssetKind::Eot)
    } else if p == "FontAwesome/fonts/fontawesome-webfont.svg"@ {
        Option::Some(AssetKind::Svg)
    } else if p == "FontAwesome/fonts/fontawesome-webfont.ttf"@ {
        Option::Some(AssetKind::Ttf)
    } else if p == "FontAwesome/fonts/fontawesome-webfont.woff"@ {
        Option::Some(AssetKind::Woff)
    } else if p == "FontAwesome/fonts/fontawesome-webfont.woff2"@ {
        Option::Some(AssetKind::Woff2)
    } else if p == "FontAwesome/fonts/FontAwesome.ttf"@ {
        Option::Some(AssetKind::Ttf)
    } else if p == "fonts/fonts.css"@ {
        Option::Some(AssetKind::Css)
    } else if p == "editor.js"@ {
        Option::Some(AssetKind::Js)
    } else if p == "ace.js"@ {
        Option::Some(AssetKind::Js)
    } else if p == "mode-rust.js"@ {
        Option::Some(AssetKind::Js)
    } else if p == "theme-dawn.js"@ {
        Option::Some(AssetKind::Js)
    } else if p == "theme-tomorrow_night.js"@ {
        Option::Some(AssetKind::Js)
    } else if p == "__mdbook_incremental_preview/websocket_live_patch.js"@ {
        Option::Some(AssetKind::Js)
    } else {
        Option::None
    }
}

/// Looks a request path (already stripped of leading separators) up in
/// the built-in asset table.
pub fn static_asset(path: &str) -> (r: Option<AssetKind>)
    ensures
        r == spec_static_asset(path@),
{
    if str_eq(path, "book.js") {
        Some(AssetKind::Js)
    } else if str_eq(path, "css/chrome.css") {
        Some(AssetKind::Css)
    } else if str_eq(path, "css/general.css") {
        Some(AssetKind::Css)
    } else if str_eq(path, "css/print.css") {
        Some(AssetKind::Css)
    } else if str_eq(path, "css/variables.css") {
        Some(AssetKind::Css)
    } else if str_eq(path, "favicon.png") {
        Some(AssetKind::Png)
    } else if str_eq(path, "favicon.svg") {
        Some(AssetKind::Svg)
    } else if str_eq(path, "highlight.css") {
        Some(AssetKind::Css)
    } else if str_eq(path, "tomorrow-night.css") {
        Some(AssetKind::Css)
    } else if str_eq(path, "ayu-highlight.css") {
        Some(AssetKind::Css)
    } else if str_eq(path, "highlight.js") {
        Some(AssetKind::Js)
    } else if str_eq(path, "clipboard.min.js") {
        Some(AssetKind::Js)
    } else if str_eq(path, "FontAwesome/css/font-awesome.css") {
        Some(AssetKind::Css)
    } else if str_eq(path, "FontAwesome/fonts/fontawesome-webfont.eot") {
        Some(AssetKind::Eot)
    } else if str_eq(path, "FontAwesome/fonts/fontawesome-webfont.svg") {
        Some(AssetKind::Svg)
    } else if str_eq(path, "FontAwesome/fonts/fontawesome-webfont.ttf") {
        Some(AssetKind::Ttf)
    } else if str_eq(path, "FontAwesome/fonts/fontawesome-webfont.woff") {
        Some(AssetKind::Woff)
    } else if str_eq(path, "FontAwesome/fonts/fontawesome-webfont.woff2") {
        Some(AssetKind::Woff2)
    } else if str_eq(path, "FontAwesome/fonts/FontAwesome.ttf") {
        Some(AssetKind::Ttf)
    } else if str_eq(path, "fonts/fonts.css") {
        Some(AssetKind::Css)
    } else if str_eq(path, "editor.js") {
        Some(AssetKind::Js)
    } else if str_eq(path, "ace.js") {
        Some(AssetKind::Js)
    } else if str_eq(path, "mode-rust.js") {
        Some(AssetKind::Js)
    } else if str_eq(path, "theme-dawn.js") {
        Some(AssetKind::Js)
    } else if str_eq(path, "theme-tomorrow_night.js") {
        Some(AssetKind::Js)
    } else if str_eq(path, "__mdbook_incremental_preview/websocket_live_patch.js") {
        Some(AssetKind::Js)
    } else {
        None
    }
}

/// Whether a request is one of the user's additional CSS or JS assets,
/// by exact relative-path match after stripping leading separators.
pub fn is_additional_asset(info: &ServeInfo, path: &str) -> (r: bool)
    ensures
        r == ({
            let t = trim_slashes_spec(path@);
            seq_has(info@.additional_js, t) || seq_has(info@.additional_css, t)
        }),
{
    let trimmed = path_trim_leading_slashes(path);
    let in_js = crate::pathstr::vec_contains_str(&info.additional_js, trimmed.as_str());
    let in_css = crate::pathstr::vec_contains_str(&info.additional_css, trimmed.as_str());
    proof {
        let t = trim_slashes_spec(path@);
        if in_js {
            let k = choose|k: int|
                0 <= k < info.additional_js@.len() && info.additional_js@[k]@ == t;
            assert(info@.additional_js[k] == t);
        } else {
            if seq_has(info@.additional_js, t) {
                let k = choose|k: int|
                    0 <= k < info@.additional_js.len() && info@.additional_js[k] == t;
                assert(info.additional_js@[k]@ == t);
            }
        }
        if in_css {
            let k = choose|k: int|
                0 <= k < info.additional_css@.len() && info.additional_css@[k]@ == t;
            assert(info@.additional_css[k] == t);
        } else {
            if seq_has(info@.additional_css, t) {
                let k = choose|k: int|
                    0 <= k < info@.additional_css.len() && info@.additional_css[k] == t;
                assert(info.additional_css@[k]@ == t);
            }
        }
    }
    in_js || in_css
}

/// Whether a request may fall through to the source directory: anything
/// that does not name a Markdown source.
pub fn serves_from_source_dir(path: &str) -> (r: bool)
    ensures
        r == !ends_with_md_spec(path@),
{
    !path_ends_with_md(path)
}

} // verus!
