//! Configuring a freshly loaded book for live reloading.

use crate::pathstr::{path_join, path_join_spec};
use crate::PreviewError;
use vstd::prelude::*;

verus! {

#[verifier::external_type_specification]
#[verifier::external_body]
pub struct ExMDBook(mdbook::MDBook);

/// Relies on `mdbook::Config::set`: stores the string under the dotted
/// key in the book's configuration. For a string value the conversion
/// to a configuration value cannot fail, and keys outside the `book`
/// and `build` tables are inserted without error, so the call always
/// reports success.
#[verifier::external_body]
fn mdbook_config_set(book: &mut mdbook::MDBook, key: &str, value: &str) -> (r: bool)
    ensures
        r == true,
{
    book.config.set(key, value).is_ok()
}

/// Points the loaded book's live-reload endpoint at the live-patch
/// WebSocket and overrides the site URL with `/` for local serving of
/// the 404 page. Both are plain string values, which the configuration
/// always accepts, so the update succeeds; the error arm remains only
/// to mirror how a failed update would surface.
pub fn config_book_for_live_reload(book: &mut mdbook::MDBook) -> (r: Result<(), PreviewError>)
    ensures
        (r is Ok),
{
    let endpoint = crate::web_server::live_patch_websocket_path();
    let live_reload_set = mdbook_config_set(book, "output.html.live-reload-endpoint", endpoint);
    let site_url_set = mdbook_config_set(book, "output.html.site-url", "/");
    if live_reload_set && site_url_set {
        Ok(())
    } else {
        Err(PreviewError::ConfigLoad)
    }
}

/// The theme directory a configuration selects: the configured theme
/// path under the book root, or the `theme` directory beside the book
/// configuration.
pub fn theme_dir_of(book_root: &str, theme: &Option<String>) -> (r: String)
    ensures
        r@ == (match theme {
            Option::Some(t) => path_join_spec(book_root@, t@),
            Option::None => path_join_spec(book_root@, "theme"@),
        }),
{
    match theme {
        Some(t) => path_join(book_root, t.as_str()),
        None => path_join(book_root, "theme"),
    }
}

} // verus!
