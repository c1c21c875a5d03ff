//! Serving the embedded frontend: the content type and cache policy of a
//! file, and the asset path a URL path asks for. Looking the file up in the
//! embedded bundle is the caller's business.

use vstd::prelude::*;

use crate::text::{after_last, after_last_char, has_prefix, starts_with, str_eq, trim_start, trim_start_spec};

verus! {

/// Content type of a file by its extension (the text after the last `.`,
/// or the whole path when it has none).
pub open spec fn mime_of(ext: Seq<char>) -> Seq<char> {
    if ext == "html"@ {
        "text/html; charset=utf-8"@
    } else if ext == "js"@ || ext == "mjs"@ {
        "application/javascript; charset=utf-8"@
    } else if ext == "css"@ {
        "text/css; charset=utf-8"@
    } else if ext == "json"@ || ext == "map"@ {
        "application/json; charset=utf-8"@
    } else if ext == "png"@ {
        "image/png"@
    } else if ext == "jpg"@ || ext == "jpeg"@ {
        "image/jpeg"@
    } else if ext == "gif"@ {
        "image/gif"@
    } else if ext == "svg"@ {
        "image/svg+xml"@
    } else if ext == "ico"@ {
        "image/x-icon"@
    } else if ext == "woff"@ {
        "font/woff"@
    } else if ext == "woff2"@ {
        "font/woff2"@
    } else if ext == "ttf"@ {
        "font/ttf"@
    } else if ext == "eot"@ {
        "application/vnd.ms-fontobject"@
    } else if ext == "webp"@ {
        "image/webp"@
    } else if ext == "avif"@ {
        "image/avif"@
    } else if ext == "wasm"@ {
        "application/wasm"@
    } else {
        "application/octet-stream"@
    }
}

/// Content type of the file at `path`.
pub fn content_type(path: &str) -> (r: &'static str)
    ensures
        r@ == mime_of(after_last(path@, '.')),
{
    let e = after_last_char(path, '.');
    let ext = e.as_str();
    if str_eq(ext, "html") {
        "text/html; charset=utf-8"
    } else if str_eq(ext, "js") || str_eq(ext, "mjs") {
        "application/javascript; charset=utf-8"
    } else if str_eq(ext, "css") {
        "text/css; charset=utf-8"
    } else if str_eq(ext, "json") || str_eq(ext, "map") {
        "application/json; charset=utf-8"
    } else if str_eq(ext, "png") {
        "image/png"
    } else if str_eq(ext, "jpg") || str_eq(ext, "jpeg") {
        "image/jpeg"
    } else if str_eq(ext, "gif") {
        "image/gif"
    } else if str_eq(ext, "svg") {
        "image/svg+xml"
    } else if str_eq(ext, "ico") {
        "image/x-icon"
    } else if str_eq(ext, "woff") {
        "font/woff"
    } else if str_eq(ext, "woff2") {
        "font/woff2"
    } else if str_eq(ext, "ttf") {
        "font/ttf"
    } else if str_eq(ext, "eot") {
        "application/vnd.ms-fontobject"
    } else if str_eq(ext, "webp") {
        "image/webp"
    } else if str_eq(ext, "avif") {
        "image/avif"
    } else if str_eq(ext, "wasm") {
        "application/wasm"
    } else {
        "application/octet-stream"
    }
}

/// Cache policy of a file: hashed build assets are cached for good, every
/// other file (the entry page above all) is revalidated.
pub open spec fn cache_policy(path: Seq<char>) -> Seq<char> {
    if has_prefix(path, "assets/"@) {
        "public, max-age=31536000, immutable"@
    } else {
        "no-cache"@
    }
}

/// Cache policy of the file at `path` (see [`cache_policy`]).
pub fn cache_control(path: &str) -> (r: &'static str)
    ensures
        r@ == cache_policy(path@),
{
    if starts_with(path, "assets/") {
        "public, max-age=31536000, immutable"
    } else {
        "no-cache"
    }
}

/// The asset a URL path asks for: the path without its leading `/`s (empty
/// for the root, which is served the entry page).
pub fn asset_path(path: &str) -> (r: String)
    ensures
        r@ == trim_start_spec(path@, '/'),
{
    trim_start(path, '/')
}

/// The page served when no asset matches: the single-page entry.
pub open spec fn entry_page() -> Seq<char> {
    "index.html"@
}

/// The files tried for a URL path, in order: the asset itself (unless the
/// path names none), then the entry page.
pub fn lookup_order(path: &str) -> (r: Vec<String>)
    ensures
        trim_start_spec(path@, '/').len() == 0 ==> r@.len() == 1 && r@[0]@ == entry_page(),
        trim_start_spec(path@, '/').len() > 0 ==> r@.len() == 2 && r@[0]@ == trim_start_spec(path@, '/')
            && r@[1]@ == entry_page(),
{
    let clean = asset_path(path);
    let mut out: Vec<String> = Vec::new();
    if !clean.as_str().is_empty() {
        out.push(clean);
    }
    out.push("index.html".to_owned());
    out
}

/// Assets are cached for good exactly when they live under `assets/`, and
/// every file gets one of the two policies.
pub proof fn law_cache_policy(path: Seq<char>)
    ensures
        cache_policy(path) == "no-cache"@ || cache_policy(path) == "public, max-age=31536000, immutable"@,
        has_prefix(path, "assets/"@) <==> cache_policy(path) == "public, max-age=31536000, immutable"@,
{
    if !has_prefix(path, "assets/"@) {
        reveal_strlit("no-cache");
        reveal_strlit("public, max-age=31536000, immutable");
        assert("no-cache"@.len() != "public, max-age=31536000, immutable"@.len());
    }
}

} // verus!
