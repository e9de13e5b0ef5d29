//! Wiki markup extensions layered around a Markdown renderer: block and inline
//! decorations, plugin containers, and the placeholder protocol that keeps the wiki
//! grammar and the Markdown grammar from corrupting each other.
use vstd::prelude::*;
use crate::block_decorations::{block_decorate_chars, block_decorated};
use crate::code_guard::{guarded, protect_code_sections, restore_code_sections, unguarded};
use crate::conflict_resolver::{postprocess_conflicts, restored, HeaderIdMap};
use crate::emphasis::{emphasize_chars, emphasized};
use crate::inline_decorations::{inline_decorate_chars, inline_decorated};
use crate::text::{chars_of, string_of};

pub mod text;
pub mod block_decorations;
pub mod code_guard;
pub mod encoding;
pub mod plugins;
pub mod conflict_resolver;
pub mod emphasis;
pub mod inline_decorations;
pub mod laws;

verus! {

/// The wiki passes over rendered HTML, with rendered code set aside: placeholder
/// tokens restored and headings anchored, then emphasis, block decorations and inline
/// decorations; finally the code is put back.
pub open spec fn lukiwiki_html(s: Seq<char>) -> Seq<char> {
    let g = guarded(s);
    let a = restored(g.0, Map::empty());
    let b = emphasized(a);
    let c = block_decorated(b);
    let d = inline_decorated(c);
    unguarded(d, g.1)
}

/// Applies the wiki transformations to the HTML that the Markdown renderer produced.
pub fn apply_lukiwiki_syntax(html: &str) -> (r: String)
    ensures
        r@ == lukiwiki_html(html@),
{
    let (protected, placeholders) = protect_code_sections(html);
    let map = HeaderIdMap::new();
    let a = postprocess_conflicts(protected.as_str(), &map);
    let b = emphasize_chars(&chars_of(a.as_str()));
    let c = block_decorate_chars(&b);
    let d = inline_decorate_chars(&c);
    let text = string_of(d);
    restore_code_sections(text.as_str(), placeholders.as_slice())
}

} // verus!
