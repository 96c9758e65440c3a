use vstd::prelude::*;

use crate::platform::html::{fragment_nodes, text_fold};
use crate::text::trim;

verus! {

/// Converts Zhihu answer or comment HTML into plain terminal text: `<p>`
/// blocks are separated by blank lines, `<br>` becomes a newline, `<img>`
/// becomes `[图片]`, other tags are dropped and their text kept.
pub fn to_text(html: &str) -> (r: String)
    ensures
        r@ == trim(text_fold(fragment_nodes(html@, Seq::empty()))),
{
    crate::platform::html::to_text(html)
}

} // verus!
