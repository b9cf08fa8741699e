//! The two page frames: the bare page and the styled page.

use crate::escape::{escaped, html_escape};
use crate::templates::{
    MINIMAL_CLOSE, MINIMAL_MIDDLE, MINIMAL_OPEN, STYLED_CLOSE, STYLED_MIDDLE, STYLED_OPEN,
};
use vstd::prelude::*;
use vstd::string::StringExecFns;

verus! {

/// The bare page: the title, escaped, and `inner` as it is.
pub open spec fn minimal_document(title: Seq<char>, inner: Seq<char>) -> Seq<char> {
    MINIMAL_OPEN@ + escaped(title) + MINIMAL_MIDDLE@ + inner + MINIMAL_CLOSE@
}

/// The styled page: the title, escaped, the style sheet, and `body` as it
/// is.
pub open spec fn styled_document(title: Seq<char>, body: Seq<char>) -> Seq<char> {
    STYLED_OPEN@ + escaped(title) + STYLED_MIDDLE@ + body + STYLED_CLOSE@
}

/// A complete page without style sheet or script. `title` is escaped;
/// `inner` is HTML and goes into the body unchanged.
pub fn minimal_page(title: &str, inner: &str) -> (page: String)
    ensures
        page@ == minimal_document(title@, inner@),
{
    let mut page = String::from_str(MINIMAL_OPEN);
    page.append(html_escape(title).as_str());
    page.append(MINIMAL_MIDDLE);
    page.append(inner);
    page.append(MINIMAL_CLOSE);
    page
}

/// A complete page with the style sheet of the gallery. `title` is escaped;
/// `body` is HTML and goes into the body unchanged.
pub fn styled_page(title: &str, body: &str) -> (page: String)
    ensures
        page@ == styled_document(title@, body@),
{
    let mut page = String::from_str(STYLED_OPEN);
    page.append(html_escape(title).as_str());
    page.append(STYLED_MIDDLE);
    page.append(body);
    page.append(STYLED_CLOSE);
    page
}

} // verus!
