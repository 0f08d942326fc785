//! Plain snapshots of the HTML elements that the extractor reads: their
//! text nodes, their `href`, and the links inside them.
use vstd::prelude::*;

verus! {

/// A link element found inside another element.
#[derive(Debug, Clone)]
pub struct DomAnchor {
    pub href: Option<String>,
    pub texts: Vec<String>,
}

/// The value of a [`DomAnchor`].
pub struct AnchorView {
    pub href: Option<Seq<char>>,
    pub texts: Seq<Seq<char>>,
}

impl View for DomAnchor {
    type V = AnchorView;

    open spec fn view(&self) -> AnchorView {
        AnchorView { href: self.href.deep_view(), texts: self.texts.deep_view() }
    }
}

impl DeepView for DomAnchor {
    type V = AnchorView;

    open spec fn deep_view(&self) -> AnchorView {
        self@
    }
}

/// An element of the document: its `href` attribute, its descendant text
/// nodes in document order, and the link elements among its descendants.
#[derive(Debug, Clone)]
pub struct DomElement {
    pub href: Option<String>,
    pub texts: Vec<String>,
    pub anchors: Vec<DomAnchor>,
}

/// The value of a [`DomElement`].
pub struct ElementView {
    pub href: Option<Seq<char>>,
    pub texts: Seq<Seq<char>>,
    pub anchors: Seq<AnchorView>,
}

impl View for DomElement {
    type V = ElementView;

    open spec fn view(&self) -> ElementView {
        ElementView {
            href: self.href.deep_view(),
            texts: self.texts.deep_view(),
            anchors: self.anchors.deep_view(),
        }
    }
}

impl DeepView for DomElement {
    type V = ElementView;

    open spec fn deep_view(&self) -> ElementView {
        self@
    }
}

/// What the HTML parser of `scraper` finds in the document `html` for the
/// CSS selector group `selector`: `None` when the group does not parse (or
/// `link_selector` does not); otherwise, in document order, one snapshot per
/// matching element, with its attribute `attribute`, its text nodes, and
/// for each descendant matching `link_selector` that one's attribute
/// `attribute` and text nodes. HTML parsing and selector matching take
/// pages to state, so this names the result.
pub uninterp spec fn selected_elements(
    html: Seq<char>,
    selector: Seq<char>,
    link_selector: Seq<char>,
    attribute: Seq<char>,
) -> Option<Seq<ElementView>>;

/// Trusted: `scraper::Html::parse_document(html)`, `scraper::Selector::parse`
/// of `selector` and of `link_selector`, then `Html::select` with the first
/// and, for each element, `ElementRef::value().attr(attribute)`,
/// `ElementRef::text()` and `ElementRef::select` with the second. The result
/// is a function of the four texts alone; the contract names it.
#[verifier::external_body]
pub(crate) fn select_elements(html: &str, selector: &str, link_selector: &str, attribute: &str) -> (r:
    Option<Vec<DomElement>>)
    ensures
        r.deep_view() == selected_elements(html@, selector@, link_selector@, attribute@),
{
    let doc = scraper::Html::parse_document(html);
    let outer = scraper::Selector::parse(selector).ok()?;
    let inner = scraper::Selector::parse(link_selector).ok()?;
    let anchor = |a: scraper::ElementRef| DomAnchor {
        href: a.value().attr(attribute).map(String::from),
        texts: a.text().map(String::from).collect(),
    };
    Some(doc.select(&outer).map(|e| DomElement {
        href: e.value().attr(attribute).map(String::from),
        texts: e.text().map(String::from).collect(),
        anchors: e.select(&inner).map(anchor).collect(),
    }).collect())
}

} // verus!
