//! The extraction of a [`ParsedPage`] from the HTML of a course page: its
//! title, documents, class log, announced tests, chapters, and the digest
//! of the whole page.
use vstd::prelude::*;
use vstd::utf8::encode_utf8;

use sha2::Digest;

use super::dom::{select_elements, selected_elements, AnchorView, DomAnchor, DomElement, ElementView};
use super::model::{
    AttachmentLink, CahierEntry, CoursEntry, CoursView, DevoirEntry, EntryView, LinkView,
    ParsedPage, ParsedPageView,
};
use crate::text::{
    chars_of, collapse_whitespace, collapse_whitespace_spec, contains_spec, contains_str,
    ends_with_spec, ends_with_str, join, join_spec, last_piece, last_piece_spec, lowercase, owned,
    starts_with_spec, starts_with_str, to_lowercase, trim, trim_spec,
};

verus! {

/// The selector of the page heading.
pub const H1_SELECTOR: &'static str = "h1";

/// The selector of the document title.
pub const TITLE_SELECTOR: &'static str = "title";

/// The selector of link elements.
pub const LINK_SELECTOR: &'static str = "a[href]";

/// The attribute that holds a link's address.
pub const HREF: &'static str = "href";

/// The selector of the blocks searched for the class log.
pub const CAHIER_SELECTOR: &'static str = ".OEWEText, .OEPageXbody, div";

/// The selector of the blocks searched for announced tests.
pub const DEVOIR_SELECTOR: &'static str = ".OEWEText, div";

/// The selector of the list items searched for chapters.
pub const COURS_SELECTOR: &'static str = "ol li, ul li";

/// The title of a page that has neither heading nor title.
pub const DEFAULT_TITLE: &'static str = "Maths";

/// The address that the `url` crate gives for `reference` resolved against
/// the base address `base` (`Url::parse(base)` then `Url::join`), or `None`
/// when either step fails. URL parsing takes pages to state, so this names
/// the result.
pub uninterp spec fn url_join(base: Seq<char>, reference: Seq<char>) -> Option<Seq<char>>;

/// The SHA-256 digest of `data`.
pub uninterp spec fn sha256(data: Seq<u8>) -> Seq<u8>;

/// Trusted: `url::Url::parse(base)`, then `Url::join(reference)` on the
/// result, written out by `Url`'s `Display`. A function of the two texts
/// alone; the contract names it.
#[verifier::external_body]
fn join_url(base: &str, reference: &str) -> (r: Option<String>)
    ensures
        r.deep_view() == url_join(base@, reference@),
{
    let parsed = url::Url::parse(base).ok()?;
    parsed.join(reference).ok().map(|u| u.to_string())
}

/// Trusted: `sha2::Sha256::new()`, one `update` with `data`, then
/// `finalize`; the digest has 32 bytes, as SHA-256 defines.
#[verifier::external_body]
fn sha256_digest(data: &[u8]) -> (r: Vec<u8>)
    ensures
        r@ == sha256(data@),
        r@.len() == 32,
{
    let mut hasher = sha2::Sha256::new();
    hasher.update(data);
    hasher.finalize().to_vec()
}

/// The lower-case hexadecimal digit of `n` (below 16).
pub open spec fn hex_digit_spec(n: u8) -> char {
    if n == 0 {
        '0'
    } else if n == 1 {
        '1'
    } else if n == 2 {
        '2'
    } else if n == 3 {
        '3'
    } else if n == 4 {
        '4'
    } else if n == 5 {
        '5'
    } else if n == 6 {
        '6'
    } else if n == 7 {
        '7'
    } else if n == 8 {
        '8'
    } else if n == 9 {
        '9'
    } else if n == 10 {
        'a'
    } else if n == 11 {
        'b'
    } else if n == 12 {
        'c'
    } else if n == 13 {
        'd'
    } else if n == 14 {
        'e'
    } else {
        'f'
    }
}

/// The lower-case hexadecimal writing of `bytes`, two digits per byte.
pub open spec fn hex_spec(bytes: Seq<u8>) -> Seq<char>
    decreases bytes.len(),
{
    if bytes.len() == 0 {
        seq![]
    } else {
        let b = bytes.last();
        hex_spec(bytes.drop_last()) + seq![hex_digit_spec(b / 16), hex_digit_spec(b % 16)]
    }
}

/// `href` made absolute: trimmed, kept when it already starts with a web
/// scheme, else resolved against `base` where that succeeds.
pub open spec fn resolve_spec(href: Seq<char>, base: Seq<char>) -> Seq<char> {
    let t = trim_spec(href);
    if starts_with_spec(t, "http://"@) || starts_with_spec(t, "https://"@) {
        t
    } else {
        match url_join(base, t) {
            Some(j) => j,
            None => t,
        }
    }
}

/// The text nodes of an element joined by spaces and trimmed.
pub open spec fn label_spec(texts: Seq<Seq<char>>) -> Seq<char> {
    trim_spec(join_spec(texts, " "@))
}

/// The link of a link element: its address made absolute, labelled by its
/// text or, without text, by the address.
pub open spec fn anchor_link(a: AnchorView, base: Seq<char>) -> Option<LinkView> {
    match a.href {
        Some(h) => {
            let label = label_spec(a.texts);
            let full = resolve_spec(h, base);
            Some(LinkView { text: if label.len() == 0 { full } else { label }, url: full })
        },
        None => None,
    }
}

/// The links of the link elements of a block, in order.
pub open spec fn links_spec(anchors: Seq<AnchorView>, base: Seq<char>) -> Seq<LinkView> {
    anchors.filter_map(|a: AnchorView| anchor_link(a, base))
}

/// A lower-cased address names a document (PDF, Word, ZIP or Python file).
pub open spec fn is_document_spec(lower: Seq<char>) -> bool {
    ||| ends_with_spec(lower, ".pdf"@)
    ||| ends_with_spec(lower, ".doc"@)
    ||| ends_with_spec(lower, ".docx"@)
    ||| ends_with_spec(lower, ".zip"@)
    ||| ends_with_spec(lower, ".py"@)
}

/// The attachment that a link element stands for, if it names a document:
/// labelled by its text or, without text, by the last path segment of the
/// address.
pub open spec fn attachment_of(e: ElementView, base: Seq<char>) -> Option<LinkView> {
    match e.href {
        Some(h) => if is_document_spec(lowercase(h)) {
            let label = label_spec(e.texts);
            let full = resolve_spec(h, base);
            Some(
                LinkView {
                    text: if label.len() == 0 {
                        last_piece_spec(full, '/')
                    } else {
                        label
                    },
                    url: full,
                },
            )
        } else {
            None
        },
        None => None,
    }
}

/// The document links of the link elements `els`, in order of first
/// occurrence, each once.
pub open spec fn attachments_spec(els: Seq<ElementView>, base: Seq<char>) -> Seq<LinkView>
    decreases els.len(),
{
    if els.len() == 0 {
        seq![]
    } else {
        let acc = attachments_spec(els.drop_last(), base);
        match attachment_of(els.last(), base) {
            Some(l) => if acc.contains(l) {
                acc
            } else {
                acc.push(l)
            },
            None => acc,
        }
    }
}

/// The text nodes of an element joined by spaces.
pub open spec fn element_text(e: ElementView) -> Seq<char> {
    join_spec(e.texts, " "@)
}

/// The text names a week day (Monday to Saturday, in French).
pub open spec fn has_day(t: Seq<char>) -> bool {
    ||| contains_spec(t, "Lundi"@)
    ||| contains_spec(t, "Mardi"@)
    ||| contains_spec(t, "Mercredi"@)
    ||| contains_spec(t, "Jeudi"@)
    ||| contains_spec(t, "Vendredi"@)
    ||| contains_spec(t, "Samedi"@)
}

/// The text speaks of chapters, exercises, corrections or lessons.
pub open spec fn has_school_context(t: Seq<char>) -> bool {
    ||| contains_spec(t, "Ch."@)
    ||| contains_spec(t, "Ex."@)
    ||| contains_spec(t, "Cor."@)
    ||| contains_spec(t, "Cours"@)
    ||| contains_spec(t, "Chercher"@)
}

/// A block is the class log: it names a day, speaks of school work, and
/// its text is longer than 30 bytes.
pub open spec fn is_cahier(e: ElementView) -> bool {
    let t = element_text(e);
    has_day(t) && has_school_context(t) && encode_utf8(t).len() > 30
}

/// The entry of a block: its text with whitespace collapsed, and its links.
pub open spec fn text_entry(e: ElementView, base: Seq<char>) -> EntryView {
    EntryView { raw_text: collapse_whitespace_spec(element_text(e)), links: links_spec(e.anchors, base) }
}

/// The class log: the entry of the first block that is one, if any.
pub open spec fn cahier_spec(els: Seq<ElementView>, base: Seq<char>) -> Seq<EntryView>
    decreases els.len(),
{
    if els.len() == 0 {
        seq![]
    } else if is_cahier(els[0]) {
        seq![text_entry(els[0], base)]
    } else {
        cahier_spec(els.drop_first(), base)
    }
}

/// A block announces a test: it names one, carries a year (or a date to be
/// filled in), and its text is shorter than 2000 bytes.
pub open spec fn is_devoir(e: ElementView) -> bool {
    let t = element_text(e);
    &&& (contains_spec(t, "Devoir"@) || contains_spec(t, "Interrogation"@) || contains_spec(
        t,
        "Bac Blanc"@,
    ) || contains_spec(t, "BAC Jour"@))
    &&& (contains_spec(t, "2025"@) || contains_spec(t, "2026"@) || contains_spec(t, "2027"@)
        || contains_spec(t, "../../202"@))
    &&& encode_utf8(t).len() < 2000
}

/// The test entry of a block, when it announces one and has text.
pub open spec fn devoir_of(e: ElementView, base: Seq<char>) -> Option<EntryView> {
    if is_devoir(e) && collapse_whitespace_spec(element_text(e)).len() != 0 {
        Some(text_entry(e, base))
    } else {
        None
    }
}

/// The announced tests, one per block that announces one, in order.
pub open spec fn devoir_spec(els: Seq<ElementView>, base: Seq<char>) -> Seq<EntryView> {
    els.filter_map(|e: ElementView| devoir_of(e, base))
}

/// The chapter of a list item, when its text speaks of a lesson or a
/// chapter and it holds links.
pub open spec fn cours_of(e: ElementView, base: Seq<char>) -> Option<CoursView> {
    let t = label_spec(e.texts);
    if contains_spec(lowercase(t), "cours"@) || contains_spec(t, "Ch."@) {
        let links = links_spec(e.anchors, base);
        if links.len() != 0 {
            Some(CoursView { title: t, links })
        } else {
            None
        }
    } else {
        None
    }
}

/// The chapters, one per list item that is one, in order.
pub open spec fn cours_spec(els: Seq<ElementView>, base: Seq<char>) -> Seq<CoursView> {
    els.filter_map(|e: ElementView| cours_of(e, base))
}

/// The trimmed text of the first element selected, or nothing.
pub open spec fn first_label(found: Option<Seq<ElementView>>) -> Seq<char> {
    match found {
        Some(els) => if els.len() > 0 {
            label_spec(els[0].texts)
        } else {
            seq![]
        },
        None => seq![],
    }
}

/// The page title: the first heading's text, else the document title,
/// else "Maths".
pub open spec fn title_spec(h1: Option<Seq<ElementView>>, title: Option<Seq<ElementView>>) -> Seq<char> {
    if first_label(h1).len() != 0 {
        first_label(h1)
    } else if first_label(title).len() != 0 {
        first_label(title)
    } else {
        DEFAULT_TITLE@
    }
}

/// The elements selected, or none when the selector does not parse.
pub open spec fn or_empty(found: Option<Seq<ElementView>>) -> Seq<ElementView> {
    match found {
        Some(els) => els,
        None => seq![],
    }
}

/// The elements of `html` that `selector` selects, with their links.
pub open spec fn select_spec(html: Seq<char>, selector: Seq<char>) -> Option<Seq<ElementView>> {
    selected_elements(html, selector, LINK_SELECTOR@, HREF@)
}

/// What `HtmlExtractor::parse` extracts from the page `html` fetched from
/// `base`.
pub open spec fn parse_spec(html: Seq<char>, base: Seq<char>) -> ParsedPageView {
    ParsedPageView {
        source_url: base,
        page_title: title_spec(select_spec(html, H1_SELECTOR@), select_spec(html, TITLE_SELECTOR@)),
        cahier_entries: cahier_spec(or_empty(select_spec(html, CAHIER_SELECTOR@)), base),
        devoir_entries: devoir_spec(or_empty(select_spec(html, DEVOIR_SELECTOR@)), base),
        cours_entries: cours_spec(or_empty(select_spec(html, COURS_SELECTOR@)), base),
        all_attachments: attachments_spec(or_empty(select_spec(html, LINK_SELECTOR@)), base),
        full_content_hash: hex_spec(sha256(encode_utf8(html))),
    }
}

/// Two hexadecimal digits per byte.
pub proof fn lemma_hex_len(bytes: Seq<u8>)
    ensures
        hex_spec(bytes).len() == 2 * bytes.len(),
    decreases bytes.len(),
{
    if bytes.len() > 0 {
        lemma_hex_len(bytes.drop_last());
    }
}

/// The document links of a page never list the same link twice.
pub proof fn law_attachments_distinct(els: Seq<ElementView>, base: Seq<char>)
    ensures
        attachments_spec(els, base).no_duplicates(),
    decreases els.len(),
{
    if els.len() > 0 {
        law_attachments_distinct(els.drop_last(), base);
        let acc = attachments_spec(els.drop_last(), base);
        if let Some(l) = attachment_of(els.last(), base) {
            if !acc.contains(l) {
                let r = acc.push(l);
                assert forall|i: int, j: int| 0 <= i < r.len() && 0 <= j < r.len() && i != j implies r[i]
                    != r[j] by {
                    if i == acc.len() {
                        assert(r[j] == acc[j]);
                    } else if j == acc.len() {
                        assert(r[i] == acc[i]);
                    } else {
                        assert(r[i] == acc[i] && r[j] == acc[j]);
                    }
                }
            }
        }
    }
}

/// The class log has at most one entry.
pub proof fn law_cahier_at_most_one(els: Seq<ElementView>, base: Seq<char>)
    ensures
        cahier_spec(els, base).len() <= 1,
    decreases els.len(),
{
    if els.len() > 0 && !is_cahier(els[0]) {
        law_cahier_at_most_one(els.drop_first(), base);
    }
}

/// The class log of the blocks `els` is the entry of the block at `i` when
/// no block before it is one.
proof fn lemma_cahier_first(els: Seq<ElementView>, base: Seq<char>, i: int)
    requires
        0 <= i < els.len(),
        forall|k: int| 0 <= k < i ==> !is_cahier(#[trigger] els[k]),
        is_cahier(els[i]),
    ensures
        cahier_spec(els, base) == seq![text_entry(els[i], base)],
    decreases i,
{
    if i > 0 {
        let rest = els.drop_first();
        assert forall|k: int| 0 <= k < i - 1 implies !is_cahier(#[trigger] rest[k]) by {
            assert(rest[k] == els[k + 1]);
        }
        assert(!is_cahier(els[0]));
        lemma_cahier_first(rest, base, i - 1);
    }
}

/// Without a class-log block, the class log is empty.
proof fn lemma_cahier_none(els: Seq<ElementView>, base: Seq<char>)
    requires
        forall|k: int| 0 <= k < els.len() ==> !is_cahier(#[trigger] els[k]),
    ensures
        cahier_spec(els, base) == Seq::<EntryView>::empty(),
    decreases els.len(),
{
    if els.len() > 0 {
        let rest = els.drop_first();
        assert forall|k: int| 0 <= k < rest.len() implies !is_cahier(#[trigger] rest[k]) by {
            assert(rest[k] == els[k + 1]);
        }
        assert(!is_cahier(els[0]));
        lemma_cahier_none(rest, base);
    }
}

/// A block is taken for the class log exactly when its text names one of
/// the six French week days from Monday to Saturday (Thursday included),
/// speaks of school work and is longer than 30 bytes.
pub proof fn law_class_log_block_test(e: ElementView)
    ensures
        is_cahier(e) <==> ({
            let t = join_spec(e.texts, " "@);
            (contains_spec(t, "Lundi"@) || contains_spec(t, "Mardi"@) || contains_spec(t, "Mercredi"@)
                || contains_spec(t, "Jeudi"@) || contains_spec(t, "Vendredi"@) || contains_spec(t, "Samedi"@))
                && (contains_spec(t, "Ch."@) || contains_spec(t, "Ex."@) || contains_spec(t, "Cor."@)
                || contains_spec(t, "Cours"@) || contains_spec(t, "Chercher"@))
                && encode_utf8(t).len() > 30
        }),
{
}

/// The class log of a page comes from the first of its candidate blocks
/// `els` whose text (its text nodes joined by spaces) names a French week
/// day from Monday to Saturday ("Lundi", "Mardi", "Mercredi", "Jeudi",
/// "Vendredi" or "Samedi"), speaks of school work ("Ch.", "Ex.", "Cor.",
/// "Cours" or "Chercher") and is longer than 30 bytes: the class log is
/// exactly that block's text with whitespace collapsed, with its links.
pub proof fn law_class_log_is_first_dated_block(html: Seq<char>, base: Seq<char>, els: Seq<ElementView>, i: int)
    requires
        els == or_empty(select_spec(html, CAHIER_SELECTOR@)),
        0 <= i < els.len(),
        forall|k: int| 0 <= k < i ==> !({
            let t = join_spec((#[trigger] els[k]).texts, " "@);
            (contains_spec(t, "Lundi"@) || contains_spec(t, "Mardi"@) || contains_spec(t, "Mercredi"@)
                || contains_spec(t, "Jeudi"@) || contains_spec(t, "Vendredi"@) || contains_spec(t, "Samedi"@))
                && (contains_spec(t, "Ch."@) || contains_spec(t, "Ex."@) || contains_spec(t, "Cor."@)
                || contains_spec(t, "Cours"@) || contains_spec(t, "Chercher"@))
                && encode_utf8(t).len() > 30
        }),
        ({
            let t = join_spec(els[i].texts, " "@);
            (contains_spec(t, "Lundi"@) || contains_spec(t, "Mardi"@) || contains_spec(t, "Mercredi"@)
                || contains_spec(t, "Jeudi"@) || contains_spec(t, "Vendredi"@) || contains_spec(t, "Samedi"@))
                && (contains_spec(t, "Ch."@) || contains_spec(t, "Ex."@) || contains_spec(t, "Cor."@)
                || contains_spec(t, "Cours"@) || contains_spec(t, "Chercher"@))
                && encode_utf8(t).len() > 30
        }),
    ensures
        parse_spec(html, base).cahier_entries == seq![
            EntryView {
                raw_text: collapse_whitespace_spec(join_spec(els[i].texts, " "@)),
                links: links_spec(els[i].anchors, base),
            },
        ],
{
    assert forall|k: int| 0 <= k < i implies !is_cahier(#[trigger] els[k]) by {}
    lemma_cahier_first(els, base, i);
}

/// A page none of whose candidate blocks `els` names a French week day from
/// Monday to Saturday, speaks of school work and is longer than 30 bytes
/// has an empty class log.
pub proof fn law_no_dated_block_no_class_log(html: Seq<char>, base: Seq<char>, els: Seq<ElementView>)
    requires
        els == or_empty(select_spec(html, CAHIER_SELECTOR@)),
        forall|k: int| 0 <= k < els.len() ==> !({
            let t = join_spec((#[trigger] els[k]).texts, " "@);
            (contains_spec(t, "Lundi"@) || contains_spec(t, "Mardi"@) || contains_spec(t, "Mercredi"@)
                || contains_spec(t, "Jeudi"@) || contains_spec(t, "Vendredi"@) || contains_spec(t, "Samedi"@))
                && (contains_spec(t, "Ch."@) || contains_spec(t, "Ex."@) || contains_spec(t, "Cor."@)
                || contains_spec(t, "Cours"@) || contains_spec(t, "Chercher"@))
                && encode_utf8(t).len() > 30
        }),
    ensures
        parse_spec(html, base).cahier_entries.len() == 0,
{
    assert forall|k: int| 0 <= k < els.len() implies !is_cahier(#[trigger] els[k]) by {}
    lemma_cahier_none(els, base);
}

/// An item kept by `f` is among the items that `s.filter_map(f)` gives.
proof fn lemma_filter_map_keeps<A, B>(s: Seq<A>, f: spec_fn(A) -> Option<B>, i: int)
    requires
        0 <= i < s.len(),
        f(s[i]) is Some,
    ensures
        s.filter_map(f).contains(f(s[i])->Some_0),
    decreases s.len(),
{
    let r = s.filter_map(f);
    if i == s.len() - 1 {
        assert(r.last() == f(s[i])->Some_0);
    } else {
        let rest = s.drop_last();
        assert(rest[i] == s[i]);
        lemma_filter_map_keeps(rest, f, i);
        let k = choose|k: int| 0 <= k < rest.filter_map(f).len() && rest.filter_map(f)[k] == f(s[i])->Some_0;
        assert(r[k] == rest.filter_map(f)[k]);
    }
}

/// The announced tests of a page are the entries of its candidate blocks
/// `els` whose text (text nodes joined by spaces) names a test ("Devoir",
/// "Interrogation", "Bac Blanc" or "BAC Jour"), carries a year (2025, 2026,
/// 2027, or "../../202" for a date to be filled in), is shorter than 2000
/// bytes and holds more than whitespace: each entry is such a block's text
/// with whitespace collapsed, with its links, and each such block gives one.
pub proof fn law_tests_are_the_dated_test_blocks(html: Seq<char>, base: Seq<char>, els: Seq<ElementView>)
    requires
        els == or_empty(select_spec(html, DEVOIR_SELECTOR@)),
    ensures
        forall|x: EntryView| #[trigger] parse_spec(html, base).devoir_entries.contains(x) <==> exists|i: int|
            0 <= i < els.len() && ({
                let t = join_spec((#[trigger] els[i]).texts, " "@);
                &&& (contains_spec(t, "Devoir"@) || contains_spec(t, "Interrogation"@) || contains_spec(t, "Bac Blanc"@)
                || contains_spec(t, "BAC Jour"@))
                && (contains_spec(t, "2025"@) || contains_spec(t, "2026"@) || contains_spec(t, "2027"@)
                || contains_spec(t, "../../202"@))
                && encode_utf8(t).len() < 2000
                && collapse_whitespace_spec(t).len() != 0
                &&& x == EntryView { raw_text: collapse_whitespace_spec(t), links: links_spec(els[i].anchors, base) }
            }),
{
    let f = |e: ElementView| devoir_of(e, base);
    assert forall|x: EntryView| #[trigger] parse_spec(html, base).devoir_entries.contains(x) <==> exists|i: int|
        0 <= i < els.len() && ({
            let t = join_spec((#[trigger] els[i]).texts, " "@);
            &&& (contains_spec(t, "Devoir"@) || contains_spec(t, "Interrogation"@) || contains_spec(t, "Bac Blanc"@)
                || contains_spec(t, "BAC Jour"@))
                && (contains_spec(t, "2025"@) || contains_spec(t, "2026"@) || contains_spec(t, "2027"@)
                || contains_spec(t, "../../202"@))
                && encode_utf8(t).len() < 2000
                && collapse_whitespace_spec(t).len() != 0
            &&& x == EntryView { raw_text: collapse_whitespace_spec(t), links: links_spec(els[i].anchors, base) }
        }) by {
        if els.filter_map(f).contains(x) {
            els.lemma_filter_map_contains(f, x);
            let e = choose|e: ElementView| #[trigger] els.contains(e) && f(e) == Some(x);
            let i = choose|i: int| 0 <= i < els.len() && els[i] == e;
            assert(f(els[i]) == Some(x));
        }
        if exists|i: int| 0 <= i < els.len() && ({
            let t = join_spec((#[trigger] els[i]).texts, " "@);
            &&& (contains_spec(t, "Devoir"@) || contains_spec(t, "Interrogation"@) || contains_spec(t, "Bac Blanc"@)
                || contains_spec(t, "BAC Jour"@))
                && (contains_spec(t, "2025"@) || contains_spec(t, "2026"@) || contains_spec(t, "2027"@)
                || contains_spec(t, "../../202"@))
                && encode_utf8(t).len() < 2000
                && collapse_whitespace_spec(t).len() != 0
            &&& x == EntryView { raw_text: collapse_whitespace_spec(t), links: links_spec(els[i].anchors, base) }
        }) {
            let i = choose|i: int| 0 <= i < els.len() && ({
                let t = join_spec((#[trigger] els[i]).texts, " "@);
                &&& (contains_spec(t, "Devoir"@) || contains_spec(t, "Interrogation"@) || contains_spec(t, "Bac Blanc"@)
                || contains_spec(t, "BAC Jour"@))
                && (contains_spec(t, "2025"@) || contains_spec(t, "2026"@) || contains_spec(t, "2027"@)
                || contains_spec(t, "../../202"@))
                && encode_utf8(t).len() < 2000
                && collapse_whitespace_spec(t).len() != 0
                &&& x == EntryView { raw_text: collapse_whitespace_spec(t), links: links_spec(els[i].anchors, base) }
            });
            assert(f(els[i]) == Some(x));
            lemma_filter_map_keeps(els, f, i);
        }
    }
}

/// The chapters of a page are its list items `els` whose trimmed text
/// speaks of a lesson ("cours", in any case) or a chapter ("Ch.") and that
/// hold links: each chapter is titled by such an item's trimmed text, with
/// its links, and each such item gives one.
pub proof fn law_chapters_are_the_linked_lesson_items(html: Seq<char>, base: Seq<char>, els: Seq<ElementView>)
    requires
        els == or_empty(select_spec(html, COURS_SELECTOR@)),
    ensures
        forall|c: CoursView| #[trigger] parse_spec(html, base).cours_entries.contains(c) <==> exists|i: int|
            0 <= i < els.len() && ({
                let t = trim_spec(join_spec((#[trigger] els[i]).texts, " "@));
                &&& (contains_spec(lowercase(t), "cours"@) || contains_spec(t, "Ch."@))
                && links_spec(els[i].anchors, base).len() != 0
                &&& c == CoursView { title: t, links: links_spec(els[i].anchors, base) }
            }),
{
    let f = |e: ElementView| cours_of(e, base);
    assert forall|c: CoursView| #[trigger] parse_spec(html, base).cours_entries.contains(c) <==> exists|i: int|
        0 <= i < els.len() && ({
            let t = trim_spec(join_spec((#[trigger] els[i]).texts, " "@));
            &&& (contains_spec(lowercase(t), "cours"@) || contains_spec(t, "Ch."@))
                && links_spec(els[i].anchors, base).len() != 0
            &&& c == CoursView { title: t, links: links_spec(els[i].anchors, base) }
        }) by {
        if els.filter_map(f).contains(c) {
            els.lemma_filter_map_contains(f, c);
            let e = choose|e: ElementView| #[trigger] els.contains(e) && f(e) == Some(c);
            let i = choose|i: int| 0 <= i < els.len() && els[i] == e;
            assert(f(els[i]) == Some(c));
        }
        if exists|i: int| 0 <= i < els.len() && ({
            let t = trim_spec(join_spec((#[trigger] els[i]).texts, " "@));
            &&& (contains_spec(lowercase(t), "cours"@) || contains_spec(t, "Ch."@))
                && links_spec(els[i].anchors, base).len() != 0
            &&& c == CoursView { title: t, links: links_spec(els[i].anchors, base) }
        }) {
            let i = choose|i: int| 0 <= i < els.len() && ({
                let t = trim_spec(join_spec((#[trigger] els[i]).texts, " "@));
                &&& (contains_spec(lowercase(t), "cours"@) || contains_spec(t, "Ch."@))
                && links_spec(els[i].anchors, base).len() != 0
                &&& c == CoursView { title: t, links: links_spec(els[i].anchors, base) }
            });
            assert(f(els[i]) == Some(c));
            lemma_filter_map_keeps(els, f, i);
        }
    }
}

/// What the document links of `els` hold: each link made from one of the
/// elements, and every such link.
proof fn lemma_attachments_members(els: Seq<ElementView>, base: Seq<char>)
    ensures
        forall|i: int| 0 <= i < els.len() && (#[trigger] attachment_of(els[i], base)) is Some
            ==> attachments_spec(els, base).contains(attachment_of(els[i], base)->Some_0),
        forall|l: LinkView| #[trigger] attachments_spec(els, base).contains(l) ==> exists|i: int|
            0 <= i < els.len() && #[trigger] attachment_of(els[i], base) == Some(l),
    decreases els.len(),
{
    if els.len() > 0 {
        let rest = els.drop_last();
        lemma_attachments_members(rest, base);
        let acc = attachments_spec(rest, base);
        let all = attachments_spec(els, base);
        assert forall|l: LinkView| acc.contains(l) implies all.contains(l) by {
            let k = choose|k: int| 0 <= k < acc.len() && acc[k] == l;
            if all != acc {
                assert(all[k] == acc[k]);
            }
        }
        assert forall|i: int| 0 <= i < els.len() && (#[trigger] attachment_of(els[i], base)) is Some
            implies all.contains(attachment_of(els[i], base)->Some_0) by {
            if i < els.len() - 1 {
                assert(rest[i] == els[i]);
                assert(acc.contains(attachment_of(rest[i], base)->Some_0));
            } else if !acc.contains(attachment_of(els[i], base)->Some_0) {
                assert(all.last() == attachment_of(els[i], base)->Some_0);
            }
        }
        assert forall|l: LinkView| #[trigger] all.contains(l) implies exists|i: int|
            0 <= i < els.len() && #[trigger] attachment_of(els[i], base) == Some(l) by {
            if acc.contains(l) {
                let i = choose|i: int| 0 <= i < rest.len() && #[trigger] attachment_of(rest[i], base) == Some(l);
                assert(rest[i] == els[i]);
            } else {
                let k = choose|k: int| 0 <= k < all.len() && all[k] == l;
                assert(attachment_of(els[els.len() - 1], base) == Some(l));
            }
        }
    }
}

/// The document links of a page come from its link elements `els` whose
/// address, lower-cased, ends with ".pdf", ".doc", ".docx", ".zip" or
/// ".py": each such element gives a document link at its address made
/// absolute, and every document link is at such an address.
pub proof fn law_documents_are_the_document_addresses(html: Seq<char>, base: Seq<char>, els: Seq<ElementView>)
    requires
        els == or_empty(select_spec(html, LINK_SELECTOR@)),
    ensures
        forall|i: int| 0 <= i < els.len() ==> match (#[trigger] els[i]).href {
            Some(h) => (ends_with_spec(lowercase(h), ".pdf"@) || ends_with_spec(lowercase(h), ".doc"@)
                    || ends_with_spec(lowercase(h), ".docx"@) || ends_with_spec(lowercase(h), ".zip"@)
                    || ends_with_spec(lowercase(h), ".py"@)) ==> exists|l: LinkView| #[trigger] parse_spec(html, base).all_attachments.contains(l)
                && l.url == resolve_spec(h, base),
            None => true,
        },
        forall|l: LinkView| #[trigger] parse_spec(html, base).all_attachments.contains(l) ==> exists|i: int|
            0 <= i < els.len() && ((#[trigger] els[i]).href matches Some(h) && (ends_with_spec(lowercase(h), ".pdf"@) || ends_with_spec(lowercase(h), ".doc"@)
                    || ends_with_spec(lowercase(h), ".docx"@) || ends_with_spec(lowercase(h), ".zip"@)
                    || ends_with_spec(lowercase(h), ".py"@)) && l.url == resolve_spec(
                h,
                base,
            )),
{
    lemma_attachments_members(els, base);
    assert forall|i: int| 0 <= i < els.len() implies match (#[trigger] els[i]).href {
        Some(h) => (ends_with_spec(lowercase(h), ".pdf"@) || ends_with_spec(lowercase(h), ".doc"@)
                    || ends_with_spec(lowercase(h), ".docx"@) || ends_with_spec(lowercase(h), ".zip"@)
                    || ends_with_spec(lowercase(h), ".py"@)) ==> exists|l: LinkView| #[trigger] parse_spec(html, base).all_attachments.contains(l)
            && l.url == resolve_spec(h, base),
        None => true,
    } by {
        if let Some(h) = els[i].href {
            if attachment_of(els[i], base) is Some {
                let l = attachment_of(els[i], base)->Some_0;
                assert(l.url == resolve_spec(h, base));
                assert(parse_spec(html, base).all_attachments.contains(l));
            }
        }
    }
    assert forall|l: LinkView| #[trigger] parse_spec(html, base).all_attachments.contains(l) implies exists|i: int|
        0 <= i < els.len() && ((#[trigger] els[i]).href matches Some(h) && (ends_with_spec(lowercase(h), ".pdf"@) || ends_with_spec(lowercase(h), ".doc"@)
                    || ends_with_spec(lowercase(h), ".docx"@) || ends_with_spec(lowercase(h), ".zip"@)
                    || ends_with_spec(lowercase(h), ".py"@)) && l.url == resolve_spec(h, base)) by {
        let i = choose|i: int| 0 <= i < els.len() && #[trigger] attachment_of(els[i], base) == Some(l);
        assert(els[i].href is Some);
    }
}

/// The page title is the trimmed text of the first heading when it has
/// any; else that of the document title when it has any; else "Maths".
pub proof fn law_title_prefers_heading(html: Seq<char>, base: Seq<char>)
    ensures
        ({
            let h1 = or_empty(select_spec(html, H1_SELECTOR@));
            let title = or_empty(select_spec(html, TITLE_SELECTOR@));
            let from_h1 = if h1.len() > 0 { trim_spec(join_spec(h1[0].texts, " "@)) } else { seq![] };
            let from_title = if title.len() > 0 {
                trim_spec(join_spec(title[0].texts, " "@))
            } else {
                seq![]
            };
            parse_spec(html, base).page_title == if from_h1.len() != 0 {
                from_h1
            } else if from_title.len() != 0 {
                from_title
            } else {
                "Maths"@
            }
        }),
{
}

/// A link address that, trimmed, starts with "http://" or "https://" is
/// kept as it is, trimmed; any other is resolved against the page address
/// where that succeeds.
pub proof fn law_absolute_links_kept(href: Seq<char>, base: Seq<char>)
    ensures
        starts_with_spec(trim_spec(href), "http://"@) || starts_with_spec(trim_spec(href), "https://"@)
            ==> resolve_spec(href, base) == trim_spec(href),
        !(starts_with_spec(trim_spec(href), "http://"@) || starts_with_spec(trim_spec(href), "https://"@))
            && url_join(base, trim_spec(href)) is Some ==> resolve_spec(href, base) == url_join(
            base,
            trim_spec(href),
        )->Some_0,
{
}

/// A page always has a title.
pub proof fn law_title_not_empty(h1: Option<Seq<ElementView>>, title: Option<Seq<ElementView>>)
    ensures
        title_spec(h1, title).len() != 0,
{
    reveal_strlit("Maths");
}

fn hex_digit(n: u8) -> (c: char)
    requires
        n < 16,
    ensures
        c == hex_digit_spec(n),
{
    if n == 0 {
        '0'
    } else if n == 1 {
        '1'
    } else if n == 2 {
        '2'
    } else if n == 3 {
        '3'
    } else if n == 4 {
        '4'
    } else if n == 5 {
        '5'
    } else if n == 6 {
        '6'
    } else if n == 7 {
        '7'
    } else if n == 8 {
        '8'
    } else if n == 9 {
        '9'
    } else if n == 10 {
        'a'
    } else if n == 11 {
        'b'
    } else if n == 12 {
        'c'
    } else if n == 13 {
        'd'
    } else if n == 14 {
        'e'
    } else {
        'f'
    }
}

/// The lower-case hexadecimal writing of `bytes` (`format!("{:x}", ..)` of
/// a digest).
pub fn hex_lower(bytes: &Vec<u8>) -> (r: String)
    ensures
        r@ == hex_spec(bytes@),
{
    let mut digits: Vec<char> = Vec::new();
    let mut i: usize = 0;
    while i < bytes.len()
        invariant
            i <= bytes@.len(),
            digits@ == hex_spec(bytes@.take(i as int)),
        decreases bytes@.len() - i,
    {
        let b = bytes[i];
        digits.push(hex_digit(b / 16));
        digits.push(hex_digit(b % 16));
        assert(bytes@.take(i + 1).drop_last() =~= bytes@.take(i as int));
        assert(digits@ =~= hex_spec(bytes@.take(i + 1)));
        i = i + 1;
    }
    assert(bytes@.take(i as int) =~= bytes@);
    crate::text::string_of(&digits, 0, digits.len())
}

/// Extracts the model of a course page from its HTML.
pub struct HtmlExtractor;

/// Whether `links` already holds a link equal to `l`.
fn contains_link(links: &Vec<AttachmentLink>, l: &AttachmentLink) -> (r: bool)
    ensures
        r == links.deep_view().contains(l@),
{
    let mut i: usize = 0;
    while i < links.len()
        invariant
            i <= links@.len(),
            forall|k: int| 0 <= k < i ==> (#[trigger] links@[k])@ != l@,
        decreases links@.len() - i,
    {
        if links[i].text == l.text && links[i].url == l.url {
            assert(links.deep_view()[i as int] == l@);
            return true;
        }
        i = i + 1;
    }
    assert(!links.deep_view().contains(l@)) by {
        if links.deep_view().contains(l@) {
            let k = choose|k: int| 0 <= k < links.deep_view().len() && links.deep_view()[k] == l@;
            assert(links@[k]@ == l@);
        }
    }
    false
}

/// The element's text nodes joined by spaces.
fn text_of(texts: &Vec<String>) -> (r: String)
    ensures
        r@ == join_spec(texts.deep_view(), " "@),
{
    join(texts, " ")
}

impl HtmlExtractor {
    /// `raw_href` made absolute: trimmed; kept when it starts with
    /// `http://` or `https://`; else resolved against `base`, or kept
    /// trimmed when that fails.
    pub fn resolve_url(raw_href: &str, base: &str) -> (r: String)
        ensures
            r@ == resolve_spec(raw_href@, base@),
    {
        let trimmed = trim(raw_href);
        let chars = chars_of(trimmed.as_str());
        if starts_with_str(&chars, "http://") || starts_with_str(&chars, "https://") {
            return trimmed;
        }
        match join_url(base, trimmed.as_str()) {
            Some(joined) => joined,
            None => trimmed,
        }
    }

    fn link_of(a: &DomAnchor, base: &str) -> (r: Option<AttachmentLink>)
        ensures
            r.deep_view() == anchor_link(a@, base@),
    {
        match &a.href {
            Some(href) => {
                let label = trim(text_of(&a.texts).as_str());
                let full_url = Self::resolve_url(href.as_str(), base);
                let text = if label.as_str().is_empty() {
                    full_url.clone()
                } else {
                    label
                };
                Some(AttachmentLink { text, url: full_url })
            },
            None => None,
        }
    }

    /// The links of the link elements of a block, in order, addresses made
    /// absolute against `base`.
    pub fn extract_links(anchors: &Vec<DomAnchor>, base: &str) -> (r: Vec<AttachmentLink>)
        ensures
            r.deep_view() == links_spec(anchors.deep_view(), base@),
    {
        let ghost f = |a: AnchorView| anchor_link(a, base@);
        let ghost all = anchors.deep_view();
        let mut r: Vec<AttachmentLink> = Vec::new();
        let mut i: usize = 0;
        while i < anchors.len()
            invariant
                i <= anchors@.len(),
                all == anchors.deep_view(),
                f == (|a: AnchorView| anchor_link(a, base@)),
                r.deep_view() == all.take(i as int).filter_map(f),
            decreases anchors@.len() - i,
        {
            proof {
                all.lemma_filter_map_take_succ(f, i as int);
            }
            let found = Self::link_of(&anchors[i], base);
            if let Some(link) = found {
                let ghost before = r.deep_view();
                r.push(link);
                assert(r.deep_view() =~= before + seq![link@]);
            }
            i = i + 1;
        }
        assert(all.take(i as int) =~= all);
        r
    }

    /// The page title: the trimmed text of the first heading, else that of
    /// the document title, else "Maths".
    pub fn extract_title(h1: &Option<Vec<DomElement>>, title: &Option<Vec<DomElement>>) -> (r: String)
        ensures
            r@ == title_spec(h1.deep_view(), title.deep_view()),
    {
        if let Some(els) = h1 {
            if els.len() > 0 {
                let text = trim(text_of(&els[0].texts).as_str());
                if !text.as_str().is_empty() {
                    return text;
                }
            }
        }
        if let Some(els) = title {
            if els.len() > 0 {
                let text = trim(text_of(&els[0].texts).as_str());
                if !text.as_str().is_empty() {
                    return text;
                }
            }
        }
        owned(DEFAULT_TITLE)
    }

    fn attachment_of(e: &DomElement, base: &str) -> (r: Option<AttachmentLink>)
        ensures
            r.deep_view() == attachment_of(e@, base@),
    {
        match &e.href {
            Some(href) => {
                let lower = chars_of(to_lowercase(href.as_str()).as_str());
                if ends_with_str(&lower, ".pdf") || ends_with_str(&lower, ".doc") || ends_with_str(
                    &lower,
                    ".docx",
                ) || ends_with_str(&lower, ".zip") || ends_with_str(&lower, ".py") {
                    let text = trim(text_of(&e.texts).as_str());
                    let full_url = Self::resolve_url(href.as_str(), base);
                    let label = if text.as_str().is_empty() {
                        last_piece(&chars_of(full_url.as_str()), '/')
                    } else {
                        text
                    };
                    Some(AttachmentLink { text: label, url: full_url })
                } else {
                    None
                }
            },
            None => None,
        }
    }

    /// The document links (PDF, Word, ZIP, Python files) among the link
    /// elements `els`, in order of first occurrence, each once: labelled by
    /// their text or, without text, by the last segment of their address.
    pub fn extract_all_attachments(els: &Vec<DomElement>, base: &str) -> (r: Vec<AttachmentLink>)
        ensures
            r.deep_view() == attachments_spec(els.deep_view(), base@),
    {
        let ghost all = els.deep_view();
        let mut r: Vec<AttachmentLink> = Vec::new();
        let mut i: usize = 0;
        while i < els.len()
            invariant
                i <= els@.len(),
                all == els.deep_view(),
                r.deep_view() == attachments_spec(all.take(i as int), base@),
            decreases els@.len() - i,
        {
            proof {
                assert(all.take(i + 1).drop_last() =~= all.take(i as int));
                assert(all.take(i + 1).last() == els@[i as int]@);
            }
            let found = Self::attachment_of(&els[i], base);
            if let Some(link) = found {
                if !contains_link(&r, &link) {
                    let ghost before = r.deep_view();
                    r.push(link);
                    assert(r.deep_view() =~= before.push(link@));
                }
            }
            i = i + 1;
        }
        assert(all.take(i as int) =~= all);
        r
    }

    /// Whether a block is the class log; returns its text too.
    fn cahier_test(e: &DomElement) -> (r: (bool, String))
        ensures
            r.0 == is_cahier(e@),
            r.1@ == element_text(e@),
    {
        let text = text_of(&e.texts);
        let chars = chars_of(text.as_str());
        let has_day = contains_str(&chars, "Lundi") || contains_str(&chars, "Mardi")
            || contains_str(&chars, "Mercredi") || contains_str(&chars, "Jeudi") || contains_str(
            &chars,
            "Vendredi",
        ) || contains_str(&chars, "Samedi");
        let has_school_context = contains_str(&chars, "Ch.") || contains_str(&chars, "Ex.")
            || contains_str(&chars, "Cor.") || contains_str(&chars, "Cours") || contains_str(
            &chars,
            "Chercher",
        );
        let long_enough = text.as_str().as_bytes().len() > 30;
        (has_day && has_school_context && long_enough, text)
    }

    /// The class log: the entry of the first block that names a week day,
    /// speaks of school work and is longer than 30 bytes (at most one
    /// entry), its text with whitespace collapsed.
    pub fn extract_cahier_entries(els: &Vec<DomElement>, base: &str) -> (r: Vec<CahierEntry>)
        ensures
            r.deep_view() == cahier_spec(els.deep_view(), base@),
    {
        let ghost all = els.deep_view();
        let mut i: usize = 0;
        assert(all.skip(0) =~= all);
        while i < els.len()
            invariant
                i <= els@.len(),
                all == els.deep_view(),
                cahier_spec(all, base@) == cahier_spec(all.skip(i as int), base@),
            decreases els@.len() - i,
        {
            let ghost rest = all.skip(i as int);
            assert(rest[0] == els@[i as int]@);
            let (is_log, text) = Self::cahier_test(&els[i]);
            if is_log {
                let links = Self::extract_links(&els[i].anchors, base);
                let cleaned = collapse_whitespace(&chars_of(text.as_str()));
                let mut r: Vec<CahierEntry> = Vec::new();
                let entry = CahierEntry { raw_text: cleaned, links };
                r.push(entry);
                assert(r.deep_view() =~= seq![text_entry(els@[i as int]@, base@)]);
                return r;
            }
            assert(rest.drop_first() =~= all.skip(i + 1));
            i = i + 1;
        }
        assert(all.skip(i as int) =~= Seq::<ElementView>::empty());
        let r: Vec<CahierEntry> = Vec::new();
        assert(r.deep_view() =~= Seq::<EntryView>::empty());
        r
    }

    fn devoir_of(e: &DomElement, base: &str) -> (r: Option<DevoirEntry>)
        ensures
            r.deep_view() == devoir_of(e@, base@),
    {
        let text = text_of(&e.texts);
        let chars = chars_of(text.as_str());
        let has_keyword = contains_str(&chars, "Devoir") || contains_str(&chars, "Interrogation")
            || contains_str(&chars, "Bac Blanc") || contains_str(&chars, "BAC Jour");
        let has_date = contains_str(&chars, "2025") || contains_str(&chars, "2026") || contains_str(
            &chars,
            "2027",
        ) || contains_str(&chars, "../../202");
        if has_keyword && has_date && text.as_str().as_bytes().len() < 2000 {
            let links = Self::extract_links(&e.anchors, base);
            let cleaned = collapse_whitespace(&chars);
            if !cleaned.as_str().is_empty() {
                return Some(DevoirEntry { raw_text: cleaned, links });
            }
        }
        None
    }

    /// The announced tests: one entry per block that names a test, carries
    /// a year and is shorter than 2000 bytes, in order, its text with
    /// whitespace collapsed (blocks without text are left out).
    pub fn extract_devoir_entries(els: &Vec<DomElement>, base: &str) -> (r: Vec<DevoirEntry>)
        ensures
            r.deep_view() == devoir_spec(els.deep_view(), base@),
    {
        let ghost f = |e: ElementView| devoir_of(e, base@);
        let ghost all = els.deep_view();
        let mut r: Vec<DevoirEntry> = Vec::new();
        let mut i: usize = 0;
        while i < els.len()
            invariant
                i <= els@.len(),
                all == els.deep_view(),
                f == (|e: ElementView| devoir_of(e, base@)),
                r.deep_view() == all.take(i as int).filter_map(f),
            decreases els@.len() - i,
        {
            proof {
                all.lemma_filter_map_take_succ(f, i as int);
            }
            let found = Self::devoir_of(&els[i], base);
            if let Some(entry) = found {
                let ghost before = r.deep_view();
                r.push(entry);
                assert(r.deep_view() =~= before + seq![entry@]);
            }
            i = i + 1;
        }
        assert(all.take(i as int) =~= all);
        r
    }

    fn cours_of(e: &DomElement, base: &str) -> (r: Option<CoursEntry>)
        ensures
            r.deep_view() == cours_of(e@, base@),
    {
        let text = trim(text_of(&e.texts).as_str());
        let lower = chars_of(to_lowercase(text.as_str()).as_str());
        if contains_str(&lower, "cours") || contains_str(&chars_of(text.as_str()), "Ch.") {
            let links = Self::extract_links(&e.anchors, base);
            if links.len() != 0 {
                return Some(CoursEntry { title: text, links });
            }
        }
        None
    }

    /// The chapters: one entry per list item whose text speaks of a lesson
    /// ("cours", any case) or a chapter ("Ch.") and that holds links, in
    /// order.
    pub fn extract_cours_entries(els: &Vec<DomElement>, base: &str) -> (r: Vec<CoursEntry>)
        ensures
            r.deep_view() == cours_spec(els.deep_view(), base@),
    {
        let ghost f = |e: ElementView| cours_of(e, base@);
        let ghost all = els.deep_view();
        let mut r: Vec<CoursEntry> = Vec::new();
        let mut i: usize = 0;
        while i < els.len()
            invariant
                i <= els@.len(),
                all == els.deep_view(),
                f == (|e: ElementView| cours_of(e, base@)),
                r.deep_view() == all.take(i as int).filter_map(f),
            decreases els@.len() - i,
        {
            proof {
                all.lemma_filter_map_take_succ(f, i as int);
            }
            let found = Self::cours_of(&els[i], base);
            if let Some(entry) = found {
                let ghost before = r.deep_view();
                r.push(entry);
                assert(r.deep_view() =~= before + seq![entry@]);
            }
            i = i + 1;
        }
        assert(all.take(i as int) =~= all);
        r
    }

    fn select(html: &str, selector: &str) -> (r: Vec<DomElement>)
        ensures
            r.deep_view() == or_empty(select_spec(html@, selector@)),
    {
        match select_elements(html, selector, LINK_SELECTOR, HREF) {
            Some(els) => els,
            None => {
                let r: Vec<DomElement> = Vec::new();
                assert(r.deep_view() =~= Seq::<ElementView>::empty());
                r
            },
        }
    }

    /// The model of the page `html_content` fetched from `base_url_str`:
    /// its title, class log, announced tests, chapters and document links
    /// (addresses made absolute against `base_url_str`), and the lower-case
    /// hexadecimal SHA-256 digest of its UTF-8 bytes.
    pub fn parse(html_content: &str, base_url_str: &str) -> (r: ParsedPage)
        ensures
            r@ == parse_spec(html_content@, base_url_str@),
            r@.full_content_hash.len() == 64,
    {
        let h1 = select_elements(html_content, H1_SELECTOR, LINK_SELECTOR, HREF);
        let title = select_elements(html_content, TITLE_SELECTOR, LINK_SELECTOR, HREF);
        let page_title = Self::extract_title(&h1, &title);
        let all_attachments = Self::extract_all_attachments(
            &Self::select(html_content, LINK_SELECTOR),
            base_url_str,
        );
        let cahier_entries = Self::extract_cahier_entries(
            &Self::select(html_content, CAHIER_SELECTOR),
            base_url_str,
        );
        let devoir_entries = Self::extract_devoir_entries(
            &Self::select(html_content, DEVOIR_SELECTOR),
            base_url_str,
        );
        let cours_entries = Self::extract_cours_entries(
            &Self::select(html_content, COURS_SELECTOR),
            base_url_str,
        );
        let digest = sha256_digest(html_content.as_bytes());
        let full_content_hash = hex_lower(&digest);
        proof {
            lemma_hex_len(digest@);
        }
        ParsedPage {
            source_url: owned(base_url_str),
            page_title,
            cahier_entries,
            devoir_entries,
            cours_entries,
            all_attachments,
            full_content_hash,
        }
    }
}

} // verus!
