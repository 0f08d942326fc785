//! What the watcher extracts from one course page.
use vstd::prelude::*;

use crate::text::{join, join_spec};

verus! {

/// A link found on the page: its label and its absolute address.
#[derive(Debug, Clone, PartialEq, Eq)]
pub struct AttachmentLink {
    pub text: String,
    pub url: String,
}

/// The value of an [`AttachmentLink`].
pub struct LinkView {
    pub text: Seq<char>,
    pub url: Seq<char>,
}

impl View for AttachmentLink {
    type V = LinkView;

    open spec fn view(&self) -> LinkView {
        LinkView { text: self.text@, url: self.url@ }
    }
}

impl DeepView for AttachmentLink {
    type V = LinkView;

    open spec fn deep_view(&self) -> LinkView {
        self@
    }
}

/// An entry of the class log ("cahier de texte").
#[derive(Debug, Clone, PartialEq, Eq)]
pub struct CahierEntry {
    pub raw_text: String,
    pub links: Vec<AttachmentLink>,
}

/// An announced test or homework ("devoir").
#[derive(Debug, Clone, PartialEq, Eq)]
pub struct DevoirEntry {
    pub raw_text: String,
    pub links: Vec<AttachmentLink>,
}

/// The value of a [`CahierEntry`] or a [`DevoirEntry`].
pub struct EntryView {
    pub raw_text: Seq<char>,
    pub links: Seq<LinkView>,
}

impl View for CahierEntry {
    type V = EntryView;

    open spec fn view(&self) -> EntryView {
        EntryView { raw_text: self.raw_text@, links: self.links.deep_view() }
    }
}

impl DeepView for CahierEntry {
    type V = EntryView;

    open spec fn deep_view(&self) -> EntryView {
        self@
    }
}

impl View for DevoirEntry {
    type V = EntryView;

    open spec fn view(&self) -> EntryView {
        EntryView { raw_text: self.raw_text@, links: self.links.deep_view() }
    }
}

impl DeepView for DevoirEntry {
    type V = EntryView;

    open spec fn deep_view(&self) -> EntryView {
        self@
    }
}

/// A chapter of the course with its documents.
#[derive(Debug, Clone, PartialEq, Eq)]
pub struct CoursEntry {
    pub title: String,
    pub links: Vec<AttachmentLink>,
}

/// The value of a [`CoursEntry`].
pub struct CoursView {
    pub title: Seq<char>,
    pub links: Seq<LinkView>,
}

impl View for CoursEntry {
    type V = CoursView;

    open spec fn view(&self) -> CoursView {
        CoursView { title: self.title@, links: self.links.deep_view() }
    }
}

impl DeepView for CoursEntry {
    type V = CoursView;

    open spec fn deep_view(&self) -> CoursView {
        self@
    }
}

/// Everything extracted from one fetch of a page.
#[derive(Debug, Clone, PartialEq, Eq)]
pub struct ParsedPage {
    pub source_url: String,
    pub page_title: String,
    pub cahier_entries: Vec<CahierEntry>,
    pub devoir_entries: Vec<DevoirEntry>,
    pub cours_entries: Vec<CoursEntry>,
    pub all_attachments: Vec<AttachmentLink>,
    pub full_content_hash: String,
}

/// The value of a [`ParsedPage`].
pub struct ParsedPageView {
    pub source_url: Seq<char>,
    pub page_title: Seq<char>,
    pub cahier_entries: Seq<EntryView>,
    pub devoir_entries: Seq<EntryView>,
    pub cours_entries: Seq<CoursView>,
    pub all_attachments: Seq<LinkView>,
    pub full_content_hash: Seq<char>,
}

impl View for ParsedPage {
    type V = ParsedPageView;

    open spec fn view(&self) -> ParsedPageView {
        ParsedPageView {
            source_url: self.source_url@,
            page_title: self.page_title@,
            cahier_entries: self.cahier_entries.deep_view(),
            devoir_entries: self.devoir_entries.deep_view(),
            cours_entries: self.cours_entries.deep_view(),
            all_attachments: self.all_attachments.deep_view(),
            full_content_hash: self.full_content_hash@,
        }
    }
}

impl AttachmentLink {
    /// A copy of this link.
    pub fn duplicate(&self) -> (r: AttachmentLink)
        ensures
            r@ == self@,
    {
        AttachmentLink { text: self.text.clone(), url: self.url.clone() }
    }
}

impl CoursEntry {
    /// A copy of this entry.
    pub fn duplicate(&self) -> (r: CoursEntry)
        ensures
            r@ == self@,
    {
        CoursEntry { title: self.title.clone(), links: duplicate_links(&self.links) }
    }
}

/// The raw texts of `entries`, one per line.
pub open spec fn entries_text(entries: Seq<EntryView>) -> Seq<char> {
    join_spec(entries.map_values(|e: EntryView| e.raw_text), "\n"@)
}

impl ParsedPage {
    /// The raw texts of the class-log entries, one per line.
    pub fn cahier_text(&self) -> (r: String)
        ensures
            r@ == entries_text(self@.cahier_entries),
    {
        let mut texts: Vec<String> = Vec::new();
        let mut i: usize = 0;
        let ghost es = self@.cahier_entries;
        while i < self.cahier_entries.len()
            invariant
                i <= self.cahier_entries@.len(),
                es == self@.cahier_entries,
                texts.deep_view() == es.take(i as int).map_values(|e: EntryView| e.raw_text),
            decreases self.cahier_entries@.len() - i,
        {
            let ghost before = texts.deep_view();
            texts.push(self.cahier_entries[i].raw_text.clone());
            assert(texts.deep_view() =~= es.take(i + 1).map_values(|e: EntryView| e.raw_text)) by {
                assert(texts.deep_view() =~= before.push(es[i as int].raw_text));
            }
            i = i + 1;
        }
        assert(es.take(i as int) =~= es);
        join(&texts, "\n")
    }

    /// The raw texts of the announced tests, one per line.
    pub fn devoir_text(&self) -> (r: String)
        ensures
            r@ == entries_text(self@.devoir_entries),
    {
        let mut texts: Vec<String> = Vec::new();
        let mut i: usize = 0;
        let ghost es = self@.devoir_entries;
        while i < self.devoir_entries.len()
            invariant
                i <= self.devoir_entries@.len(),
                es == self@.devoir_entries,
                texts.deep_view() == es.take(i as int).map_values(|e: EntryView| e.raw_text),
            decreases self.devoir_entries@.len() - i,
        {
            let ghost before = texts.deep_view();
            texts.push(self.devoir_entries[i].raw_text.clone());
            assert(texts.deep_view() =~= es.take(i + 1).map_values(|e: EntryView| e.raw_text)) by {
                assert(texts.deep_view() =~= before.push(es[i as int].raw_text));
            }
            i = i + 1;
        }
        assert(es.take(i as int) =~= es);
        join(&texts, "\n")
    }
}

/// A copy of a list of links.
pub fn duplicate_links(v: &Vec<AttachmentLink>) -> (r: Vec<AttachmentLink>)
    ensures
        r.deep_view() == v.deep_view(),
{
    let mut r: Vec<AttachmentLink> = Vec::new();
    let mut i: usize = 0;
    while i < v.len()
        invariant
            i <= v@.len(),
            r.deep_view() == v.deep_view().take(i as int),
        decreases v@.len() - i,
    {
        let ghost before = r.deep_view();
        r.push(v[i].duplicate());
        assert(r.deep_view() =~= v.deep_view().take(i + 1)) by {
            assert(r.deep_view() =~= before.push(v@[i as int]@));
        }
        i = i + 1;
    }
    assert(v.deep_view().take(i as int) =~= v.deep_view());
    r
}

/// A copy of a list of strings.
pub fn duplicate_strings(v: &Vec<String>) -> (r: Vec<String>)
    ensures
        r.deep_view() == v.deep_view(),
{
    let mut r: Vec<String> = Vec::new();
    let mut i: usize = 0;
    while i < v.len()
        invariant
            i <= v@.len(),
            r.deep_view() == v.deep_view().take(i as int),
        decreases v@.len() - i,
    {
        let ghost before = r.deep_view();
        r.push(v[i].clone());
        assert(r.deep_view() =~= v.deep_view().take(i + 1)) by {
            assert(r.deep_view() =~= before.push(v@[i as int]@));
        }
        i = i + 1;
    }
    assert(v.deep_view().take(i as int) =~= v.deep_view());
    r
}

/// Whether the text `s` is one of the strings of `v`.
pub fn contains_string(v: &Vec<String>, s: &String) -> (r: bool)
    ensures
        r == v.deep_view().contains(s@),
{
    let mut i: usize = 0;
    while i < v.len()
        invariant
            i <= v@.len(),
            forall|k: int| 0 <= k < i ==> (#[trigger] v@[k])@ != s@,
        decreases v@.len() - i,
    {
        if v[i] == *s {
            assert(v.deep_view()[i as int] == s@);
            return true;
        }
        i = i + 1;
    }
    assert(!v.deep_view().contains(s@)) by {
        if v.deep_view().contains(s@) {
            let k = choose|k: int| 0 <= k < v.deep_view().len() && v.deep_view()[k] == s@;
            assert(v@[k]@ == s@);
        }
    }
    false
}

} // verus!
