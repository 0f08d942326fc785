//! The comparison of a freshly parsed page with its recorded state.
use vstd::prelude::*;

use crate::parser::model::{
    contains_string, entries_text, AttachmentLink, CoursEntry, CoursView, EntryView, LinkView,
    ParsedPage, ParsedPageView,
};
use crate::storage::state::{PageState, PageStateView};
use crate::text::join_spec;

verus! {

/// What changed on a page.
#[derive(Debug, Clone, PartialEq, Eq)]
pub struct DiffResult {
    pub has_changes: bool,
    pub is_first_run: bool,
    pub new_attachments: Vec<AttachmentLink>,
    pub previous_cahier_text: Option<String>,
    pub current_cahier_text: Option<String>,
    pub previous_devoir_text: Option<String>,
    pub current_devoir_text: Option<String>,
    pub new_cours: Vec<CoursEntry>,
}

/// The value of a [`DiffResult`].
pub struct DiffView {
    pub has_changes: bool,
    pub is_first_run: bool,
    pub new_attachments: Seq<LinkView>,
    pub previous_cahier_text: Option<Seq<char>>,
    pub current_cahier_text: Option<Seq<char>>,
    pub previous_devoir_text: Option<Seq<char>>,
    pub current_devoir_text: Option<Seq<char>>,
    pub new_cours: Seq<CoursView>,
}

impl View for DiffResult {
    type V = DiffView;

    open spec fn view(&self) -> DiffView {
        DiffView {
            has_changes: self.has_changes,
            is_first_run: self.is_first_run,
            new_attachments: self.new_attachments.deep_view(),
            previous_cahier_text: self.previous_cahier_text.deep_view(),
            current_cahier_text: self.current_cahier_text.deep_view(),
            previous_devoir_text: self.previous_devoir_text.deep_view(),
            current_devoir_text: self.current_devoir_text.deep_view(),
            new_cours: self.new_cours.deep_view(),
        }
    }
}

/// A result that reports nothing new.
pub open spec fn quiet_diff(is_first_run: bool) -> DiffView {
    DiffView {
        has_changes: false,
        is_first_run,
        new_attachments: seq![],
        previous_cahier_text: None,
        current_cahier_text: None,
        previous_devoir_text: None,
        current_devoir_text: None,
        new_cours: seq![],
    }
}

/// The attachments of the page whose address the record does not know.
pub open spec fn unknown_attachments(prev: PageStateView, current: ParsedPageView) -> Seq<LinkView> {
    current.all_attachments.filter(|l: LinkView| !prev.known_attachments.contains(l.url))
}

/// The chapters of the page whose title the record does not know.
pub open spec fn unknown_cours(prev: PageStateView, current: ParsedPageView) -> Seq<CoursView> {
    current.cours_entries.filter(|c: CoursView| !prev.known_cours_titles.contains(c.title))
}

/// The (previous, current) pair of a text when it changed, else `(None, None)`.
pub open spec fn changed_text(previous: Seq<char>, current: Seq<char>) -> (
    Option<Seq<char>>,
    Option<Seq<char>>,
) {
    if current != previous {
        (Some(previous), Some(current))
    } else {
        (None, None)
    }
}

/// What `DiffEngine::compute` reports for a page and its previous record.
pub open spec fn diff_spec(previous: Option<PageStateView>, current: ParsedPageView) -> DiffView {
    match previous {
        None => quiet_diff(true),
        Some(prev) => {
            if prev.last_hash == current.full_content_hash {
                quiet_diff(false)
            } else {
                let new_attachments = unknown_attachments(prev, current);
                let cahier = changed_text(
                    prev.last_cahier_text,
                    entries_text(current.cahier_entries),
                );
                let devoir = changed_text(
                    prev.last_devoir_text,
                    entries_text(current.devoir_entries),
                );
                let new_cours = unknown_cours(prev, current);
                DiffView {
                    has_changes: new_attachments.len() != 0 || cahier.1 is Some || devoir.1 is Some
                        || new_cours.len() != 0,
                    is_first_run: false,
                    new_attachments,
                    previous_cahier_text: cahier.0,
                    current_cahier_text: cahier.1,
                    previous_devoir_text: devoir.0,
                    current_devoir_text: devoir.1,
                    new_cours,
                }
            }
        },
    }
}

/// The value of an optional record.
pub open spec fn opt_page_view(previous: Option<&PageState>) -> Option<PageStateView> {
    match previous {
        Some(p) => Some(p@),
        None => None,
    }
}

/// A page without a record is a first visit, and a first visit reports no
/// change; a page with a record is never a first visit.
pub proof fn law_first_run_iff_no_record(previous: Option<PageStateView>, current: ParsedPageView)
    ensures
        diff_spec(previous, current).is_first_run <==> previous is None,
        previous is None ==> !diff_spec(previous, current).has_changes,
{
}

/// When the content digest is the recorded one, nothing is reported (so no
/// analysis is asked for).
pub proof fn law_same_digest_reports_nothing(prev: PageStateView, current: ParsedPageView)
    requires
        prev.last_hash == current.full_content_hash,
    ensures
        diff_spec(Some(prev), current) == quiet_diff(false),
{
}

/// A change is reported exactly when one of its parts is: a new attachment,
/// a changed class log, a changed test text, or a new chapter.
pub proof fn law_change_flag(previous: Option<PageStateView>, current: ParsedPageView)
    ensures
        ({
            let d = diff_spec(previous, current);
            d.has_changes <==> (d.new_attachments.len() != 0 || d.current_cahier_text is Some
                || d.current_devoir_text is Some || d.new_cours.len() != 0)
        }),
{
}

/// Every reported attachment is one of the page's, at an address that the
/// record does not know; every attachment of the page at an unknown address
/// is reported (when the digest changed).
pub proof fn law_new_attachments_are_the_unknown_ones(prev: PageStateView, current: ParsedPageView)
    requires
        prev.last_hash != current.full_content_hash,
    ensures
        forall|l: LinkView| #[trigger]
            diff_spec(Some(prev), current).new_attachments.contains(l) <==> (
            current.all_attachments.contains(l) && !prev.known_attachments.contains(l.url)),
{
    let pred = |l: LinkView| !prev.known_attachments.contains(l.url);
    let s = current.all_attachments;
    assert forall|l: LinkView| #[trigger] s.filter(pred).contains(l) <==> (s.contains(l) && pred(l)) by {
        if s.filter(pred).contains(l) {
            s.lemma_filter_contains_rev(pred, l);
            let k = choose|k: int| 0 <= k < s.filter(pred).len() && s.filter(pred)[k] == l;
            s.lemma_filter_pred(pred, k);
        }
        if s.contains(l) && pred(l) {
            let k = choose|k: int| 0 <= k < s.len() && s[k] == l;
            s.lemma_filter_contains(pred, k);
        }
    }
}

/// Every reported chapter is one of the page's, with a title that the record
/// does not know; every chapter of the page with an unknown title is
/// reported (when the digest changed).
pub proof fn law_new_cours_are_the_unknown_ones(prev: PageStateView, current: ParsedPageView)
    requires
        prev.last_hash != current.full_content_hash,
    ensures
        forall|c: CoursView| #[trigger]
            diff_spec(Some(prev), current).new_cours.contains(c) <==> (current.cours_entries.contains(
                c,
            ) && !prev.known_cours_titles.contains(c.title)),
{
    let pred = |c: CoursView| !prev.known_cours_titles.contains(c.title);
    let s = current.cours_entries;
    assert forall|c: CoursView| #[trigger] s.filter(pred).contains(c) <==> (s.contains(c) && pred(c)) by {
        if s.filter(pred).contains(c) {
            s.lemma_filter_contains_rev(pred, c);
            let k = choose|k: int| 0 <= k < s.filter(pred).len() && s.filter(pred)[k] == c;
            s.lemma_filter_pred(pred, k);
        }
        if s.contains(c) && pred(c) {
            let k = choose|k: int| 0 <= k < s.len() && s[k] == c;
            s.lemma_filter_contains(pred, k);
        }
    }
}

/// When the content digest changed, the class log is reported exactly when
/// the page's class-log text (its entries' texts, one per line) is another
/// text than the recorded one, whatever their lengths; it is then reported
/// with the recorded text as the previous one, and the change is flagged.
/// The same holds of the announced tests.
pub proof fn law_changed_texts_are_reported(prev: PageStateView, current: ParsedPageView)
    requires
        prev.last_hash != current.full_content_hash,
    ensures
        ({
            let d = diff_spec(Some(prev), current);
            let cahier = join_spec(current.cahier_entries.map_values(|e: EntryView| e.raw_text), "\n"@);
            let devoir = join_spec(current.devoir_entries.map_values(|e: EntryView| e.raw_text), "\n"@);
            &&& d.current_cahier_text is Some <==> cahier != prev.last_cahier_text
            &&& cahier != prev.last_cahier_text ==> d.current_cahier_text == Some(cahier)
                && d.previous_cahier_text == Some(prev.last_cahier_text) && d.has_changes
            &&& cahier == prev.last_cahier_text ==> d.current_cahier_text is None
                && d.previous_cahier_text is None
            &&& d.current_devoir_text is Some <==> devoir != prev.last_devoir_text
            &&& devoir != prev.last_devoir_text ==> d.current_devoir_text == Some(devoir)
                && d.previous_devoir_text == Some(prev.last_devoir_text) && d.has_changes
            &&& devoir == prev.last_devoir_text ==> d.current_devoir_text is None
                && d.previous_devoir_text is None
        }),
{
}

/// Compares a parsed page with its previous record.
pub struct DiffEngine;

impl DiffEngine {
    fn quiet(is_first_run: bool) -> (r: DiffResult)
        ensures
            r@ == quiet_diff(is_first_run),
    {
        let r = DiffResult {
            has_changes: false,
            is_first_run,
            new_attachments: Vec::new(),
            previous_cahier_text: None,
            current_cahier_text: None,
            previous_devoir_text: None,
            current_devoir_text: None,
            new_cours: Vec::new(),
        };
        assert(r@.new_attachments =~= Seq::<LinkView>::empty());
        assert(r@.new_cours =~= Seq::<CoursView>::empty());
        r
    }

    fn new_attachments(prev: &PageState, current: &ParsedPage) -> (r: Vec<AttachmentLink>)
        ensures
            r.deep_view() == unknown_attachments(prev@, current@),
    {
        let ghost pred = |l: LinkView| !prev@.known_attachments.contains(l.url);
        let ghost all = current@.all_attachments;
        let mut r: Vec<AttachmentLink> = Vec::new();
        let mut i: usize = 0;
        while i < current.all_attachments.len()
            invariant
                i <= current.all_attachments@.len(),
                all == current@.all_attachments,
                pred == (|l: LinkView| !prev@.known_attachments.contains(l.url)),
                r.deep_view() == all.take(i as int).filter(pred),
            decreases current.all_attachments@.len() - i,
        {
            proof {
                reveal_with_fuel(Seq::<LinkView>::filter, 1);
                assert(all.take(i + 1).drop_last() =~= all.take(i as int));
            }
            let link = &current.all_attachments[i];
            if !contains_string(&prev.known_attachments, &link.url) {
                let ghost before = r.deep_view();
                r.push(link.duplicate());
                assert(r.deep_view() =~= before.push(link@));
            }
            i = i + 1;
        }
        assert(all.take(i as int) =~= all);
        r
    }

    fn new_cours(prev: &PageState, current: &ParsedPage) -> (r: Vec<CoursEntry>)
        ensures
            r.deep_view() == unknown_cours(prev@, current@),
    {
        let ghost pred = |c: CoursView| !prev@.known_cours_titles.contains(c.title);
        let ghost all = current@.cours_entries;
        let mut r: Vec<CoursEntry> = Vec::new();
        let mut i: usize = 0;
        while i < current.cours_entries.len()
            invariant
                i <= current.cours_entries@.len(),
                all == current@.cours_entries,
                pred == (|c: CoursView| !prev@.known_cours_titles.contains(c.title)),
                r.deep_view() == all.take(i as int).filter(pred),
            decreases current.cours_entries@.len() - i,
        {
            proof {
                reveal_with_fuel(Seq::<CoursView>::filter, 1);
                assert(all.take(i + 1).drop_last() =~= all.take(i as int));
            }
            let entry = &current.cours_entries[i];
            if !contains_string(&prev.known_cours_titles, &entry.title) {
                let ghost before = r.deep_view();
                r.push(entry.duplicate());
                assert(r.deep_view() =~= before.push(entry@));
            }
            i = i + 1;
        }
        assert(all.take(i as int) =~= all);
        r
    }

    /// What changed on `current` since its `previous` record: nothing on a
    /// first visit or when the content digest is unchanged; otherwise the
    /// attachments and chapters that the record does not know, and the
    /// class-log and test texts where they differ from the recorded ones.
    pub fn compute(previous: Option<&PageState>, current: &ParsedPage) -> (r: DiffResult)
        ensures
            r@ == diff_spec(opt_page_view(previous), current@),
    {
        let prev = match previous {
            Some(p) => p,
            None => {
                return Self::quiet(true);
            },
        };
        if prev.last_hash == current.full_content_hash {
            return Self::quiet(false);
        }
        let new_attachments = Self::new_attachments(prev, current);
        let current_cahier_text = current.cahier_text();
        let (cahier_prev, cahier_curr) = if current_cahier_text != prev.last_cahier_text {
            (Some(prev.last_cahier_text.clone()), Some(current_cahier_text))
        } else {
            (None, None)
        };
        let current_devoir_text = current.devoir_text();
        let (devoir_prev, devoir_curr) = if current_devoir_text != prev.last_devoir_text {
            (Some(prev.last_devoir_text.clone()), Some(current_devoir_text))
        } else {
            (None, None)
        };
        let new_cours = Self::new_cours(prev, current);
        let has_changes = new_attachments.len() != 0 || cahier_curr.is_some()
            || devoir_curr.is_some() || new_cours.len() != 0;
        DiffResult {
            has_changes,
            is_first_run: false,
            new_attachments,
            previous_cahier_text: cahier_prev,
            current_cahier_text: cahier_curr,
            previous_devoir_text: devoir_prev,
            current_devoir_text: devoir_curr,
            new_cours,
        }
    }
}

} // verus!
