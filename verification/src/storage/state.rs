//! The remembered state of the watched pages, keyed by page address.
use vstd::prelude::*;

use crate::parser::model::duplicate_strings;
use crate::text::ends_with_spec;

verus! {

/// What was recorded of one page at its last change.
#[derive(Debug, Clone)]
pub struct PageState {
    pub url: String,
    pub last_hash: String,
    pub last_checked_at: String,
    pub known_attachments: Vec<String>,
    pub known_cours_titles: Vec<String>,
    pub last_cahier_text: String,
    pub last_devoir_text: String,
}

/// The value of a [`PageState`].
pub struct PageStateView {
    pub url: Seq<char>,
    pub last_hash: Seq<char>,
    pub last_checked_at: Seq<char>,
    pub known_attachments: Seq<Seq<char>>,
    pub known_cours_titles: Seq<Seq<char>>,
    pub last_cahier_text: Seq<char>,
    pub last_devoir_text: Seq<char>,
}

impl View for PageState {
    type V = PageStateView;

    open spec fn view(&self) -> PageStateView {
        PageStateView {
            url: self.url@,
            last_hash: self.last_hash@,
            last_checked_at: self.last_checked_at@,
            known_attachments: self.known_attachments.deep_view(),
            known_cours_titles: self.known_cours_titles.deep_view(),
            last_cahier_text: self.last_cahier_text@,
            last_devoir_text: self.last_devoir_text@,
        }
    }
}

impl PageState {
    /// A copy of this record.
    pub fn duplicate(&self) -> (r: PageState)
        ensures
            r@ == self@,
    {
        PageState {
            url: self.url.clone(),
            last_hash: self.last_hash.clone(),
            last_checked_at: self.last_checked_at.clone(),
            known_attachments: duplicate_strings(&self.known_attachments),
            known_cours_titles: duplicate_strings(&self.known_cours_titles),
            last_cahier_text: self.last_cahier_text.clone(),
            last_devoir_text: self.last_devoir_text.clone(),
        }
    }
}

impl Default for PageState {
    fn default() -> (r: PageState)
        ensures
            r@.url.len() == 0,
            r@.last_hash.len() == 0,
            r@.last_checked_at.len() == 0,
            r@.known_attachments.len() == 0,
            r@.known_cours_titles.len() == 0,
            r@.last_cahier_text.len() == 0,
            r@.last_devoir_text.len() == 0,
    {
        PageState {
            url: String::new(),
            last_hash: String::new(),
            last_checked_at: String::new(),
            known_attachments: Vec::new(),
            known_cours_titles: Vec::new(),
            last_cahier_text: String::new(),
            last_devoir_text: String::new(),
        }
    }
}

/// The map that a list of (address, record) entries denotes; of two entries
/// with the same address the later one counts.
pub open spec fn entries_map(s: Seq<(String, PageState)>) -> Map<Seq<char>, PageStateView>
    decreases s.len(),
{
    if s.len() == 0 {
        Map::empty()
    } else {
        entries_map(s.drop_last()).insert(s.last().0@, s.last().1@)
    }
}

/// No address occurs twice in `s`.
pub open spec fn keys_distinct(s: Seq<(String, PageState)>) -> bool {
    forall|i: int, j: int| 0 <= i < j < s.len() ==> (#[trigger] s[i]).0@ != (#[trigger] s[j]).0@
}

/// The remembered pages, keyed by page address.
pub struct AppState {
    pages: Vec<(String, PageState)>,
}

impl AppState {
    #[verifier::type_invariant]
    spec fn well_formed(self) -> bool {
        keys_distinct(self.pages@)
    }
}

impl View for AppState {
    type V = Map<Seq<char>, PageStateView>;

    closed spec fn view(&self) -> Map<Seq<char>, PageStateView> {
        entries_map(self.pages@)
    }
}

/// The record that `update_page` stores.
pub open spec fn page_record(
    url: Seq<char>,
    hash: Seq<char>,
    checked_at: Seq<char>,
    attachments: Seq<Seq<char>>,
    cours_titles: Seq<Seq<char>>,
    cahier: Seq<char>,
    devoir: Seq<char>,
) -> PageStateView {
    PageStateView {
        url,
        last_hash: hash,
        last_checked_at: checked_at,
        known_attachments: attachments,
        known_cours_titles: cours_titles,
        last_cahier_text: cahier,
        last_devoir_text: devoir,
    }
}

/// Whether the address `k` occurs in `s`.
pub open spec fn has_key(s: Seq<(String, PageState)>, k: Seq<char>) -> bool {
    exists|i: int| 0 <= i < s.len() && (#[trigger] s[i]).0@ == k
}

/// The map holds exactly the listed addresses.
proof fn lemma_entries_dom(s: Seq<(String, PageState)>, k: Seq<char>)
    ensures
        entries_map(s).dom().contains(k) == has_key(s, k),
    decreases s.len(),
{
    if s.len() > 0 {
        let t = s.drop_last();
        lemma_entries_dom(t, k);
        if has_key(s, k) {
            let i = choose|i: int| 0 <= i < s.len() && (#[trigger] s[i]).0@ == k;
            if i < s.len() - 1 {
                assert(t[i] == s[i]);
                assert(has_key(t, k));
            }
        }
        if has_key(t, k) {
            let i = choose|i: int| 0 <= i < t.len() && (#[trigger] t[i]).0@ == k;
            assert(s[i] == t[i]);
        }
        if k == s.last().0@ {
            assert(s[s.len() - 1].0@ == k);
        }
    }
}

/// In a list without repeated addresses, each listed address maps to its
/// record.
proof fn lemma_entries_value(s: Seq<(String, PageState)>, i: int)
    requires
        keys_distinct(s),
        0 <= i < s.len(),
    ensures
        entries_map(s).dom().contains(s[i].0@),
        entries_map(s)[s[i].0@] == s[i].1@,
    decreases s.len(),
{
    lemma_entries_dom(s, s[i].0@);
    let t = s.drop_last();
    if i < s.len() - 1 {
        assert(keys_distinct(t)) by {
            assert forall|a: int, b: int| 0 <= a < b < t.len() implies (#[trigger] t[a]).0@ != (
            #[trigger] t[b]).0@ by {
                assert(t[a] == s[a] && t[b] == s[b]);
            }
        }
        assert(t[i] == s[i]);
        lemma_entries_value(t, i);
        assert(s[i].0@ != s[s.len() - 1].0@);
    }
}

/// Reading a page after recording it gives back the record; the records of
/// the other pages are unchanged.
pub proof fn law_read_after_update(
    pages: Map<Seq<char>, PageStateView>,
    url: Seq<char>,
    record: PageStateView,
    other: Seq<char>,
)
    requires
        other != url,
    ensures
        pages.insert(url, record).dom().contains(url),
        pages.insert(url, record)[url] == record,
        pages.insert(url, record).dom().contains(other) == pages.dom().contains(other),
        pages.dom().contains(other) ==> pages.insert(url, record)[other] == pages[other],
{
}

/// An RFC 3339 timestamp in UTC as chrono writes it: at least
/// `YYYY-MM-DDTHH:MM:SS` and the offset, which is written `+00:00`.
pub open spec fn is_utc_timestamp(s: Seq<char>) -> bool {
    s.len() >= 25 && ends_with_spec(s, "+00:00"@)
}

/// Trusted: `chrono::Utc::now()` written by `DateTime::to_rfc3339`. The
/// time depends on the clock, so only the shape of the text is stated:
/// chrono's `write_rfc3339` writes the date (four digits of year or more),
/// `T`, the time to the second, any fraction, then the zero offset as
/// `+00:00`.
#[verifier::external_body]
fn now_rfc3339() -> (r: String)
    ensures
        is_utc_timestamp(r@),
{
    chrono::Utc::now().to_rfc3339()
}

impl Default for AppState {
    fn default() -> (r: AppState)
        ensures
            r@ == Map::<Seq<char>, PageStateView>::empty(),
    {
        AppState { pages: Vec::new() }
    }
}

impl AppState {
    /// The state that a list of (address, record) entries denotes, as a map
    /// built by inserting them in order would hold it.
    pub fn from_entries(entries: Vec<(String, PageState)>) -> (r: AppState)
        ensures
            r@ == entries_map(entries@),
    {
        let mut r = AppState::default();
        let mut i: usize = 0;
        while i < entries.len()
            invariant
                i <= entries@.len(),
                r@ == entries_map(entries@.take(i as int)),
            decreases entries@.len() - i,
        {
            let (k, p) = (&entries[i].0, &entries[i].1);
            r.insert_record(k.as_str(), p.duplicate());
            proof {
                assert(entries@.take(i + 1).drop_last() =~= entries@.take(i as int));
            }
            i = i + 1;
        }
        assert(entries@.take(i as int) =~= entries@);
        r
    }

    /// The remembered entries, one per address.
    pub fn entries(&self) -> (r: Vec<(String, PageState)>)
        ensures
            keys_distinct(r@),
            entries_map(r@) == self@,
    {
        proof {
            use_type_invariant(self);
        }
        let mut r: Vec<(String, PageState)> = Vec::new();
        let mut i: usize = 0;
        while i < self.pages.len()
            invariant
                i <= self.pages@.len(),
                keys_distinct(self.pages@),
                r@.len() == i,
                forall|j: int| 0 <= j < i ==> (#[trigger] r@[j]).0@ == self.pages@[j].0@ && r@[j].1@
                    == self.pages@[j].1@,
            decreases self.pages@.len() - i,
        {
            r.push((self.pages[i].0.clone(), self.pages[i].1.duplicate()));
            i = i + 1;
        }
        proof {
            lemma_same_keys_same_map(r@, self.pages@);
        }
        r
    }

    /// The record of the page at `url`, if one is remembered.
    pub fn get_page(&self, url: &str) -> (r: Option<&PageState>)
        ensures
            match r {
                Some(p) => self@.dom().contains(url@) && p@ == self@[url@],
                None => !self@.dom().contains(url@),
            },
    {
        proof {
            use_type_invariant(self);
        }
        let key = crate::text::owned(url);
        let mut i: usize = 0;
        while i < self.pages.len()
            invariant
                i <= self.pages@.len(),
                key@ == url@,
                keys_distinct(self.pages@),
                forall|j: int| 0 <= j < i ==> (#[trigger] self.pages@[j]).0@ != url@,
            decreases self.pages@.len() - i,
        {
            if self.pages[i].0 == key {
                proof {
                    lemma_entries_value(self.pages@, i as int);
                }
                return Some(&self.pages[i].1);
            }
            i = i + 1;
        }
        proof {
            lemma_entries_dom(self.pages@, url@);
        }
        None
    }

    /// Remembers `page` as the record of `url`, replacing any earlier one.
    fn insert_record(&mut self, url: &str, page: PageState)
        ensures
            final(self)@ == old(self)@.insert(url@, page@),
    {
        proof {
            use_type_invariant(&*self);
        }
        let key = crate::text::owned(url);
        let mut i: usize = 0;
        while i < self.pages.len()
            invariant
                i <= self.pages@.len(),
                key@ == url@,
                self.pages@ == old(self).pages@,
                keys_distinct(self.pages@),
                forall|j: int| 0 <= j < i ==> (#[trigger] self.pages@[j]).0@ != url@,
            decreases self.pages@.len() - i,
        {
            if self.pages[i].0 == key {
                let ghost old_pages = self.pages@;
                let mut pages = Vec::new();
                std::mem::swap(&mut pages, &mut self.pages);
                pages.set(i, (key, page));
                proof {
                    lemma_replace_entry(old_pages, i as int, pages@[i as int]);
                }
                self.pages = pages;
                return;
            }
            i = i + 1;
        }
        let ghost old_pages = self.pages@;
        let mut pages = Vec::new();
        std::mem::swap(&mut pages, &mut self.pages);
        pages.push((key, page));
        proof {
            lemma_push_entry(old_pages, pages@.last());
        }
        self.pages = pages;
    }

    /// Records the state of the page at `url` as last checked at
    /// `checked_at`, replacing any earlier record of it.
    pub fn update_page_at(
        &mut self,
        url: &str,
        hash: String,
        attachments: Vec<String>,
        cours_titles: Vec<String>,
        cahier: String,
        devoir: String,
        checked_at: String,
    )
        ensures
            final(self)@ == old(self)@.insert(
                url@,
                page_record(
                    url@,
                    hash@,
                    checked_at@,
                    attachments.deep_view(),
                    cours_titles.deep_view(),
                    cahier@,
                    devoir@,
                ),
            ),
    {
        let page = PageState {
            url: crate::text::owned(url),
            last_hash: hash,
            last_checked_at: checked_at,
            known_attachments: attachments,
            known_cours_titles: cours_titles,
            last_cahier_text: cahier,
            last_devoir_text: devoir,
        };
        self.insert_record(url, page);
    }

    /// Records the state of the page at `url` as checked now, replacing any
    /// earlier record of it.
    pub fn update_page(
        &mut self,
        url: &str,
        hash: String,
        attachments: Vec<String>,
        cours_titles: Vec<String>,
        cahier: String,
        devoir: String,
    )
        ensures
            final(self)@ == old(self)@.insert(
                url@,
                page_record(
                    url@,
                    hash@,
                    final(self)@[url@].last_checked_at,
                    attachments.deep_view(),
                    cours_titles.deep_view(),
                    cahier@,
                    devoir@,
                ),
            ),
            is_utc_timestamp(final(self)@[url@].last_checked_at),
    {
        let now = now_rfc3339();
        self.update_page_at(url, hash, attachments, cours_titles, cahier, devoir, now);
    }
}

proof fn lemma_same_keys_same_map(r: Seq<(String, PageState)>, s: Seq<(String, PageState)>)
    requires
        r.len() == s.len(),
        forall|j: int| 0 <= j < r.len() ==> (#[trigger] r[j]).0@ == s[j].0@ && r[j].1@ == s[j].1@,
    ensures
        entries_map(r) == entries_map(s),
        keys_distinct(s) ==> keys_distinct(r),
    decreases r.len(),
{
    if r.len() > 0 {
        lemma_same_keys_same_map(r.drop_last(), s.drop_last());
        assert(r.last() == r[r.len() - 1]);
    }
    if keys_distinct(s) {
        assert forall|i: int, j: int| 0 <= i < j < r.len() implies (#[trigger] r[i]).0@ != (
        #[trigger] r[j]).0@ by {
            assert(s[i].0@ != s[j].0@);
        }
    }
}

proof fn lemma_replace_entry(s: Seq<(String, PageState)>, i: int, e: (String, PageState))
    requires
        keys_distinct(s),
        0 <= i < s.len(),
        s[i].0@ == e.0@,
    ensures
        keys_distinct(s.update(i, e)),
        entries_map(s.update(i, e)) == entries_map(s).insert(e.0@, e.1@),
{
    let u = s.update(i, e);
    assert(keys_distinct(u)) by {
        assert forall|a: int, b: int| 0 <= a < b < u.len() implies (#[trigger] u[a]).0@ != (
        #[trigger] u[b]).0@ by {
            assert(s[a].0@ != s[b].0@);
        }
    }
    let m = entries_map(s).insert(e.0@, e.1@);
    assert forall|k: Seq<char>| #[trigger] entries_map(u).dom().contains(k) <==> m.dom().contains(
        k,
    ) by {
        lemma_entries_dom(s, k);
        lemma_entries_dom(u, k);
        if has_key(s, k) {
            let j = choose|j: int| 0 <= j < s.len() && (#[trigger] s[j]).0@ == k;
            if j == i {
                assert(u[i].0@ == k);
            } else {
                assert(u[j] == s[j]);
            }
        }
        if has_key(u, k) {
            let j = choose|j: int| 0 <= j < u.len() && (#[trigger] u[j]).0@ == k;
            if j != i {
                assert(u[j] == s[j]);
            }
        }
        if k == e.0@ {
            assert(u[i].0@ == k);
        }
    }
    assert forall|k: Seq<char>| #[trigger] m.dom().contains(k) implies entries_map(u)[k] == m[k] by {
        if k == e.0@ {
            assert(u[i] == e);
            lemma_entries_value(u, i);
        } else {
            lemma_entries_dom(s, k);
            let j = choose|j: int| 0 <= j < s.len() && (#[trigger] s[j]).0@ == k;
            assert(u[j] == s[j]);
            lemma_entries_value(u, j);
            lemma_entries_value(s, j);
        }
    }
    assert(entries_map(u) =~= m);
}

proof fn lemma_push_entry(s: Seq<(String, PageState)>, e: (String, PageState))
    requires
        keys_distinct(s),
        forall|j: int| 0 <= j < s.len() ==> (#[trigger] s[j]).0@ != e.0@,
    ensures
        keys_distinct(s.push(e)),
        entries_map(s.push(e)) == entries_map(s).insert(e.0@, e.1@),
{
    let u = s.push(e);
    assert(u.drop_last() =~= s);
    assert forall|a: int, b: int| 0 <= a < b < u.len() implies (#[trigger] u[a]).0@ != (
    #[trigger] u[b]).0@ by {
        assert(u[a] == s[a]);
        if b < s.len() {
            assert(u[b] == s[b]);
        }
    }
}

} // verus!
