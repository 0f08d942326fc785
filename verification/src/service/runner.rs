//! The watcher's decisions for one checked page: what to remember, and
//! whether the change is to be analysed and notified. Fetching, asking the
//! model, posting and saving are done around it, one step at a time.
use vstd::prelude::*;

use crate::ai::client::GeminiClient;
use crate::ai::schema::{AiAnalysis, AnalysisView};
use crate::config::settings::AppConfig;
use crate::diff::engine::{diff_spec, opt_page_view, DiffEngine, DiffResult, DiffView};
use crate::fetcher::client::{HttpFetcher, BROWSER_USER_AGENT};
use crate::http::ClientError;
use crate::notifier::ntfy::NtfyNotifier;
use crate::parser::model::{
    entries_text, CoursView, EntryView, LinkView, ParsedPage, ParsedPageView,
};
use crate::storage::state::{is_utc_timestamp, page_record, AppState, PageStateView};
use crate::text::{join_spec, owned};

verus! {

/// The watcher: its settings, clients and remembered state.
pub struct WatcherService {
    config: AppConfig,
    fetcher: HttpFetcher,
    gemini: GeminiClient,
    notifier: NtfyNotifier,
    state: AppState,
}

/// What checking one page led to.
#[derive(Debug)]
pub enum PageOutcome {
    /// The page was seen for the first time; its state was recorded.
    FirstRun,
    /// Nothing changed; the record was left as it was.
    Unchanged,
    /// The page changed as described; its new state was recorded, and the
    /// change is to be analysed and notified.
    Changed(DiffResult),
}

/// The record of the page at `url`, if there is one.
pub open spec fn lookup(pages: Map<Seq<char>, PageStateView>, url: Seq<char>) -> Option<PageStateView> {
    if pages.dom().contains(url) {
        Some(pages[url])
    } else {
        None
    }
}

/// The record kept of `parsed` at `url` when checked at `checked_at`: its
/// digest, document addresses, chapter titles, class log and tests.
pub open spec fn recorded_page(url: Seq<char>, parsed: ParsedPageView, checked_at: Seq<char>) -> PageStateView {
    page_record(
        url,
        parsed.full_content_hash,
        checked_at,
        parsed.all_attachments.map_values(|l: LinkView| l.url),
        parsed.cours_entries.map_values(|c: CoursView| c.title),
        entries_text(parsed.cahier_entries),
        entries_text(parsed.devoir_entries),
    )
}

/// Once a page is recorded, checking the same content again finds the
/// record, reports nothing and asks for no analysis: the record's digest is
/// the page's.
pub proof fn law_recorded_page_is_unchanged(
    pages: Map<Seq<char>, PageStateView>,
    url: Seq<char>,
    parsed: ParsedPageView,
    checked_at: Seq<char>,
)
    ensures
        ({
            let after = pages.insert(url, recorded_page(url, parsed, checked_at));
            let d = diff_spec(lookup(after, url), parsed);
            !d.is_first_run && !d.has_changes
        }),
{
}

/// The record of a page knows the address of each of its documents and the
/// title of each of its chapters, and holds its digest, class log and tests.
pub proof fn law_record_knows_page(url: Seq<char>, parsed: ParsedPageView, checked_at: Seq<char>)
    ensures
        ({
            let rec = recorded_page(url, parsed, checked_at);
            &&& forall|l: LinkView| #[trigger] parsed.all_attachments.contains(l)
                ==> rec.known_attachments.contains(l.url)
            &&& forall|c: CoursView| #[trigger] parsed.cours_entries.contains(c)
                ==> rec.known_cours_titles.contains(c.title)
            &&& rec.last_hash == parsed.full_content_hash
            &&& rec.last_cahier_text == join_spec(
                parsed.cahier_entries.map_values(|e: EntryView| e.raw_text),
                "\n"@,
            )
            &&& rec.last_devoir_text == join_spec(
                parsed.devoir_entries.map_values(|e: EntryView| e.raw_text),
                "\n"@,
            )
        }),
{
    let rec = recorded_page(url, parsed, checked_at);
    assert forall|l: LinkView| #[trigger] parsed.all_attachments.contains(l) implies rec.known_attachments.contains(
        l.url,
    ) by {
        let k = choose|k: int| 0 <= k < parsed.all_attachments.len() && parsed.all_attachments[k] == l;
        assert(rec.known_attachments[k] == l.url);
    }
    assert forall|c: CoursView| #[trigger] parsed.cours_entries.contains(c) implies rec.known_cours_titles.contains(
        c.title,
    ) by {
        let k = choose|k: int| 0 <= k < parsed.cours_entries.len() && parsed.cours_entries[k] == c;
        assert(rec.known_cours_titles[k] == c.title);
    }
}

/// Once `first` is recorded at `url`, a later page `next` with the same
/// documents, chapters, class log and tests reports no change, whatever
/// its digest: in particular none of the recorded chapters or documents is
/// reported as new.
pub proof fn law_same_content_reports_nothing(
    pages: Map<Seq<char>, PageStateView>,
    url: Seq<char>,
    first: ParsedPageView,
    next: ParsedPageView,
    checked_at: Seq<char>,
)
    requires
        next.all_attachments == first.all_attachments,
        next.cours_entries == first.cours_entries,
        next.cahier_entries == first.cahier_entries,
        next.devoir_entries == first.devoir_entries,
    ensures
        ({
            let after = pages.insert(url, recorded_page(url, first, checked_at));
            let d = diff_spec(lookup(after, url), next);
            &&& !d.is_first_run
            &&& !d.has_changes
            &&& d.new_cours.len() == 0
            &&& d.new_attachments.len() == 0
        }),
{
    let rec = recorded_page(url, first, checked_at);
    let after = pages.insert(url, rec);
    assert(lookup(after, url) == Some(rec));
    law_record_knows_page(url, first, checked_at);
    if rec.last_hash != next.full_content_hash {
        let pa = |l: LinkView| !rec.known_attachments.contains(l.url);
        let sa = next.all_attachments;
        if sa.filter(pa).len() != 0 {
            sa.lemma_filter_contains_rev(pa, sa.filter(pa)[0]);
            sa.lemma_filter_pred(pa, 0);
            assert(sa.contains(sa.filter(pa)[0]));
        }
        let pc = |c: CoursView| !rec.known_cours_titles.contains(c.title);
        let sc = next.cours_entries;
        if sc.filter(pc).len() != 0 {
            sc.lemma_filter_contains_rev(pc, sc.filter(pc)[0]);
            sc.lemma_filter_pred(pc, 0);
            assert(sc.contains(sc.filter(pc)[0]));
        }
    }
}

/// The analysis used when the model gives none: the page title, the class
/// log and tests as they changed, the new documents' labels, priority 3.
pub open spec fn fallback_spec(page: ParsedPageView, d: DiffView) -> AnalysisView {
    AnalysisView {
        title: "Mise a jour : "@ + page.page_title,
        fait_en_classe: d.current_cahier_text,
        a_faire: None,
        date_echeance: None,
        evaluation: d.current_devoir_text,
        nouveaux_documents: d.new_attachments.map_values(|l: LinkView| l.text),
        priority: 3,
    }
}

/// The analysis used when the model gives none.
pub fn fallback_analysis(page: &ParsedPage, diff: &DiffResult) -> (r: AiAnalysis)
    ensures
        r@ == fallback_spec(page@, diff@),
{
    let mut title = owned("Mise a jour : ");
    title.append(page.page_title.as_str());
    let ghost d = diff@;
    let mut docs: Vec<String> = Vec::new();
    let mut i: usize = 0;
    while i < diff.new_attachments.len()
        invariant
            d == diff@,
            i <= d.new_attachments.len(),
            docs.deep_view() == d.new_attachments.take(i as int).map_values(|l: LinkView| l.text),
        decreases d.new_attachments.len() - i,
    {
        let ghost before = docs.deep_view();
        docs.push(diff.new_attachments[i].text.clone());
        assert(docs.deep_view() =~= d.new_attachments.take(i + 1).map_values(|l: LinkView| l.text))
            by {
            assert(docs.deep_view() =~= before.push(d.new_attachments[i as int].text));
        }
        i = i + 1;
    }
    assert(d.new_attachments.take(i as int) =~= d.new_attachments);
    AiAnalysis {
        title,
        fait_en_classe: diff.current_cahier_text.clone(),
        a_faire: None,
        date_echeance: None,
        evaluation: diff.current_devoir_text.clone(),
        nouveaux_documents: docs,
        priority: 3,
    }
}

impl WatcherService {
    /// A watcher with `config`, nothing remembered yet, and its page
    /// fetcher, Gemini client and notifier set up from the settings. It
    /// fails when one of their HTTP clients cannot be set up.
    pub fn new(config: AppConfig) -> (r: Result<WatcherService, ClientError>)
        ensures
            r matches Ok(s) ==> {
                &&& s.pages() == Map::<Seq<char>, PageStateView>::empty()
                &&& s.page_fetcher().user_agent() == BROWSER_USER_AGENT@
                &&& s.page_fetcher().timeout_secs() == 20
                &&& s.gemini_client().timeout_secs() == 30
                &&& s.notifier_client().timeout_secs() == 20
                &&& s.settings() == config
                &&& s.topic() == config.ntfy_topic@
                &&& s.notifier_client().server_url() == config.ntfy_url@
                &&& s.notifier_client().token() == config.ntfy_token.deep_view()
                &&& s.gemini_client().api_key() == config.gemini_api_key@
                &&& s.gemini_client().model() == config.gemini_model@
            },
    {
        let fetcher = HttpFetcher::new()?;
        let gemini = GeminiClient::new(config.gemini_api_key.clone(), config.gemini_model.clone())?;
        let token = match &config.ntfy_token {
            Some(t) => Some(t.clone()),
            None => None,
        };
        assert(token.deep_view() == config.ntfy_token.deep_view());
        let notifier = NtfyNotifier::new(config.ntfy_url.clone(), config.ntfy_topic.clone(), token)?;
        Ok(WatcherService { config, fetcher, gemini, notifier, state: AppState::default() })
    }

    /// Takes `state` as what is remembered of the pages (the state loaded
    /// from the state file).
    pub fn restore_state(&mut self, state: AppState)
        ensures
            final(self).pages() == state@,
            final(self).topic() == old(self).topic(),
            final(self).settings() == old(self).settings(),
            final(self).notifier_client() == old(self).notifier_client(),
            final(self).gemini_client() == old(self).gemini_client(),
            final(self).page_fetcher() == old(self).page_fetcher(),
    {
        self.state = state;
    }

    /// The remembered pages.
    pub closed spec fn pages(&self) -> Map<Seq<char>, PageStateView> {
        self.state@
    }

    /// The notification topic.
    pub closed spec fn topic(&self) -> Seq<char> {
        self.notifier.topic()
    }

    /// The settings.
    pub closed spec fn settings(&self) -> AppConfig {
        self.config
    }

    /// The notifier.
    pub closed spec fn notifier_client(&self) -> NtfyNotifier {
        self.notifier
    }

    /// The Gemini client.
    pub closed spec fn gemini_client(&self) -> GeminiClient {
        self.gemini
    }

    /// The page fetcher.
    pub closed spec fn page_fetcher(&self) -> HttpFetcher {
        self.fetcher
    }

    /// The settings.
    pub fn config(&self) -> (r: &AppConfig)
        ensures
            *r == self.settings(),
    {
        &self.config
    }

    /// The page fetcher.
    pub fn fetcher(&self) -> (r: &HttpFetcher)
        ensures
            *r == self.page_fetcher(),
    {
        &self.fetcher
    }

    /// The Gemini client.
    pub fn gemini(&self) -> (r: &GeminiClient)
        ensures
            *r == self.gemini_client(),
    {
        &self.gemini
    }

    /// The notifier.
    pub fn notifier(&self) -> (r: &NtfyNotifier)
        ensures
            *r == self.notifier_client(),
            r.topic() == self.topic(),
    {
        &self.notifier
    }

    /// The remembered state.
    pub fn state(&self) -> (r: &AppState)
        ensures
            r@ == self.pages(),
    {
        &self.state
    }

    /// Records the state of `parsed` as that of the page at `url`.
    fn update_page_state(&mut self, url: &str, parsed: &ParsedPage)
        ensures
            final(self).pages() == old(self).pages().insert(
                url@,
                recorded_page(url@, parsed@, final(self).pages()[url@].last_checked_at),
            ),
            is_utc_timestamp(final(self).pages()[url@].last_checked_at),
            final(self).topic() == old(self).topic(),
            final(self).settings() == old(self).settings(),
            final(self).notifier_client() == old(self).notifier_client(),
            final(self).gemini_client() == old(self).gemini_client(),
            final(self).page_fetcher() == old(self).page_fetcher(),
    {
        let ghost all = parsed@.all_attachments;
        let mut attachments: Vec<String> = Vec::new();
        let mut i: usize = 0;
        while i < parsed.all_attachments.len()
            invariant
                all == parsed@.all_attachments,
                i <= all.len(),
                attachments.deep_view() == all.take(i as int).map_values(|l: LinkView| l.url),
            decreases all.len() - i,
        {
            let ghost before = attachments.deep_view();
            attachments.push(parsed.all_attachments[i].url.clone());
            assert(attachments.deep_view() =~= all.take(i + 1).map_values(|l: LinkView| l.url)) by {
                assert(attachments.deep_view() =~= before.push(all[i as int].url));
            }
            i = i + 1;
        }
        assert(all.take(i as int) =~= all);
        let ghost cs = parsed@.cours_entries;
        let mut titles: Vec<String> = Vec::new();
        let mut j: usize = 0;
        while j < parsed.cours_entries.len()
            invariant
                cs == parsed@.cours_entries,
                j <= cs.len(),
                titles.deep_view() == cs.take(j as int).map_values(|c: CoursView| c.title),
            decreases cs.len() - j,
        {
            let ghost before = titles.deep_view();
            titles.push(parsed.cours_entries[j].title.clone());
            assert(titles.deep_view() =~= cs.take(j + 1).map_values(|c: CoursView| c.title)) by {
                assert(titles.deep_view() =~= before.push(cs[j as int].title));
            }
            j = j + 1;
        }
        assert(cs.take(j as int) =~= cs);
        let cahier = parsed.cahier_text();
        let devoir = parsed.devoir_text();
        self.state.update_page(
            url,
            parsed.full_content_hash.clone(),
            attachments,
            titles,
            cahier,
            devoir,
        );
    }

    /// Checks the freshly parsed page at `url` against its record. On a
    /// first visit the page is recorded; when it changed, its new state is
    /// recorded and the change is returned for analysis and notification;
    /// otherwise nothing is recorded.
    pub fn observe_page(&mut self, url: &str, parsed: &ParsedPage) -> (r: PageOutcome)
        ensures
            ({
                let d = diff_spec(lookup(old(self).pages(), url@), parsed@);
                let recorded = old(self).pages().insert(
                    url@,
                    recorded_page(url@, parsed@, final(self).pages()[url@].last_checked_at),
                );
                &&& d.is_first_run ==> r is FirstRun && final(self).pages() == recorded
                    && is_utc_timestamp(final(self).pages()[url@].last_checked_at)
                &&& !d.is_first_run && d.has_changes ==> (r matches PageOutcome::Changed(diff) && diff@
                    == d) && final(self).pages() == recorded && is_utc_timestamp(
                    final(self).pages()[url@].last_checked_at,
                )
                &&& !d.is_first_run && !d.has_changes ==> r is Unchanged && final(self).pages()
                    == old(self).pages()
            }),
            final(self).topic() == old(self).topic(),
            final(self).settings() == old(self).settings(),
            final(self).notifier_client() == old(self).notifier_client(),
            final(self).gemini_client() == old(self).gemini_client(),
            final(self).page_fetcher() == old(self).page_fetcher(),
    {
        let diff = {
            let previous = self.state.get_page(url);
            assert(opt_page_view(previous) == lookup(self.state@, url@));
            DiffEngine::compute(previous, parsed)
        };
        if diff.is_first_run {
            self.update_page_state(url, parsed);
            return PageOutcome::FirstRun;
        }
        if diff.has_changes {
            self.update_page_state(url, parsed);
            return PageOutcome::Changed(diff);
        }
        PageOutcome::Unchanged
    }
}

} // verus!
