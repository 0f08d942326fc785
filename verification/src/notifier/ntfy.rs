//! The ntfy notifier: what a change notification says, and where and how
//! it is posted.
use vstd::prelude::*;

use super::payload::{
    add_action_spec, new_payload_spec, with_attachment_spec, with_click_spec, with_priority_spec,
    NtfyPayload, PayloadView,
};
use crate::ai::schema::{AiAnalysis, AnalysisView};
use crate::diff::engine::{DiffResult, DiffView};
use crate::http::{build_client, ClientError};
use crate::parser::model::{LinkView, ParsedPage, ParsedPageView};
use crate::text::{
    contains_spec, join, join_spec, lemma_contains_suffix, lemma_contains_trans,
    lemma_join_contains_part, owned, trim, trim_end_char, trim_end_char_spec, trim_spec,
};

verus! {

/// Posts notifications to one ntfy topic.
#[derive(Clone)]
pub struct NtfyNotifier {
    client: reqwest::Client,
    server_url: String,
    topic: String,
    token: Option<String>,
    timeout_secs: u64,
}

/// `Some` of the trimmed text when it holds more than whitespace.
pub open spec fn filled(o: Option<Seq<char>>) -> Option<Seq<char>> {
    match o {
        Some(s) => if trim_spec(s).len() != 0 {
            Some(trim_spec(s))
        } else {
            None
        },
        None => None,
    }
}

/// The one-element list of `o`'s content, or the empty list.
pub open spec fn listed(o: Option<Seq<char>>) -> Seq<Seq<char>> {
    match o {
        Some(s) => seq![s],
        None => seq![],
    }
}

/// The "done in class" section.
pub open spec fn fait_section(a: AnalysisView) -> Option<Seq<char>> {
    match filled(a.fait_en_classe) {
        Some(t) => Some("FAIT EN CLASSE :\n"@ + t),
        None => None,
    }
}

/// The due-date note of the homework section.
pub open spec fn due_note(a: AnalysisView) -> Seq<char> {
    match filled(a.date_echeance) {
        Some(d) => " (pour le "@ + d + ")"@,
        None => seq![],
    }
}

/// The homework section.
pub open spec fn a_faire_section(a: AnalysisView) -> Option<Seq<char>> {
    match filled(a.a_faire) {
        Some(t) => Some("A FAIRE"@ + due_note(a) + " :\n"@ + t),
        None => None,
    }
}

/// The test section.
pub open spec fn evaluation_section(a: AnalysisView) -> Option<Seq<char>> {
    match filled(a.evaluation) {
        Some(t) => Some("EVALUATION :\n"@ + t),
        None => None,
    }
}

/// The line of one new document.
pub open spec fn document_line(l: LinkView) -> Seq<char> {
    "- "@ + l.text + " : "@ + l.url
}

/// The new-documents section.
pub open spec fn documents_section(d: DiffView) -> Option<Seq<char>> {
    if d.new_attachments.len() == 0 {
        None
    } else {
        Some(
            "NOUVEAUX DOCUMENTS :\n"@ + join_spec(
                d.new_attachments.map_values(|l: LinkView| document_line(l)),
                "\n"@,
            ),
        )
    }
}

/// The sections of the message, in order.
pub open spec fn sections_spec(d: DiffView, a: AnalysisView) -> Seq<Seq<char>> {
    listed(fait_section(a)) + listed(a_faire_section(a)) + listed(evaluation_section(a)) + listed(
        documents_section(d),
    )
}

/// The message: the sections separated by blank lines, or a one-line notice
/// when there is none.
pub open spec fn message_spec(page: ParsedPageView, d: DiffView, a: AnalysisView) -> Seq<char> {
    let sections = sections_spec(d, a);
    if sections.len() == 0 {
        "Mise a jour detectee sur "@ + page.page_title
    } else {
        join_spec(sections, "\n\n"@)
    }
}

/// The title: the analysis's own, or the page's when that one is empty.
pub open spec fn title_spec(page: ParsedPageView, a: AnalysisView) -> Seq<char> {
    if a.title.len() == 0 {
        page.page_title
    } else {
        a.title
    }
}

/// The payload that `build_payload` makes for a change of `page`.
pub open spec fn payload_spec(topic: Seq<char>, page: ParsedPageView, d: DiffView, a: AnalysisView) -> PayloadView {
    let p0 = new_payload_spec(topic, title_spec(page, a), message_spec(page, d, a));
    let p1 = add_action_spec(
        with_click_spec(with_priority_spec(p0, a.priority), page.source_url),
        "Ouvrir site"@,
        page.source_url,
    );
    let p2 = if d.new_attachments.len() >= 1 {
        let first = d.new_attachments[0];
        add_action_spec(
            with_attachment_spec(p1, first.url, Some(first.text)),
            "PDF: "@ + first.text,
            first.url,
        )
    } else {
        p1
    };
    if d.new_attachments.len() >= 2 {
        let second = d.new_attachments[1];
        add_action_spec(p2, "PDF 2: "@ + second.text, second.url)
    } else {
        p2
    }
}

/// A notification opens its page on a click and through its first button,
/// carries at most three buttons, and has a priority between 1 and 5.
pub proof fn law_payload_opens_page(topic: Seq<char>, page: ParsedPageView, d: DiffView, a: AnalysisView)
    ensures
        ({
            let p = payload_spec(topic, page, d, a);
            &&& p.click == Some(page.source_url)
            &&& p.actions.len() >= 1
            &&& p.actions.len() <= 3
            &&& p.actions[0].label == "Ouvrir site"@
            &&& p.actions[0].url == page.source_url
            &&& 1 <= p.priority <= 5
            &&& p.topic == topic
            &&& p.markdown
        }),
{
}

/// Whenever the analysis gives homework that is more than whitespace, the
/// message holds the homework section: "A FAIRE", the due-date note (empty
/// when the analysis gives no due date or a blank one), " :" and a line
/// break, then the trimmed homework; a missing due date never drops it.
pub proof fn law_homework_always_notified(topic: Seq<char>, page: ParsedPageView, d: DiffView, a: AnalysisView, t: Seq<char>)
    requires
        a.a_faire == Some(t),
        trim_spec(t).len() != 0,
    ensures
        ({
            let note = match a.date_echeance {
                Some(dd) => if trim_spec(dd).len() != 0 {
                    " (pour le "@ + trim_spec(dd) + ")"@
                } else {
                    seq![]
                },
                None => seq![],
            };
            contains_spec(
                payload_spec(topic, page, d, a).message,
                "A FAIRE"@ + note + " :\n"@ + trim_spec(t),
            )
        }),
{
    let sections = sections_spec(d, a);
    let k = listed(fait_section(a)).len() as int;
    assert(sections[k] == "A FAIRE"@ + due_note(a) + " :\n"@ + trim_spec(t));
    lemma_join_contains_part(sections, "\n\n"@, k);
}

/// The message holds every part of the change that there is: what was
/// done in class and the announced test, each trimmed under its heading
/// when it is more than whitespace, and a line "- label : address" for
/// each new document. When there is none of these parts, nor homework, it
/// is the one-line notice "Mise a jour detectee sur" and the page title.
pub proof fn law_message_lists_every_part(topic: Seq<char>, page: ParsedPageView, d: DiffView, a: AnalysisView)
    ensures
        ({
            let m = payload_spec(topic, page, d, a).message;
            &&& a.fait_en_classe is Some && trim_spec(a.fait_en_classe->Some_0).len() != 0 ==> contains_spec(
                m,
                "FAIT EN CLASSE :\n"@ + trim_spec(a.fait_en_classe->Some_0),
            )
            &&& a.evaluation is Some && trim_spec(a.evaluation->Some_0).len() != 0 ==> contains_spec(
                m,
                "EVALUATION :\n"@ + trim_spec(a.evaluation->Some_0),
            )
            &&& forall|i: int| 0 <= i < d.new_attachments.len() ==> contains_spec(
                m,
                "- "@ + (#[trigger] d.new_attachments[i]).text + " : "@ + d.new_attachments[i].url,
            )
            &&& (m == "Mise a jour detectee sur "@ + page.page_title) <== (
                !(a.fait_en_classe is Some && trim_spec(a.fait_en_classe->Some_0).len() != 0)
                && !(a.a_faire is Some && trim_spec(a.a_faire->Some_0).len() != 0)
                && !(a.evaluation is Some && trim_spec(a.evaluation->Some_0).len() != 0)
                && d.new_attachments.len() == 0)
        }),
{
    let sections = sections_spec(d, a);
    let m = payload_spec(topic, page, d, a).message;
    let k0 = listed(fait_section(a)).len() as int;
    let k1 = k0 + listed(a_faire_section(a)).len();
    let k2 = k1 + listed(evaluation_section(a)).len();
    if fait_section(a) is Some {
        assert(sections[0] == fait_section(a)->Some_0);
        lemma_join_contains_part(sections, "\n\n"@, 0);
    }
    if evaluation_section(a) is Some {
        assert(sections[k1] == evaluation_section(a)->Some_0);
        lemma_join_contains_part(sections, "\n\n"@, k1);
    }
    if d.new_attachments.len() != 0 {
        let lines = d.new_attachments.map_values(|l: LinkView| document_line(l));
        assert(sections[k2] == "NOUVEAUX DOCUMENTS :\n"@ + join_spec(lines, "\n"@));
        lemma_join_contains_part(sections, "\n\n"@, k2);
        assert forall|i: int| 0 <= i < d.new_attachments.len() implies contains_spec(
            m,
            "- "@ + (#[trigger] d.new_attachments[i]).text + " : "@ + d.new_attachments[i].url,
        ) by {
            lemma_join_contains_part(lines, "\n"@, i);
            lemma_contains_suffix("NOUVEAUX DOCUMENTS :\n"@, join_spec(lines, "\n"@), lines[i]);
            lemma_contains_trans(m, sections[k2], lines[i]);
        }
    }
}

/// The address that notifications are posted to.
pub open spec fn endpoint_spec(server_url: Seq<char>) -> Seq<char> {
    trim_end_char_spec(server_url, '/') + "/"@
}

/// `a` followed by `b`.
fn cat(a: &str, b: &str) -> (r: String)
    ensures
        r@ == a@ + b@,
{
    let mut r = owned(a);
    r.append(b);
    r
}

/// The section `head` + trimmed `text`, when `text` holds more than
/// whitespace.
fn section(head: &str, text: &Option<String>) -> (r: Option<String>)
    ensures
        r.deep_view() == (match filled(text.deep_view()) {
            Some(t) => Some(head@ + t),
            None => None,
        }),
{
    match text {
        Some(s) => {
            let t = trim(s.as_str());
            if t.as_str().is_empty() {
                None
            } else {
                Some(cat(head, t.as_str()))
            }
        },
        None => None,
    }
}

impl NtfyNotifier {
    /// A notifier for `topic` on the server at `server_url`, authenticated
    /// by `token` when there is one. It fails when the HTTP client cannot
    /// be set up.
    pub fn new(server_url: String, topic: String, token: Option<String>) -> (r: Result<
        NtfyNotifier,
        ClientError,
    >)
        ensures
            r matches Ok(n) ==> n.server_url() == server_url@ && n.topic() == topic@ && n.token()
                == token.deep_view() && n.timeout_secs() == 20,
    {
        match build_client(20) {
            Ok((client, timeout_secs)) => Ok(
                NtfyNotifier { client, server_url, topic, token, timeout_secs },
            ),
            Err(e) => Err(ClientError::Build(e)),
        }
    }

    /// The request timeout, in seconds, that the client was built with.
    pub closed spec fn timeout_secs(&self) -> u64 {
        self.timeout_secs
    }

    /// The server address.
    pub closed spec fn server_url(&self) -> Seq<char> {
        self.server_url@
    }

    /// The topic.
    pub closed spec fn topic(&self) -> Seq<char> {
        self.topic@
    }

    /// The access token.
    pub closed spec fn token(&self) -> Option<Seq<char>> {
        self.token.deep_view()
    }

    /// The HTTP client held.
    pub closed spec fn client(&self) -> reqwest::Client {
        self.client
    }

    /// The HTTP client that posts the notifications.
    pub fn http_client(&self) -> (r: &reqwest::Client)
        ensures
            *r == self.client(),
    {
        &self.client
    }

    /// The address that notifications are posted to: the server address
    /// without trailing slashes, then one slash.
    pub fn endpoint(&self) -> (r: String)
        ensures
            r@ == endpoint_spec(self.server_url()),
    {
        let mut r = trim_end_char(self.server_url.as_str(), '/');
        r.append("/");
        r
    }

    /// The `Authorization` header value, when there is a token.
    pub fn authorization(&self) -> (r: Option<String>)
        ensures
            r.deep_view() == (match self.token() {
                Some(t) => Some("Bearer "@ + t),
                None => None,
            }),
    {
        match &self.token {
            Some(t) => Some(cat("Bearer ", t.as_str())),
            None => None,
        }
    }

    /// The notification of a change of `page`: its message lists what was
    /// done in class, the homework and its due date, the announced test and
    /// the new documents; its title is the analysis's; a click and the first
    /// button open the page; the first new document is attached and the
    /// first two get a button.
    pub fn build_payload(&self, page: &ParsedPage, diff: &DiffResult, analysis: &AiAnalysis) -> (r:
        NtfyPayload)
        ensures
            r@ == payload_spec(self.topic(), page@, diff@, analysis@),
    {
        let ghost a = analysis@;
        let ghost d = diff@;
        let mut sections: Vec<String> = Vec::new();
        let fait = section("FAIT EN CLASSE :\n", &analysis.fait_en_classe);
        if let Some(s) = fait {
            sections.push(s);
        }
        assert(sections.deep_view() =~= listed(fait_section(a)));
        let ghost s1 = sections.deep_view();
        if let Some(a_faire) = &analysis.a_faire {
            let t = trim(a_faire.as_str());
            if !t.as_str().is_empty() {
                let due = section(" (pour le ", &analysis.date_echeance);
                let mut head = owned("A FAIRE");
                if let Some(dd) = due {
                    head.append(dd.as_str());
                    head.append(")");
                }
                assert(head@ == "A FAIRE"@ + due_note(a));
                head.append(" :\n");
                head.append(t.as_str());
                sections.push(head);
            }
        }
        assert(sections.deep_view() =~= s1 + listed(a_faire_section(a)));
        let ghost s2 = sections.deep_view();
        let eval = section("EVALUATION :\n", &analysis.evaluation);
        if let Some(s) = eval {
            sections.push(s);
        }
        assert(sections.deep_view() =~= s2 + listed(evaluation_section(a)));
        let ghost s3 = sections.deep_view();
        if diff.new_attachments.len() != 0 {
            let mut lines: Vec<String> = Vec::new();
            let mut i: usize = 0;
            while i < diff.new_attachments.len()
                invariant
                    d == diff@,
                    i <= d.new_attachments.len(),
                    lines.deep_view() == d.new_attachments.take(i as int).map_values(
                        |l: LinkView| document_line(l),
                    ),
                decreases d.new_attachments.len() - i,
            {
                let att = &diff.new_attachments[i];
                let mut line = cat("- ", att.text.as_str());
                line.append(" : ");
                line.append(att.url.as_str());
                let ghost before = lines.deep_view();
                lines.push(line);
                assert(lines.deep_view() =~= d.new_attachments.take(i + 1).map_values(
                    |l: LinkView| document_line(l),
                )) by {
                    assert(lines.deep_view() =~= before.push(document_line(att@)));
                }
                i = i + 1;
            }
            assert(d.new_attachments.take(i as int) =~= d.new_attachments);
            let joined = join(&lines, "\n");
            sections.push(cat("NOUVEAUX DOCUMENTS :\n", joined.as_str()));
        }
        assert(sections.deep_view() =~= s3 + listed(documents_section(d)));
        assert(sections.deep_view() =~= sections_spec(d, a));
        let msg = if sections.len() == 0 {
            cat("Mise a jour detectee sur ", page.page_title.as_str())
        } else {
            join(&sections, "\n\n")
        };
        let title = if analysis.title.as_str().is_empty() {
            page.page_title.clone()
        } else {
            analysis.title.clone()
        };
        let mut payload = NtfyPayload::new(self.topic.as_str(), title.as_str(), msg.as_str()).with_priority(
            analysis.priority,
        ).with_click(page.source_url.as_str()).add_action(
            "Ouvrir site",
            page.source_url.as_str(),
        );
        if diff.new_attachments.len() >= 1 {
            let first = &diff.new_attachments[0];
            let label = cat("PDF: ", first.text.as_str());
            payload = payload.with_attachment(first.url.as_str(), Some(first.text.as_str())).add_action(
                label.as_str(),
                first.url.as_str(),
            );
        }
        if diff.new_attachments.len() >= 2 {
            let second = &diff.new_attachments[1];
            let label = cat("PDF 2: ", second.text.as_str());
            payload = payload.add_action(label.as_str(), second.url.as_str());
        }
        payload
    }
}

} // verus!
