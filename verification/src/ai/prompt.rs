//! The instructions sent to the model for one page change.
use vstd::prelude::*;

use crate::diff::engine::{DiffResult, DiffView};
use crate::parser::model::{LinkView, ParsedPage, ParsedPageView};
use crate::text::{
    concat_spec, contains_spec, lemma_concat_contains_part, lemma_contains_middle,
    lemma_contains_prefix, lemma_contains_suffix, lemma_contains_trans,
};

verus! {

/// The role given to the model.
pub const INTRO_ROLE: &'static str = "Tu es un parseur strict qui extrait les nouvelles informations d'un site de maths de lycee.\n";
/// What the model is to extract.
pub const INTRO_TASK: &'static str = "Tu dois analyser la difference entre l'ancienne et la nouvelle version de la page et extraire UNIQUEMENT les faits nouveaux et concrets.\n";
/// The ban on filler sentences.
pub const INTRO_NO_FILLER: &'static str = "Ne fais AUCUNE phrase de remplissage (bannis absolument les formulations comme 'Mise a jour du cahier de texte avec l'avancement...').\n";
/// The demand for a JSON answer.
pub const INTRO_JSON: &'static str = "Retourne exclusivement un JSON valide avec cette structure exacte :\n";
/// The opening of the answer schema.
pub const SCHEMA_OPEN: &'static str = "{\n";
/// The title field of the answer schema.
pub const SCHEMA_TITLE: &'static str = "  \"title\": \"Matiere : Seance du [Date de la seance, ex: Vendredi 11/09]\",\n";
/// The done-in-class field of the answer schema.
pub const SCHEMA_FAIT: &'static str = "  \"fait_en_classe\": \"Resume ultra-court des exercices corriges et notions vues (ex: Cor. Ch.1 Ex 27, 28 p 27 + Cours Ch.1-III)\",\n";
/// The homework field of the answer schema.
pub const SCHEMA_A_FAIRE: &'static str = "  \"a_faire\": \"Exercices ou travail a faire pour la prochaine seance (ex: Chercher Ch.1 Ex 56, 61 p 29)\",\n";
/// The due-date field of the answer schema.
pub const SCHEMA_ECHEANCE: &'static str = "  \"date_echeance\": \"Date pour laquelle le travail est demande (ex: Lundi 14/09)\",\n";
/// The test field of the answer schema.
pub const SCHEMA_EVALUATION: &'static str = "  \"evaluation\": \"Annonce ou sujet de DS/DM/Interro si present, sinon null\",\n";
/// The new-documents field of the answer schema.
pub const SCHEMA_DOCUMENTS: &'static str = "  \"nouveaux_documents\": [\"Nom du document UNIQUEMENT s'il apparait dans la liste NOUVEAUX FICHIERS JOINTS ci-dessous\"],\n";
/// The priority field of the answer schema.
pub const SCHEMA_PRIORITY: &'static str = "  \"priority\": 3\n";
/// The closing of the answer schema.
pub const SCHEMA_CLOSE: &'static str = "}\n\n";
/// The heading of the current class log.
pub const CAHIER_CURRENT_HEAD: &'static str = "=== CAHIER DE TEXTE ACTUEL ===\n";
/// The heading of the previous class log.
pub const CAHIER_PREVIOUS_HEAD: &'static str = "=== CAHIER DE TEXTE PRECEDENT (POUR COMPARER LE DELTA) ===\n";
/// The heading of the current tests.
pub const DEVOIR_CURRENT_HEAD: &'static str = "=== DEVOIRS / INTERROGATIONS ACTUEL ===\n";
/// The heading of the new attachments.
pub const ATTACHMENTS_HEAD: &'static str = "=== NOUVEAUX FICHIERS JOINTS DETECTES ===\n";
/// The notice that there is no new attachment.
pub const NO_ATTACHMENTS: &'static str = "=== NOUVEAUX FICHIERS JOINTS DETECTES ===\n(Aucun nouveau fichier joint. 'nouveaux_documents' DOIT etre une liste vide [])\n\n";
/// The heading of the formatting rules.
pub const RULES_HEAD: &'static str = "Consignes de formatage strictes :\n";
/// The rule against emoji.
pub const RULE_NO_EMOJI: &'static str = "- Aucun emoji.\n";
/// The rule of concision.
pub const RULE_CONCISE: &'static str = "- Sois concis, factuel et direct.\n";
/// The rule against invented documents.
pub const RULE_NO_INVENTION: &'static str = "- Ne jamais inventer de nouveaux documents s'ils ne sont pas listes dans la section NOUVEAUX FICHIERS JOINTS DETECTES.\n";
/// The rule on empty homework.
pub const RULE_NULLS: &'static str = "- Si aucun travail n'est a faire, mets null dans 'a_faire' et 'date_echeance'.\n";

/// The fixed instructions and answer schema that open every prompt.
pub open spec fn prompt_intro() -> Seq<char> {
    INTRO_ROLE@ + INTRO_TASK@ + INTRO_NO_FILLER@ + INTRO_JSON@ + SCHEMA_OPEN@ + SCHEMA_TITLE@
        + SCHEMA_FAIT@ + SCHEMA_A_FAIRE@ + SCHEMA_ECHEANCE@ + SCHEMA_EVALUATION@
        + SCHEMA_DOCUMENTS@ + SCHEMA_PRIORITY@ + SCHEMA_CLOSE@
}

/// The fixed formatting rules that close every prompt.
pub open spec fn prompt_rules() -> Seq<char> {
    RULES_HEAD@ + RULE_NO_EMOJI@ + RULE_CONCISE@ + RULE_NO_INVENTION@ + RULE_NULLS@
}

/// A headed block holding `text`, or nothing.
pub open spec fn text_block(head: Seq<char>, text: Option<Seq<char>>) -> Seq<char> {
    match text {
        Some(t) => head + t + "\n\n"@,
        None => seq![],
    }
}

/// The line that lists one new attachment.
pub open spec fn attachment_line(l: LinkView) -> Seq<char> {
    "- "@ + l.text + " : "@ + l.url + "\n"@
}

/// The block that lists the new attachments, or says there is none.
pub open spec fn attachments_block(d: DiffView) -> Seq<char> {
    if d.new_attachments.len() != 0 {
        ATTACHMENTS_HEAD@ + concat_spec(d.new_attachments.map_values(|l: LinkView| attachment_line(l)))
            + "\n"@
    } else {
        NO_ATTACHMENTS@
    }
}

/// The prompt for a change of `page`.
pub open spec fn prompt_spec(page: ParsedPageView, d: DiffView) -> Seq<char> {
    prompt_intro() + "Matiere/Page : "@ + page.page_title + "\n"@ + "URL : "@ + page.source_url
        + "\n\n"@ + text_block(CAHIER_CURRENT_HEAD@, d.current_cahier_text) + text_block(
        CAHIER_PREVIOUS_HEAD@,
        d.previous_cahier_text,
    ) + text_block(DEVOIR_CURRENT_HEAD@, d.current_devoir_text) + attachments_block(d)
        + prompt_rules()
}

/// Each of three consecutive blocks occurs in the text that they stand in.
proof fn lemma_blocks_in_text(
    lead: Seq<char>,
    b1: Seq<char>,
    b2: Seq<char>,
    b3: Seq<char>,
    rest: Seq<char>,
    last: Seq<char>,
)
    ensures
        contains_spec(lead + b1 + b2 + b3 + rest + last, b1),
        contains_spec(lead + b1 + b2 + b3 + rest + last, b2),
        contains_spec(lead + b1 + b2 + b3 + rest + last, b3),
{
    let p = lead + b1 + b2 + b3 + rest + last;
    assert(p =~= lead + b1 + (b2 + b3 + rest + last));
    assert(p =~= (lead + b1) + b2 + (b3 + rest + last));
    assert(p =~= (lead + b1 + b2) + b3 + (rest + last));
    lemma_contains_middle(lead, b1, b2 + b3 + rest + last);
    lemma_contains_middle(lead + b1, b2, b3 + rest + last);
    lemma_contains_middle(lead + b1 + b2, b3, rest + last);
}

/// Each changed text of the diff reaches the model: when the current class
/// log, the previous class log or the current tests are given as `t`, the
/// prompt holds their heading, then `t`, then a blank line.
pub proof fn law_changed_texts_in_prompt(page: ParsedPageView, d: DiffView)
    ensures
        d.current_cahier_text matches Some(t) ==> contains_spec(
            prompt_spec(page, d),
            CAHIER_CURRENT_HEAD@ + t + "\n\n"@,
        ),
        d.previous_cahier_text matches Some(t) ==> contains_spec(
            prompt_spec(page, d),
            CAHIER_PREVIOUS_HEAD@ + t + "\n\n"@,
        ),
        d.current_devoir_text matches Some(t) ==> contains_spec(
            prompt_spec(page, d),
            DEVOIR_CURRENT_HEAD@ + t + "\n\n"@,
        ),
{
    lemma_blocks_in_text(
        prompt_intro() + "Matiere/Page : "@ + page.page_title + "\n"@ + "URL : "@ + page.source_url
            + "\n\n"@,
        text_block(CAHIER_CURRENT_HEAD@, d.current_cahier_text),
        text_block(CAHIER_PREVIOUS_HEAD@, d.previous_cahier_text),
        text_block(DEVOIR_CURRENT_HEAD@, d.current_devoir_text),
        attachments_block(d),
        prompt_rules(),
    );
}

/// The pieces of a text made of a lead, a page line, an address line,
/// three blocks, a documents block and a closing occur in it.
proof fn lemma_prompt_pieces(
    lead: Seq<char>,
    page_line: Seq<char>,
    url_line: Seq<char>,
    blocks: Seq<char>,
    documents: Seq<char>,
    last: Seq<char>,
)
    ensures
        contains_spec(lead + page_line + url_line + blocks + documents + last, page_line),
        contains_spec(lead + page_line + url_line + blocks + documents + last, url_line),
        contains_spec(lead + page_line + url_line + blocks + documents + last, documents),
{
    let p = lead + page_line + url_line + blocks + documents + last;
    assert(p =~= lead + page_line + (url_line + blocks + documents + last));
    assert(p =~= (lead + page_line) + url_line + (blocks + documents + last));
    assert(p =~= (lead + page_line + url_line + blocks) + documents + last);
    lemma_contains_middle(lead, page_line, url_line + blocks + documents + last);
    lemma_contains_middle(lead + page_line, url_line, blocks + documents + last);
    lemma_contains_middle(lead + page_line + url_line + blocks, documents, last);
}

/// The prompt names the page by its title and its address, and lists each
/// new attachment on a line "- label : address"; without new attachments
/// it holds the notice that there is none.
pub proof fn law_prompt_names_page_and_documents(page: ParsedPageView, d: DiffView)
    ensures
        contains_spec(prompt_spec(page, d), "Matiere/Page : "@ + page.page_title + "\n"@),
        contains_spec(prompt_spec(page, d), "URL : "@ + page.source_url + "\n\n"@),
        forall|i: int| 0 <= i < d.new_attachments.len() ==> contains_spec(
            prompt_spec(page, d),
            "- "@ + (#[trigger] d.new_attachments[i]).text + " : "@ + d.new_attachments[i].url + "\n"@,
        ),
        d.new_attachments.len() == 0 ==> contains_spec(prompt_spec(page, d), NO_ATTACHMENTS@),
{
    let p = prompt_spec(page, d);
    let page_line = "Matiere/Page : "@ + page.page_title + "\n"@;
    let url_line = "URL : "@ + page.source_url + "\n\n"@;
    let blocks = text_block(CAHIER_CURRENT_HEAD@, d.current_cahier_text) + text_block(
        CAHIER_PREVIOUS_HEAD@,
        d.previous_cahier_text,
    ) + text_block(DEVOIR_CURRENT_HEAD@, d.current_devoir_text);
    let documents = attachments_block(d);
    assert(p =~= prompt_intro() + page_line + url_line + blocks + documents + prompt_rules());
    lemma_prompt_pieces(prompt_intro(), page_line, url_line, blocks, documents, prompt_rules());
    if d.new_attachments.len() != 0 {
        let lines = d.new_attachments.map_values(|l: LinkView| attachment_line(l));
        assert forall|i: int| 0 <= i < d.new_attachments.len() implies contains_spec(
            p,
            "- "@ + (#[trigger] d.new_attachments[i]).text + " : "@ + d.new_attachments[i].url + "\n"@,
        ) by {
            lemma_concat_contains_part(lines, i);
            lemma_contains_prefix(concat_spec(lines), "\n"@, lines[i]);
            lemma_contains_suffix(ATTACHMENTS_HEAD@, concat_spec(lines) + "\n"@, lines[i]);
            assert(ATTACHMENTS_HEAD@ + (concat_spec(lines) + "\n"@) =~= documents);
            lemma_contains_trans(p, documents, lines[i]);
        }
    }
}

/// Builds the prompt sent to the model.
pub struct PromptBuilder;

fn append_block(prompt: &mut String, head: &str, text: &Option<String>)
    ensures
        final(prompt)@ == old(prompt)@ + text_block(head@, text.deep_view()),
{
    if let Some(t) = text {
        prompt.append(head);
        prompt.append(t.as_str());
        prompt.append("\n\n");
    }
}

impl PromptBuilder {
    /// The prompt for a change of `page`: the fixed instructions and answer
    /// schema, the page title and address, the current and previous class
    /// log and the current tests where they changed, the new attachments (or
    /// a notice that there is none), then the formatting rules.
    pub fn build(page: &ParsedPage, diff: &DiffResult) -> (r: String)
        ensures
            r@ == prompt_spec(page@, diff@),
    {
        let ghost d = diff@;
        let mut prompt = String::new();
        prompt.append(INTRO_ROLE);
        prompt.append(INTRO_TASK);
        prompt.append(INTRO_NO_FILLER);
        prompt.append(INTRO_JSON);
        prompt.append(SCHEMA_OPEN);
        prompt.append(SCHEMA_TITLE);
        prompt.append(SCHEMA_FAIT);
        prompt.append(SCHEMA_A_FAIRE);
        prompt.append(SCHEMA_ECHEANCE);
        prompt.append(SCHEMA_EVALUATION);
        prompt.append(SCHEMA_DOCUMENTS);
        prompt.append(SCHEMA_PRIORITY);
        prompt.append(SCHEMA_CLOSE);
        assert(prompt@ =~= prompt_intro());
        prompt.append("Matiere/Page : ");
        prompt.append(page.page_title.as_str());
        prompt.append("\n");
        prompt.append("URL : ");
        prompt.append(page.source_url.as_str());
        prompt.append("\n\n");
        append_block(&mut prompt, CAHIER_CURRENT_HEAD, &diff.current_cahier_text);
        append_block(&mut prompt, CAHIER_PREVIOUS_HEAD, &diff.previous_cahier_text);
        append_block(&mut prompt, DEVOIR_CURRENT_HEAD, &diff.current_devoir_text);
        let ghost before = prompt@;
        if diff.new_attachments.len() != 0 {
            prompt.append(ATTACHMENTS_HEAD);
            let ghost start = prompt@;
            let mut i: usize = 0;
            while i < diff.new_attachments.len()
                invariant
                    d == diff@,
                    i <= d.new_attachments.len(),
                    prompt@ == start + concat_spec(
                        d.new_attachments.take(i as int).map_values(|l: LinkView| attachment_line(l)),
                    ),
                decreases d.new_attachments.len() - i,
            {
                let att = &diff.new_attachments[i];
                prompt.append("- ");
                prompt.append(att.text.as_str());
                prompt.append(" : ");
                prompt.append(att.url.as_str());
                prompt.append("\n");
                proof {
                    let m = d.new_attachments.take(i + 1).map_values(|l: LinkView| attachment_line(l));
                    assert(m.drop_last() =~= d.new_attachments.take(i as int).map_values(
                        |l: LinkView| attachment_line(l),
                    ));
                    assert(m.last() == attachment_line(att@));
                }
                i = i + 1;
            }
            assert(d.new_attachments.take(i as int) =~= d.new_attachments);
            prompt.append("\n");
        } else {
            prompt.append(NO_ATTACHMENTS);
        }
        assert(prompt@ =~= before + attachments_block(d));
        let ghost before_rules = prompt@;
        prompt.append(RULES_HEAD);
        prompt.append(RULE_NO_EMOJI);
        prompt.append(RULE_CONCISE);
        prompt.append(RULE_NO_INVENTION);
        prompt.append(RULE_NULLS);
        assert(prompt@ =~= before_rules + prompt_rules());
        prompt
    }
}

} // verus!
