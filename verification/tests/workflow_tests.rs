use didrit_watcher::ai::{
    AiAnalysis, GeminiClient, GeminiResponseBody, GeminiResponseCandidate,
    GeminiResponseCandidateContent, GeminiResponseCandidatePart, PromptBuilder,
};
use didrit_watcher::config::{AppConfig, ConfigError, ConfigVars};
use didrit_watcher::diff::{DiffEngine, DiffResult};
use didrit_watcher::notifier::{NtfyNotifier, NtfyPayload};
use didrit_watcher::parser::{AttachmentLink, CahierEntry, CoursEntry, DevoirEntry, ParsedPage};
use didrit_watcher::service::{fallback_analysis, PageOutcome, WatcherService};
use didrit_watcher::storage::{AppState, PageState};

const URL: &str = "https://www.didrit.fr/Maths_TE.htm";

fn link(text: &str, url: &str) -> AttachmentLink {
    AttachmentLink { text: text.to_string(), url: url.to_string() }
}

fn page(hash: &str, cahier: &str, devoir: &str, attachments: Vec<AttachmentLink>) -> ParsedPage {
    ParsedPage {
        source_url: URL.to_string(),
        page_title: "Maths".to_string(),
        cahier_entries: vec![CahierEntry { raw_text: cahier.to_string(), links: Vec::new() }],
        devoir_entries: vec![DevoirEntry { raw_text: devoir.to_string(), links: Vec::new() }],
        cours_entries: vec![CoursEntry { title: "Ch.1 Suites".to_string(), links: vec![link("c", "https://x/c.pdf")] }],
        all_attachments: attachments,
        full_content_hash: hash.to_string(),
    }
}

fn vars() -> ConfigVars {
    ConfigVars {
        gemini_api_key: Some("key".to_string()),
        gemini_model: None,
        ntfy_url: None,
        ntfy_topic: None,
        ntfy_token: None,
        target_urls: None,
        check_interval_seconds: None,
        state_file_path: None,
        run_once: None,
    }
}

fn quiet_diff() -> DiffResult {
    DiffResult {
        has_changes: true,
        is_first_run: false,
        new_attachments: Vec::new(),
        previous_cahier_text: None,
        current_cahier_text: None,
        previous_devoir_text: None,
        current_devoir_text: None,
        new_cours: Vec::new(),
    }
}

#[test]
fn test_config_defaults() {
    let c = AppConfig::from_vars(vars()).unwrap();
    assert_eq!(c.gemini_api_key, "key");
    assert_eq!(c.gemini_model, "gemini-2.5-flash-lite");
    assert_eq!(c.ntfy_url, "https://ntfy.sh");
    assert_eq!(c.ntfy_topic, "didrit");
    assert_eq!(c.ntfy_token, None);
    assert_eq!(c.target_urls, vec!["https://www.didrit.fr/Maths_TE.htm".to_string(), "https://www.didrit.fr/Maths_T.htm".to_string()]);
    assert_eq!(c.check_interval_secs, 3600);
    assert_eq!(c.state_file_path, "state.json");
    assert!(!c.run_once);
}

#[test]
fn test_config_values_and_errors() {
    let mut v = vars();
    v.gemini_api_key = None;
    assert_eq!(AppConfig::from_vars(v).unwrap_err(), ConfigError::MissingApiKey);
    let mut v = vars();
    v.target_urls = Some(" , ".to_string());
    assert_eq!(AppConfig::from_vars(v).unwrap_err(), ConfigError::NoTargetUrls);
    let mut v = vars();
    v.ntfy_token = Some("  ".to_string());
    v.check_interval_seconds = Some("+60".to_string());
    v.run_once = Some("TRUE".to_string());
    let c = AppConfig::from_vars(v).unwrap();
    assert_eq!(c.ntfy_token, None);
    assert_eq!(c.check_interval_secs, 60);
    assert!(c.run_once);
    let mut v = vars();
    v.ntfy_token = Some(" tok ".to_string());
    v.check_interval_seconds = Some("soon".to_string());
    v.run_once = Some("1".to_string());
    let c = AppConfig::from_vars(v).unwrap();
    assert_eq!(c.ntfy_token.as_deref(), Some(" tok "));
    assert_eq!(c.check_interval_secs, 3600);
    assert!(c.run_once);
    let mut v = vars();
    v.run_once = Some("yes".to_string());
    assert!(!AppConfig::from_vars(v).unwrap().run_once);
}

#[test]
fn test_diff_reports_cours_and_devoir_changes() {
    let mut state = AppState::default();
    state.update_page(URL, "h1".into(), vec![], vec![], "cahier".into(), "devoir".into());
    let current = page("h2", "cahier", "devoir 2", vec![]);
    let diff = DiffEngine::compute(state.get_page(URL), &current);
    assert!(diff.has_changes);
    assert_eq!(diff.current_cahier_text, None);
    assert_eq!(diff.previous_devoir_text.as_deref(), Some("devoir"));
    assert_eq!(diff.current_devoir_text.as_deref(), Some("devoir 2"));
    assert_eq!(diff.new_cours.len(), 1);
    assert_eq!(diff.new_cours[0].title, "Ch.1 Suites");
}

#[test]
fn test_diff_same_content_other_digest_reports_nothing() {
    let mut state = AppState::default();
    state.update_page(URL, "h1".into(), vec!["https://x/a.pdf".into()], vec!["Ch.1 Suites".into()], "c".into(), "d".into());
    let current = page("h2", "c", "d", vec![link("a", "https://x/a.pdf")]);
    let diff = DiffEngine::compute(state.get_page(URL), &current);
    assert!(!diff.has_changes);
    assert!(!diff.is_first_run);
}

#[test]
fn test_storage_update_replaces_and_keeps_others() {
    let mut state = AppState::default();
    state.update_page("a", "1".into(), vec![], vec![], "x".into(), "y".into());
    state.update_page("b", "2".into(), vec![], vec![], "x".into(), "y".into());
    state.update_page("a", "3".into(), vec![], vec![], "z".into(), "y".into());
    assert_eq!(state.get_page("a").unwrap().last_hash, "3");
    assert_eq!(state.get_page("a").unwrap().url, "a");
    assert_eq!(state.get_page("b").unwrap().last_hash, "2");
    assert!(state.get_page("c").is_none());
    assert!(state.get_page("a").unwrap().last_checked_at.ends_with("+00:00"));
    assert!(state.get_page("a").unwrap().last_checked_at.len() >= 25);
    assert_eq!(state.entries().len(), 2);
}

#[test]
fn test_storage_entries_round_trip() {
    let mut first = PageState::default();
    first.last_hash = "old".into();
    let mut second = PageState::default();
    second.last_hash = "new".into();
    let state = AppState::from_entries(vec![("u".into(), first), ("u".into(), second), ("v".into(), PageState::default())]);
    assert_eq!(state.get_page("u").unwrap().last_hash, "new");
    let again = AppState::from_entries(state.entries());
    assert_eq!(again.entries().len(), 2);
    assert_eq!(again.get_page("u").unwrap().last_hash, "new");
    let mut state = AppState::default();
    state.update_page_at(URL, "h".into(), vec![], vec![], "c".into(), "d".into(), "2026-01-01T00:00:00+00:00".into());
    assert_eq!(state.get_page(URL).unwrap().last_checked_at, "2026-01-01T00:00:00+00:00");
}

#[test]
fn test_payload_limits() {
    let p = NtfyPayload::new("t", "T", "M").with_priority(0);
    assert_eq!(p.priority, 1);
    assert!(p.markdown);
    assert!(p.actions.is_empty());
    let p = p.with_priority(9).add_action("1", "u1").add_action("2", "u2").add_action("3", "u3").add_action("4", "u4");
    assert_eq!(p.priority, 5);
    assert_eq!(p.actions.len(), 3);
    assert_eq!(p.actions[2].label, "3");
    assert_eq!(p.actions[0].action, "view");
    assert_eq!(p.actions[0].clear, Some(false));
    let p = p.with_attachment("https://x/a.pdf", None);
    assert_eq!(p.filename, None);
}

#[test]
fn test_build_payload_without_sections() {
    let notifier = NtfyNotifier::new("https://ntfy.sh//".into(), "topic".into(), Some("tok".into())).unwrap();
    assert_eq!(notifier.endpoint(), "https://ntfy.sh/");
    assert_eq!(notifier.authorization().as_deref(), Some("Bearer tok"));
    let parsed = page("h", "c", "d", vec![]);
    let mut analysis = AiAnalysis::default();
    analysis.fait_en_classe = Some("   ".into());
    analysis.evaluation = Some(" DS lundi ".into());
    analysis.priority = 7;
    let payload = notifier.build_payload(&parsed, &quiet_diff(), &analysis);
    assert_eq!(payload.title, "Maths");
    assert_eq!(payload.topic, "topic");
    assert_eq!(payload.message, "EVALUATION :\nDS lundi");
    assert_eq!(payload.priority, 5);
    assert_eq!(payload.actions.len(), 1);
    assert_eq!(payload.actions[0].label, "Ouvrir site");
    assert_eq!(payload.attach, None);
    analysis.evaluation = None;
    let payload = notifier.build_payload(&parsed, &quiet_diff(), &analysis);
    assert_eq!(payload.message, "Mise a jour detectee sur Maths");
}

#[test]
fn test_build_payload_two_documents() {
    let notifier = NtfyNotifier::new("https://ntfy.sh".into(), "didrit".into(), None).unwrap();
    assert_eq!(notifier.authorization(), None);
    let parsed = page("h", "c", "d", vec![]);
    let mut diff = quiet_diff();
    diff.new_attachments = vec![link("A", "https://x/a.pdf"), link("B", "https://x/b.pdf"), link("C", "https://x/c.pdf")];
    let mut analysis = AiAnalysis::default();
    analysis.title = "Titre".into();
    analysis.a_faire = Some("Ex 1".into());
    analysis.date_echeance = Some(" ".into());
    let payload = notifier.build_payload(&parsed, &diff, &analysis);
    assert_eq!(
        payload.message,
        "A FAIRE :\nEx 1\n\nNOUVEAUX DOCUMENTS :\n- A : https://x/a.pdf\n- B : https://x/b.pdf\n- C : https://x/c.pdf"
    );
    assert_eq!(payload.attach.as_deref(), Some("https://x/a.pdf"));
    assert_eq!(payload.filename.as_deref(), Some("A"));
    let labels: Vec<&str> = payload.actions.iter().map(|a| a.label.as_str()).collect();
    assert_eq!(labels, vec!["Ouvrir site", "PDF: A", "PDF 2: B"]);
    assert_eq!(payload.click.as_deref(), Some(URL));
}

#[test]
fn test_prompt_and_request() {
    let parsed = page("h", "c", "d", vec![]);
    let mut diff = quiet_diff();
    diff.current_cahier_text = Some("Ex 2".into());
    diff.previous_cahier_text = Some("Ex 1".into());
    let prompt = PromptBuilder::build(&parsed, &diff);
    assert!(prompt.starts_with("Tu es un parseur strict"));
    assert!(prompt.contains("Matiere/Page : Maths\nURL : https://www.didrit.fr/Maths_TE.htm\n\n=== CAHIER DE TEXTE ACTUEL ===\nEx 2\n\n=== CAHIER DE TEXTE PRECEDENT (POUR COMPARER LE DELTA) ===\nEx 1\n\n=== NOUVEAUX FICHIERS JOINTS DETECTES ===\n(Aucun"));
    assert!(!prompt.contains("DEVOIRS / INTERROGATIONS"));
    assert!(prompt.ends_with("mets null dans 'a_faire' et 'date_echeance'.\n"));
    diff.new_attachments = vec![link("DM", "https://x/dm.pdf")];
    let prompt = PromptBuilder::build(&parsed, &diff);
    assert!(prompt.contains("=== NOUVEAUX FICHIERS JOINTS DETECTES ===\n- DM : https://x/dm.pdf\n\nConsignes"));
    let body = GeminiClient::request_body(&parsed, &diff);
    assert_eq!(body.contents[0].parts[0].text, prompt);
    assert_eq!(body.generation_config.unwrap().response_mime_type, "application/json");
    let client = GeminiClient::new("K".into(), "m-1".into()).unwrap();
    assert_eq!(
        client.request_url(),
        "https://generativelanguage.googleapis.com/v1beta/models/m-1:generateContent?key=K"
    );
}

#[test]
fn test_response_first_text() {
    let body = GeminiResponseBody {
        candidates: Some(vec![GeminiResponseCandidate {
            content: Some(GeminiResponseCandidateContent {
                parts: Some(vec![GeminiResponseCandidatePart { text: Some("{}".into()) }]),
            }),
        }]),
    };
    assert_eq!(body.first_text().as_deref(), Some("{}"));
    assert_eq!(GeminiResponseBody { candidates: Some(Vec::new()) }.first_text(), None);
    assert_eq!(GeminiResponseBody { candidates: None }.first_text(), None);
}

#[test]
fn test_service_second_check_is_quiet() {
    let config = AppConfig::from_vars(vars()).unwrap();
    let mut service = WatcherService::new(config).unwrap();
    assert!(service.state().entries().is_empty());
    let parsed = page("h1", "c", "d", vec![link("a", "https://x/a.pdf")]);
    assert!(matches!(service.observe_page(URL, &parsed), PageOutcome::FirstRun));
    assert!(matches!(service.observe_page(URL, &parsed), PageOutcome::Unchanged));
    let changed = page("h2", "c2", "d", vec![link("a", "https://x/a.pdf"), link("b", "https://x/b.pdf")]);
    match service.observe_page(URL, &changed) {
        PageOutcome::Changed(diff) => {
            assert_eq!(diff.new_attachments, vec![link("b", "https://x/b.pdf")]);
            let fallback = fallback_analysis(&changed, &diff);
            assert_eq!(fallback.title, "Mise a jour : Maths");
            assert_eq!(fallback.fait_en_classe.as_deref(), Some("c2"));
            assert_eq!(fallback.evaluation, None);
            assert_eq!(fallback.nouveaux_documents, vec!["b".to_string()]);
            assert_eq!(fallback.priority, 3);
        }
        other => panic!("unexpected {:?}", other),
    }
    assert!(matches!(service.observe_page(URL, &changed), PageOutcome::Unchanged));
    assert_eq!(service.state().get_page(URL).unwrap().known_attachments.len(), 2);
    assert_eq!(service.state().get_page(URL).unwrap().last_cahier_text, "c2");
}

#[test]
fn test_service_restores_state() {
    let config = AppConfig::from_vars(vars()).unwrap();
    let mut service = WatcherService::new(config).unwrap();
    let mut state = AppState::default();
    let parsed = page("h1", "c", "d", vec![]);
    state.update_page(URL, "h1".into(), vec![], vec!["Ch.1 Suites".into()], "c".into(), "d".into());
    service.restore_state(state);
    assert!(matches!(service.observe_page(URL, &parsed), PageOutcome::Unchanged));
    assert_eq!(service.config().ntfy_topic, "didrit");
}
