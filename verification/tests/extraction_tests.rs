use didrit_watcher::fetcher::HttpFetcher;
use didrit_watcher::parser::dom::{DomAnchor, DomElement};
use didrit_watcher::parser::{AttachmentLink, HtmlExtractor};

const BASE: &str = "https://www.didrit.fr/Maths_TE.htm";

fn anchor(href: &str, text: &str) -> DomAnchor {
    DomAnchor { href: Some(href.to_string()), texts: vec![text.to_string()] }
}

fn block(texts: &[&str], anchors: Vec<DomAnchor>) -> DomElement {
    DomElement {
        href: None,
        texts: texts.iter().map(|t| t.to_string()).collect(),
        anchors,
    }
}

#[test]
fn test_content_hash_is_sha256_hex() {
    let parsed = HtmlExtractor::parse("", BASE);
    assert_eq!(
        parsed.full_content_hash,
        "e3b0c44298fc1c149afbf4c8996fb92427ae41e4649b934ca495991b7852b855"
    );
    let parsed = HtmlExtractor::parse("abc", BASE);
    assert_eq!(
        parsed.full_content_hash,
        "ba7816bf8f01cfea414140de5dae2223b00361a396177a9cb410ff61f20015ad"
    );
    assert_eq!(parsed.source_url, BASE);
}

#[test]
fn test_title_fallbacks() {
    let parsed = HtmlExtractor::parse("<html><head><title> Cours </title></head><body><h1>  </h1></body></html>", BASE);
    assert_eq!(parsed.page_title, "Cours");
    let parsed = HtmlExtractor::parse("<p>rien</p>", BASE);
    assert_eq!(parsed.page_title, "Maths");
    let parsed = HtmlExtractor::parse("<h1>Terminale <b>Maths</b></h1><title>T</title>", BASE);
    assert_eq!(parsed.page_title, "Terminale  Maths");
}

#[test]
fn test_resolve_url() {
    assert_eq!(HtmlExtractor::resolve_url("  https://a.fr/b.pdf ", BASE), "https://a.fr/b.pdf");
    assert_eq!(
        HtmlExtractor::resolve_url("Files/x.pdf", BASE),
        "https://www.didrit.fr/Files/x.pdf"
    );
    assert_eq!(HtmlExtractor::resolve_url("../up.pdf", "https://h.fr/a/b/c.htm"), "https://h.fr/a/up.pdf");
    assert_eq!(HtmlExtractor::resolve_url(" Files/x.pdf ", "not a url"), "Files/x.pdf");
}

#[test]
fn test_attachments_deduplicated_and_labelled() {
    let html = r#"<a href="Docs/A.PDF">Sujet</a>
        <a href="Docs/A.PDF">Sujet</a>
        <a href="Docs/b.docx"></a>
        <a href="page.htm">Page</a>
        <a href="script.py">  </a>"#;
    let parsed = HtmlExtractor::parse(html, BASE);
    assert_eq!(
        parsed.all_attachments,
        vec![
            AttachmentLink { text: "Sujet".into(), url: "https://www.didrit.fr/Docs/A.PDF".into() },
            AttachmentLink { text: "b.docx".into(), url: "https://www.didrit.fr/Docs/b.docx".into() },
            AttachmentLink { text: "script.py".into(), url: "https://www.didrit.fr/script.py".into() },
        ]
    );
}

#[test]
fn test_cahier_takes_first_matching_block_only() {
    let els = vec![
        block(&["Lundi : rien"], vec![]),
        block(&["Mardi 15/09 :", "Cor. Ch.2  Ex. 3\n p 40"], vec![anchor("c.pdf", " corr ")]),
        block(&["Jeudi 17/09 : Cours Ch.3 et exercices"], vec![]),
    ];
    let entries = HtmlExtractor::extract_cahier_entries(&els, BASE);
    assert_eq!(entries.len(), 1);
    assert_eq!(entries[0].raw_text, "Mardi 15/09 : Cor. Ch.2 Ex. 3 p 40");
    assert_eq!(
        entries[0].links,
        vec![AttachmentLink { text: "corr".into(), url: "https://www.didrit.fr/c.pdf".into() }]
    );
    assert!(HtmlExtractor::extract_cahier_entries(&els[..1].to_vec(), BASE).is_empty());
}

#[test]
fn test_devoir_entries_filtered() {
    let els = vec![
        block(&["17/10/2026 Devoir - 2h"], vec![anchor("d.pdf", "")]),
        block(&["Devoir sans date"], vec![]),
        block(&["Interrogation le ../../2026"], vec![]),
        block(&["Bac Blanc 2027", &"x".repeat(2000)], vec![]),
    ];
    let entries = HtmlExtractor::extract_devoir_entries(&els, BASE);
    assert_eq!(entries.len(), 2);
    assert_eq!(entries[0].raw_text, "17/10/2026 Devoir - 2h");
    assert_eq!(entries[0].links[0].text, "https://www.didrit.fr/d.pdf");
    assert_eq!(entries[1].raw_text, "Interrogation le ../../2026");
}

#[test]
fn test_cours_entries_need_keyword_and_links() {
    let els = vec![
        block(&["COURS de suites"], vec![anchor("s.pdf", "cours")]),
        block(&["Ch.2 Limites "], vec![anchor("l.pdf", "pdf")]),
        block(&["Cours sans lien"], vec![]),
        block(&["Autre"], vec![anchor("o.pdf", "o")]),
    ];
    let entries = HtmlExtractor::extract_cours_entries(&els, BASE);
    assert_eq!(entries.len(), 2);
    assert_eq!(entries[0].title, "COURS de suites");
    assert_eq!(entries[1].title, "Ch.2 Limites");
}

#[test]
fn test_parse_reads_blocks_and_their_links() {
    let html = r#"<div class="OEWEText">Vendredi 11/09 :
        Cor. Ch.1 Ex. 27 <a href="c.pdf">Corrige</a> <a>sans lien</a> <a href=" https://y.fr/z.pdf "></a></div>
        <ul><li>Cours Ch.1 <a href="Ch1.pdf">cours</a></li><li>Rien</li></ul>"#;
    let parsed = HtmlExtractor::parse(html, BASE);
    assert_eq!(parsed.cahier_entries.len(), 1);
    assert_eq!(
        parsed.cahier_entries[0].raw_text,
        "Vendredi 11/09 : Cor. Ch.1 Ex. 27 Corrige sans lien"
    );
    assert_eq!(
        parsed.cahier_entries[0].links,
        vec![
            AttachmentLink { text: "Corrige".into(), url: "https://www.didrit.fr/c.pdf".into() },
            AttachmentLink { text: "https://y.fr/z.pdf".into(), url: "https://y.fr/z.pdf".into() },
        ]
    );
    assert_eq!(parsed.cours_entries.len(), 1);
    assert_eq!(parsed.cours_entries[0].title, "Cours Ch.1  cours");
    assert!(parsed.devoir_entries.is_empty());
}

#[test]
fn test_decode_bytes_encodings() {
    let latin = b"caf\xe9";
    assert_eq!(HttpFetcher::decode_bytes(latin, "text/html; charset=iso-8859-1"), "café");
    assert_eq!(HttpFetcher::decode_bytes("café".as_bytes(), "text/html"), "café");
    assert_eq!(HttpFetcher::decode_bytes(latin, ""), "café");
    assert_eq!(HttpFetcher::decode_bytes(b"\x80", "text/html; charset=windows-1252"), "€");
    assert_eq!(HttpFetcher::decode_body(latin, "text/html; charset=ISO-8859-1"), "café");
    assert_eq!(HttpFetcher::decode_bytes("é".as_bytes(), "latin1"), "Ã©");
}
