use iaudit::blunder::DocumentError;
use iaudit::blunder::ErrorChain;
use iaudit::blunder::ParseError;
use iaudit::blunder::errorchain;
use iaudit::business::Document;
use iaudit::business::UploadDomainRequest;
use iaudit::document::DocumentName;
use iaudit::payload::Value;
use iaudit::settings::Environment;
use iaudit::settings::ItoolsSettings;
use iaudit::store::Condition;
use iaudit::store::Filter;
use iaudit::store::MinShould;

fn itools() -> ItoolsSettings {
    ItoolsSettings {
        proxy_timeout: 30,
        proxy_address: "http://tools.internal:8000".to_string(),
        word_to_pdf: "/convert/word2pdf".to_string(),
        pdf_to_html: "/convert/pdf2html".to_string(),
        excel_reader: "/read/excel".to_string(),
        docx_reader: "/read/docx".to_string(),
        pdf_reader: "/read/pdf".to_string(),
        splitter: "/split".to_string(),
        reranker: "/rerank".to_string(),
        embedding: "/embed".to_string(),
    }
}

#[test]
fn proxy_addresses_join_prefix_and_path() {
    let itools = itools();
    assert_eq!(itools.word_to_pdf_proxy(), "http://tools.internal:8000/convert/word2pdf");
    assert_eq!(itools.pdf_to_html_proxy(), "http://tools.internal:8000/convert/pdf2html");
    assert_eq!(itools.excel_reader_proxy(), "http://tools.internal:8000/read/excel");
    assert_eq!(itools.docx_reader_proxy(), "http://tools.internal:8000/read/docx");
    assert_eq!(itools.pdf_reader_proxy(), "http://tools.internal:8000/read/pdf");
    assert_eq!(itools.splitter_proxy(), "http://tools.internal:8000/split");
    assert_eq!(itools.reranker_proxy(), "http://tools.internal:8000/rerank");
    assert_eq!(itools.embedding_proxy(), "http://tools.internal:8000/embed");
}

#[test]
fn environment_parses_and_prints() {
    assert_eq!(Environment::parse("local"), Ok(Environment::Local));
    assert_eq!(Environment::parse("LOCAL"), Ok(Environment::Local));
    assert_eq!(Environment::parse("Production"), Ok(Environment::Production));
    assert_eq!(Environment::Local.as_str(), "local");
    assert_eq!(Environment::Production.as_str(), "production");
    assert_eq!(
        Environment::parse("staging"),
        Err("staging is not a supported environment. Use either 'local' or 'production'".to_string())
    );
}

#[test]
fn validation_errors_are_client_errors() {
    assert_eq!(DocumentError::ValidationError(ParseError::MissingFileName).status_code(), 400);
    assert_eq!(
        DocumentError::UnexpectedError(ErrorChain::root("boom".to_string())).status_code(),
        500
    );
}

#[test]
fn parse_error_messages_name_the_failure() {
    assert_eq!(ParseError::MissingFileName.message(), "文件名缺失");
    assert_eq!(ParseError::MissingExtension.message(), "扩展名缺失");
    assert_eq!(ParseError::InvalidExtension.message(), "扩展名无效");
}

#[test]
fn errorchain_renders_causes_and_stops_at_repeats() {
    let chain = vec!["top".to_string(), "middle".to_string(), "root".to_string()];
    assert_eq!(errorchain(&chain), "Caused by:\n\tmiddle\nCaused by:\n\troot\n");
    // A cause repeating the top message ends the walk.
    let repeating = vec!["top".to_string(), "top".to_string(), "root".to_string()];
    assert_eq!(errorchain(&repeating), "");
    assert_eq!(errorchain(&vec!["alone".to_string()]), "");
    assert_eq!(errorchain(&Vec::new()), "");
}

#[test]
fn error_context_wraps_outermost_first() {
    let chain = ErrorChain::root("io failure".to_string())
        .context("while reading".to_string())
        .context("while converting".to_string());
    assert_eq!(
        chain.messages,
        vec![
            "while converting".to_string(),
            "while reading".to_string(),
            "io failure".to_string(),
        ]
    );
    assert_eq!(chain.duplicate(), chain);
}

fn upload(area: &str) -> UploadDomainRequest {
    UploadDomainRequest {
        name: DocumentName::parse("rules.pdf".to_string()).unwrap(),
        uuid: "u-7".to_string(),
        date: "2024-05-01".to_string(),
        head: "标题".to_string(),
        hold: "审计部".to_string(),
        area: area.to_string(),
        stem: "来源".to_string(),
    }
}

fn entries(value: Value) -> Vec<(String, Value)> {
    match value {
        Value::Hash(entries) => entries,
        other => panic!("expected a map, got {:?}", other),
    }
}

#[test]
fn document_payload_holds_fixed_fields_and_area_tags() {
    let document = Document::from_upload(&upload("audit/finance//it"));
    let entries = entries(document.value());
    let expected = vec![
        ("fileuuid".to_string(), Value::Str("u-7".to_string())),
        ("filename".to_string(), Value::Str("rules.pdf".to_string())),
        ("filedate".to_string(), Value::Str("2024-05-01".to_string())),
        ("filehead".to_string(), Value::Str("标题".to_string())),
        ("filehold".to_string(), Value::Str("审计部".to_string())),
        ("filestem".to_string(), Value::Str("来源".to_string())),
        ("audit".to_string(), Value::I64(1)),
        ("finance".to_string(), Value::I64(1)),
        ("it".to_string(), Value::I64(1)),
    ];
    assert_eq!(entries, expected);
}

#[test]
fn document_update_merges_and_overwrites() {
    let mut document = Document::from_upload(&upload(""));
    document.update(&Value::Hash(vec![
        ("filename".to_string(), Value::Str("renamed.pdf".to_string())),
        ("chapter".to_string(), Value::Str("第一章".to_string())),
    ]));
    // A non-map value changes nothing.
    document.update(&Value::I64(5));
    let entries = entries(document.value());
    assert_eq!(entries[1], ("filename".to_string(), Value::Str("renamed.pdf".to_string())));
    assert_eq!(
        entries.last().unwrap(),
        &("chapter".to_string(), Value::Str("第一章".to_string()))
    );
}

#[test]
fn document_snapshots_are_independent() {
    let mut document = Document::from_upload(&upload(""));
    let before = document.value();
    document.update(&Value::Hash(vec![(
        "article".to_string(),
        Value::Str("第一条".to_string()),
    )]));
    let after = document.value();
    assert_ne!(before, after, "the merge must be visible in a later snapshot");
    assert_eq!(entries(before).len() + 1, entries(after).len());
}

#[test]
fn filter_builders_set_each_clause() {
    let filter = Filter::new();
    assert!(filter.must.is_empty());
    assert!(filter.must_not.is_empty());
    assert!(filter.should.is_empty());
    assert!(filter.min_should.is_none());

    let filter = Filter::new()
        .must_filter(vec![Condition::match_text("source".to_string(), "source11".to_string())])
        .must_not_filter(vec![Condition::match_truth("archived".to_string(), true)])
        .should_filter(vec![Condition::match_integer("year".to_string(), 2024)])
        .min_should_filter(Some(MinShould {
            conditions: vec![Condition::match_text("owner".to_string(), "audit".to_string())],
            min_count: 1,
        }));
    assert_eq!(filter.must.len(), 1);
    assert!(matches!(
        &filter.must[0],
        Condition::MatchText { field, text } if field == "source" && text == "source11"
    ));
    assert_eq!(filter.must_not.len(), 1);
    assert_eq!(filter.should.len(), 1);
    assert_eq!(filter.min_should.as_ref().unwrap().min_count, 1);
}
