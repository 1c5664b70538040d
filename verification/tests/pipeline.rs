use iaudit::blunder::ErrorChain;
use iaudit::business::Document;
use iaudit::business::UploadDomainRequest;
use iaudit::cipher::murmurhash64int;
use iaudit::cipher::murmurhash64str;
use iaudit::document::DocumentName;
use iaudit::document::Extension;
use iaudit::payload::Value;
use iaudit::pipeline::Article;
use iaudit::pipeline::DocumentPipeline;
use iaudit::pipeline::ExtractionRequest;
use iaudit::pipeline::PipelineAction;
use iaudit::pipeline::PipelineEvent;
use iaudit::pipeline::PipelineState;
use iaudit::pipeline::SplitOutcome;
use iaudit::pipeline::converted_filepath;
use iaudit::pipeline::document_embedding;
use iaudit::pipeline::document_splitting_local;
use iaudit::pipeline::document_splitting_remote;
use iaudit::pipeline::embedding_request_content;
use iaudit::pipeline::extraction_request;
use iaudit::pipeline::format_errors;
use iaudit::pipeline::point_identifier;
use iaudit::text::u64_to_dec;

fn upload(filename: &str, uuid: &str, area: &str) -> UploadDomainRequest {
    UploadDomainRequest {
        name: DocumentName::parse(filename.to_string()).unwrap(),
        uuid: uuid.to_string(),
        date: "2024-05-01".to_string(),
        head: "采购管理办法".to_string(),
        hold: "审计部".to_string(),
        area: area.to_string(),
        stem: "上传".to_string(),
    }
}

fn field<'a>(value: &'a Value, key: &str) -> &'a Value {
    match value {
        Value::Hash(entries) => {
            &entries
                .iter()
                .find(|(k, _)| k == key)
                .unwrap_or_else(|| panic!("missing field {key}"))
                .1
        }
        other => panic!("expected a map, got {:?}", other),
    }
}

#[test]
fn conversion_swaps_extension_only_for_legacy_word() {
    assert_eq!(converted_filepath("/tmp/u/file.doc", Extension::Doc), "/tmp/u/file.pdf");
    assert_eq!(converted_filepath("/tmp/u/file.docx", Extension::Docx), "/tmp/u/file.docx");
    assert_eq!(converted_filepath("/tmp/u/file.xlsx", Extension::Xlsx), "/tmp/u/file.xlsx");
    // with_extension semantics on odd names
    assert_eq!(converted_filepath("/a.b/c", Extension::Doc), "/a.b/c.pdf");
    assert_eq!(converted_filepath("/a/.hidden", Extension::Doc), "/a/.hidden.pdf");
    assert_eq!(converted_filepath("/a/b.tar.doc", Extension::Doc), "/a/b.tar.pdf");
}

#[test]
fn extraction_routes_by_extension() {
    match extraction_request("/p/a.xls", Extension::Xls) {
        ExtractionRequest::Spreadsheet { filepath, readmode, sheet } => {
            assert_eq!(filepath, "/p/a.xls");
            assert_eq!(readmode, "table");
            assert_eq!(sheet, "");
        }
        other => panic!("expected the spreadsheet reader, got {:?}", other),
    }
    assert!(matches!(
        extraction_request("/p/a.pdf", Extension::Pdf),
        ExtractionRequest::Generic { .. }
    ));
    assert!(matches!(
        extraction_request("/p/a.doc", Extension::Doc),
        ExtractionRequest::Generic { .. }
    ));
    assert!(matches!(
        extraction_request("/p/a.docx", Extension::Docx),
        ExtractionRequest::Docx { .. }
    ));
}

#[test]
fn table_documents_yield_zero_chunks_without_error() {
    for extension in [Extension::Xls, Extension::Xlsx] {
        match document_splitting_local("第一条 甲\n第二条 乙", extension, 1) {
            SplitOutcome::Split(articles) => assert!(articles.is_empty()),
            SplitOutcome::NeedRemote(_) => panic!("a table document never needs the remote strategy"),
        }
    }
}

#[test]
fn chain_failure_reports_both_strategies() {
    let reg = ErrorChain {
        messages: vec![
            "按照法律法规文件的模式来切片失败".to_string(),
            "章节条款总数少于3个".to_string(),
        ],
    };
    let remote = ErrorChain::root("connection refused".to_string());
    let err = document_splitting_remote(reg, Err(remote)).unwrap_err();
    assert_eq!(err.messages.len(), 2);
    assert_eq!(err.messages[0], "Failed to splitting plain document");
    assert_eq!(
        err.messages[1],
        "按照法律法规文件的模式来切片失败\n\tCaused by:\n\t\t章节条款总数少于3个\n\n\t按照自定义递归规则的模式来进行切片失败\n\tCaused by:\n\t\tconnection refused"
    );
}

#[test]
fn remote_slices_become_plain_chunks() {
    let reg = ErrorChain::root("不适用".to_string());
    let articles = document_splitting_remote(
        reg,
        Ok(vec!["第一段".to_string(), "第二段".to_string()]),
    )
    .unwrap();
    assert_eq!(articles.len(), 2);
    assert_eq!(articles[0].article, "第一段");
    assert_eq!(articles[0].chapter, "");
    assert_eq!(articles[0].doctype, "plain");
    assert_eq!(articles[1].article, "第二段");
}

#[test]
fn format_errors_joins_chains_and_blocks() {
    let errors = vec![
        ErrorChain { messages: vec!["a".to_string(), "b".to_string()] },
        ErrorChain { messages: vec!["c".to_string()] },
    ];
    assert_eq!(format_errors(&errors), "a\n\tCaused by:\n\t\tb\n\n\tc");
    assert_eq!(format_errors(&Vec::new()), "");
}

#[test]
fn point_ids_are_deterministic_and_depend_on_uuid_and_text() {
    let article = Article {
        article: "第一条 甲".to_string(),
        chapter: "第一章".to_string(),
        doctype: "plain".to_string(),
    };
    let id1 = point_identifier("uuid-1", &article.article);
    let id2 = point_identifier("uuid-1", &article.article);
    assert_eq!(id1, id2);
    assert_ne!(id1, point_identifier("uuid-2", &article.article));
    assert_ne!(id1, point_identifier("uuid-1", "第二条 乙"));
    // The identifier hashes the concatenation of uuid and chunk text.
    assert_eq!(id1, murmurhash64int("uuid-1第一条 甲"));
}

#[test]
fn murmur_decimal_rendering_matches_the_integer_hash() {
    for s in ["", "a", "uuid第一条", "hello world"] {
        assert_eq!(murmurhash64str(s), murmurhash64int(s).to_string());
    }
}

#[test]
fn identifier_hash_has_known_values() {
    // MurmurHash64A under the fixed seed, computed independently.
    assert_eq!(murmurhash64int("Pizza & Mandolino"), 5129590986815708670);
    assert_eq!(murmurhash64int(""), 15627466953755236146);
    assert_eq!(murmurhash64int("a"), 6039968161137406375);
    assert_eq!(point_identifier("uuid-1", "第一条 甲"), 14261600497609747407);
    assert_eq!(murmurhash64str("a"), "6039968161137406375");
}

#[test]
fn decimal_rendering_is_exact() {
    assert_eq!(u64_to_dec(0), "0");
    assert_eq!(u64_to_dec(7), "7");
    assert_eq!(u64_to_dec(10), "10");
    assert_eq!(u64_to_dec(2915580697), "2915580697");
    assert_eq!(u64_to_dec(u64::MAX), "18446744073709551615");
}

#[test]
fn embedding_builds_points_with_snapshots() {
    let req = upload("rules.docx", "u-1", "audit/finance");
    let document = Document::from_upload(&req);
    let articles = vec![
        Article {
            article: "第一条 甲".to_string(),
            chapter: "第一章".to_string(),
            doctype: "plain".to_string(),
        },
        Article {
            article: "第二条 乙".to_string(),
            chapter: "第一章".to_string(),
            doctype: "plain".to_string(),
        },
    ];
    let vectors = vec![vec![1u32, 2, 3], vec![4u32, 5, 6]];
    let points = document_embedding(document, "u-1", "/abs/rules.docx", &articles, &vectors);
    assert_eq!(points.len(), 2);
    assert_eq!(points[0].id, point_identifier("u-1", "第一条 甲"));
    assert_eq!(points[1].id, point_identifier("u-1", "第二条 乙"));
    assert_eq!(points[0].vector, vec![1u32, 2, 3]);
    // Every snapshot carries the shared metadata and its own chunk.
    assert_eq!(field(&points[0].payload, "fileuuid"), &Value::Str("u-1".to_string()));
    assert_eq!(field(&points[0].payload, "filename"), &Value::Str("rules.docx".to_string()));
    assert_eq!(field(&points[0].payload, "audit"), &Value::I64(1));
    assert_eq!(field(&points[0].payload, "finance"), &Value::I64(1));
    assert_eq!(field(&points[0].payload, "filepath"), &Value::Str("/abs/rules.docx".to_string()));
    // The first snapshot kept its own chunk even after the second merge.
    assert_eq!(field(&points[0].payload, "article"), &Value::Str("第一条 甲".to_string()));
    assert_eq!(field(&points[1].payload, "article"), &Value::Str("第二条 乙".to_string()));
}

#[test]
fn rerunning_embedding_yields_identical_ids() {
    let req = upload("rules.docx", "u-1", "audit");
    let articles = vec![Article {
        article: "第一条 甲".to_string(),
        chapter: String::new(),
        doctype: "plain".to_string(),
    }];
    let first = document_embedding(
        Document::from_upload(&req),
        "u-1",
        "/abs/rules.docx",
        &articles,
        &vec![vec![1u32]],
    );
    let second = document_embedding(
        Document::from_upload(&req),
        "u-1",
        "/abs/rules.docx",
        &articles,
        &vec![vec![9u32, 9]],
    );
    assert_eq!(first.len(), second.len());
    for (a, b) in first.iter().zip(second.iter()) {
        assert_eq!(a.id, b.id, "the same uuid and text must give the same id");
    }
}

#[test]
fn machine_runs_a_docx_document_to_completion() {
    let req = upload("rules.docx", "u-9", "audit");
    let machine = DocumentPipeline::new(&req, "/cache/u-9/rules.docx".to_string(), 2, "thinktank".to_string());
    let (machine, action) = machine.start();
    match action {
        PipelineAction::CallReader { request } => {
            assert!(matches!(request, ExtractionRequest::Docx { .. }));
        }
        other => panic!("a docx document skips conversion, got {:?}", other),
    }
    let text = "第一条 甲\n第二条 乙";
    let (machine, action) = machine.step(PipelineEvent::Extracted { outcome: Ok(text.to_string()) });
    match &action {
        PipelineAction::CallEmbedder { content } => {
            assert_eq!(content, &embedding_request_content("rules.docx", &Article {
                article: "第一条 甲".to_string(),
                chapter: String::new(),
                doctype: String::new(),
            }));
            assert_eq!(content, "rules.docx第一条 甲");
        }
        other => panic!("expected an embedding call, got {:?}", other),
    }
    let (machine, action) = machine.step(PipelineEvent::Embedded { outcome: Ok(vec![1u32, 2]) });
    match &action {
        PipelineAction::CallEmbedder { content } => assert_eq!(content, "rules.docx第二条 乙"),
        other => panic!("expected the second embedding call, got {:?}", other),
    }
    let (machine, action) = machine.step(PipelineEvent::Embedded { outcome: Ok(vec![3u32, 4]) });
    match action {
        PipelineAction::CallUpsert { collection, points } => {
            assert_eq!(collection, "thinktank");
            assert_eq!(points.len(), 2);
            assert_eq!(points[0].id, point_identifier("u-9", "第一条 甲"));
            assert_eq!(points[0].id, 9403736649868014292);
            assert_eq!(points[1].id, point_identifier("u-9", "第二条 乙"));
        }
        other => panic!("expected the batch upsert, got {:?}", other),
    }
    let (machine, action) = machine.step(PipelineEvent::Persisted { outcome: Ok(()) });
    assert!(matches!(machine.state, PipelineState::Finished));
    assert!(matches!(action, PipelineAction::Stop));
}

#[test]
fn machine_converts_legacy_word_first() {
    let req = upload("old.doc", "u-2", "");
    let machine = DocumentPipeline::new(&req, "/cache/u-2/old.doc".to_string(), 2, "thinktank".to_string());
    let (machine, action) = machine.start();
    match &action {
        PipelineAction::CallConverter { filepath } => assert_eq!(filepath, "/cache/u-2/old.doc"),
        other => panic!("a legacy document is converted first, got {:?}", other),
    }
    let (machine, action) = machine.step(PipelineEvent::Converted { outcome: Ok(()) });
    assert_eq!(machine.filepath, "/cache/u-2/old.pdf");
    match action {
        PipelineAction::CallReader { request } => match request {
            ExtractionRequest::Generic { filepath } => assert_eq!(filepath, "/cache/u-2/old.pdf"),
            other => panic!("a converted document uses the generic reader, got {:?}", other),
        },
        other => panic!("expected the reader call, got {:?}", other),
    }
}

#[test]
fn machine_sends_table_documents_straight_to_the_store() {
    let req = upload("sheet.xlsx", "u-3", "");
    let machine = DocumentPipeline::new(&req, "/cache/u-3/sheet.xlsx".to_string(), 2, "thinktank".to_string());
    let (machine, _action) = machine.start();
    let (machine, action) = machine.step(PipelineEvent::Extracted {
        outcome: Ok("第一条 这张表不会被切片".to_string()),
    });
    match action {
        PipelineAction::CallUpsert { points, .. } => assert!(points.is_empty()),
        other => panic!("a table document persists an empty batch, got {:?}", other),
    }
    assert!(matches!(machine.state, PipelineState::Persisting));
}

#[test]
fn machine_falls_through_to_the_remote_splitter() {
    let req = upload("memo.pdf", "u-4", "");
    let machine = DocumentPipeline::new(&req, "/cache/u-4/memo.pdf".to_string(), 4, "thinktank".to_string());
    let (machine, _action) = machine.start();
    let memo = "一段没有编号的文字。";
    let (machine, action) = machine.step(PipelineEvent::Extracted { outcome: Ok(memo.to_string()) });
    match &action {
        PipelineAction::CallSplitter { content } => assert_eq!(content, memo),
        other => panic!("below the threshold the remote splitter is tried, got {:?}", other),
    }
    let (machine, action) = machine.step(PipelineEvent::Splitted {
        outcome: Ok(vec!["第一段".to_string()]),
    });
    match &action {
        PipelineAction::CallEmbedder { content } => assert_eq!(content, "memo.pdf第一段"),
        other => panic!("expected an embedding call, got {:?}", other),
    }
    drop(machine);
}

#[test]
fn machine_reports_both_failures_when_both_strategies_fail() {
    let req = upload("memo.pdf", "u-5", "");
    let machine = DocumentPipeline::new(&req, "/cache/u-5/memo.pdf".to_string(), 4, "thinktank".to_string());
    let (machine, _action) = machine.start();
    let (machine, _action) = machine.step(PipelineEvent::Extracted {
        outcome: Ok("一段没有编号的文字。".to_string()),
    });
    let (machine, action) = machine.step(PipelineEvent::Splitted {
        outcome: Err(ErrorChain::root("splitter unreachable".to_string())),
    });
    assert!(matches!(action, PipelineAction::Stop));
    match machine.state {
        PipelineState::Failed { error } => {
            assert_eq!(error.messages[0], "Failed to run document splitting of /cache/u-5/memo.pdf");
            assert_eq!(error.messages[1], "Failed to splitting plain document");
            assert_eq!(
                error.messages[2],
                "按照法律法规文件的模式来切片失败\n\tCaused by:\n\t\t章节条款总数少于4个\n\n\t按照自定义递归规则的模式来进行切片失败\n\tCaused by:\n\t\tsplitter unreachable"
            );
        }
        other => panic!("expected a failed run, got {:?}", other),
    }
}

#[test]
fn machine_wraps_step_failures_with_context() {
    let req = upload("rules.docx", "u-6", "");
    let machine = DocumentPipeline::new(&req, "/cache/u-6/rules.docx".to_string(), 2, "thinktank".to_string());
    let (machine, _action) = machine.start();
    let (machine, action) = machine.step(PipelineEvent::Extracted {
        outcome: Err(ErrorChain::root("reader timed out".to_string())),
    });
    assert!(matches!(action, PipelineAction::Stop));
    match machine.state {
        PipelineState::Failed { error } => {
            assert_eq!(
                error.messages,
                vec![
                    "Failed to run document extractor of /cache/u-6/rules.docx".to_string(),
                    "reader timed out".to_string(),
                ]
            );
        }
        other => panic!("expected a failed run, got {:?}", other),
    }
}
