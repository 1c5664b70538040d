use iaudit::pipeline::SplitOutcome;
use iaudit::pipeline::document_splitting_local;
use iaudit::document::Extension;
use iaudit::regulation::splitting_document_by_article;
use iaudit::regulation::splitting_document_by_chapter;
use iaudit::regulation::splitting_regulation_document;

#[test]
fn mock_match_string_with_offset() {
    let document = "
第一章 总则
第一条 为规范公司货物、工程和服务等采购工作的管理制度及流程，根据国家相关法律、法规，结合公司业务发展需求，保证采购管理健康有序的开展，特制定本办法。
第二条 公司相关采购活动按照本办法执行，公司广告及宣传业务相关采购活动管理办法另行制定。
第二章 采购的分类
第三条 根据公司业务发展要求和特点，公司采购类别主要分为货物、工程和服务三类采购。
第四条 货物类的采购分为网络设备类、通用设备类、通用软件类、交通工具类、礼品类、耗材类、印刷品类等。
第五条 工程类的采购包含机房、管道和光缆线路等基础建设工程、系统集成建设工程、有线配套工程、综合线网工程、终端设备安装工程及装修类工程等。
第六条 服务类的采购包含新技术研发服务类、维保服务类、工程设计及监理类、咨询类、租赁服务类（带宽租用、房屋租用等）等（除广告服务类外）。
第七条 物资采购以集中（框架）采购和专项（单次）采购为主，零星采购为辅。原则上按年度、季度及月度实施计划管理。
";
    splitting_document_by_article(document)
        .into_iter()
        .for_each(|(offset, string)| println!("{}: {}", offset, string));
}

#[test]
fn markers_are_found_with_char_offsets() {
    let text = "第1条x第十2条y第三章z";
    let articles = splitting_document_by_article(text);
    assert_eq!(articles.len(), 2);
    assert_eq!(articles[0].0, 0);
    assert_eq!(articles[0].1, "第1条");
    assert_eq!(articles[1].0, 4);
    assert_eq!(articles[1].1, "第十2条");
    let chapters = splitting_document_by_chapter(text);
    assert_eq!(chapters.len(), 1);
    assert_eq!(chapters[0].0, 9);
    assert_eq!(chapters[0].1, "第三章");
}

#[test]
fn digits_must_follow_numerals() {
    // A marker spells its number as Chinese numerals first, decimal
    // digits second; the other order does not match.
    assert_eq!(splitting_document_by_article("第2十条").len(), 0);
    assert_eq!(splitting_document_by_article("第十2条").len(), 1);
    assert_eq!(splitting_document_by_article("第条").len(), 1);
}

#[test]
fn articles_carry_nearest_preceding_chapter() {
    let text = "第一章 总则\n第一条 甲\n第二条 乙\n第二章 细则\n第三条 丙\n第四条 丁\n第五条 戊";
    let articles = splitting_regulation_document(text, 3).unwrap();
    assert_eq!(articles.len(), 5);
    let expected = [
        ("第一条 甲", "第一章 总则"),
        ("第二条 乙", "第一章 总则"),
        ("第三条 丙", "第二章 细则"),
        ("第四条 丁", "第二章 细则"),
        ("第五条 戊", "第二章 细则"),
    ];
    for (article, (text, chapter)) in articles.iter().zip(expected.iter()) {
        assert_eq!(article.article, *text);
        assert_eq!(article.chapter, *chapter);
        assert_eq!(article.doctype, "");
    }
}

#[test]
fn article_spans_run_to_next_marker_trimmed() {
    let text = "第一条 甲  \n 第二条 乙";
    let articles = splitting_regulation_document(text, 1).unwrap();
    assert_eq!(articles.len(), 2);
    assert_eq!(articles[0].article, "第一条 甲");
    assert_eq!(articles[0].chapter, "");
    assert_eq!(articles[1].article, "第二条 乙");
}

#[test]
fn below_threshold_fails_with_counted_message() {
    let memo = "这是一段没有任何编号标记的备忘录。";
    let err = splitting_regulation_document(memo, 1).unwrap_err();
    assert_eq!(err.messages, vec!["章节条款总数少于1个".to_string()]);

    let two_markers = "第一条 甲\n第二条 乙";
    assert!(splitting_regulation_document(two_markers, 3).is_err());
    assert!(splitting_regulation_document(two_markers, 2).is_ok());
}

#[test]
fn below_threshold_falls_through_to_remote_strategy() {
    let memo = "一段普通文字。";
    match document_splitting_local(memo, Extension::Pdf, 4) {
        SplitOutcome::NeedRemote(failure) => {
            assert_eq!(
                failure.messages,
                vec![
                    "按照法律法规文件的模式来切片失败".to_string(),
                    "章节条款总数少于4个".to_string(),
                ]
            );
        }
        SplitOutcome::Split(_) => panic!("a memo without markers must not split locally"),
    }
}

#[test]
fn regulation_split_tags_plain_documents() {
    let text = "第一条 甲\n第二条 乙";
    match document_splitting_local(text, Extension::Docx, 2) {
        SplitOutcome::Split(articles) => {
            assert_eq!(articles.len(), 2);
            assert!(articles.iter().all(|a| a.doctype == "plain"));
        }
        SplitOutcome::NeedRemote(_) => panic!("two markers meet the threshold of two"),
    }
}
