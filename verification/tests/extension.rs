use iaudit::blunder::ParseError;
use iaudit::document::DocumentName;
use iaudit::document::Extension;
use iaudit::document::parse_upload_filename;

#[test]
fn check_if_has_valid_extension() {
    let test_cases = vec!["doc", "pdf", "xls", "docx", "xlsx", "ppt", "csv"];
    test_cases.into_iter().for_each(|case| {
        let valid = Extension::parse(case).is_ok();
        println!("{} {}", case, valid);
    });
}

#[test]
fn build_extension_from_str() {
    let test_cases = vec!["doc", "pdf", "xls", "docx", "xlsx", "ppt", "csv"];
    test_cases.into_iter().for_each(|case| {
        let extension: Result<Extension, ParseError> = Extension::parse(case);
        println!("{}: {}", case, extension.is_ok());
    });
}

#[test]
fn check_tempfile() {
    let document = parse_upload_filename(Some("example.docx".to_string())).unwrap();
    println!("{}", document.name());
}

#[test]
fn exactly_five_suffixes_parse() {
    for case in ["doc", "pdf", "xls", "docx", "xlsx"] {
        assert!(Extension::parse(case).is_ok(), "{case} must parse");
    }
    for case in ["ppt", "csv", "txt", "", "pd", "docxx"] {
        assert_eq!(Extension::parse(case), Err(ParseError::InvalidExtension));
    }
}

#[test]
fn suffixes_parse_case_insensitively() {
    assert_eq!(Extension::parse("DOC"), Ok(Extension::Doc));
    assert_eq!(Extension::parse("Pdf"), Ok(Extension::Pdf));
    assert_eq!(Extension::parse("xLs"), Ok(Extension::Xls));
    assert_eq!(Extension::parse("DocX"), Ok(Extension::Docx));
    assert_eq!(Extension::parse("XLSX"), Ok(Extension::Xlsx));
}

#[test]
fn error_kinds_are_distinct() {
    // Missing filename, missing suffix and unsupported suffix each get
    // their own validation error.
    assert!(matches!(
        parse_upload_filename(None),
        Err(ParseError::MissingFileName)
    ));
    assert!(matches!(
        DocumentName::parse("nodotatall".to_string()),
        Err(ParseError::MissingExtension)
    ));
    assert!(matches!(
        DocumentName::parse("notes.txt".to_string()),
        Err(ParseError::InvalidExtension)
    ));
    assert!(matches!(
        DocumentName::parse("archive.".to_string()),
        Err(ParseError::InvalidExtension)
    ));
}

#[test]
fn parsed_name_keeps_original_spelling() {
    let name = DocumentName::parse("Quarterly Report.XLSX".to_string()).unwrap();
    assert_eq!(name.name(), "Quarterly Report.XLSX");
    assert_eq!(name.extension(), Extension::Xlsx);
    let name = DocumentName::parse("a.b.c.pdf".to_string()).unwrap();
    assert_eq!(name.extension(), Extension::Pdf);
}
