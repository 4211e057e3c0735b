use sheet_export::driver::{export_languages, progress_label, skip_decision, skip_pattern, skips_sheet};
use sheet_export::error::{failure_line, ExportError};
use sheet_export::export::{language_code, Language};

#[test]
fn sheets_with_a_slash_are_skipped() {
    assert_eq!(skips_sheet("quest/000/ClsHrv001_00003"), Ok(true));
    assert_eq!(skips_sheet("custom/001/x"), Ok(true));
    assert_eq!(skips_sheet("/"), Ok(true));
    assert_eq!(skips_sheet("trailing/"), Ok(true));
}

#[test]
fn sheets_without_a_slash_are_exported() {
    assert_eq!(skips_sheet("Item"), Ok(false));
    assert_eq!(skips_sheet(""), Ok(false));
    assert_eq!(skips_sheet("back\\slash"), Ok(false));
    assert_eq!(skips_sheet("Mount.Sub"), Ok(false));
}

#[test]
fn skip_pattern_is_an_escaped_slash() {
    assert_eq!(skip_pattern(), "\\/");
    let regex = regex::Regex::new(skip_pattern()).unwrap();
    assert!(regex.is_match("a/b"));
    assert!(!regex.is_match("ab"));
}

#[test]
fn skip_decision_follows_the_search() {
    assert_eq!(skip_decision(Ok(true)), Ok(true));
    assert_eq!(skip_decision(Ok(false)), Ok(false));
    let broken = regex::Regex::new("(").unwrap_err();
    assert_eq!(skip_decision(Err(broken)), Err(ExportError::Config));
}

#[test]
fn languages_of_a_run() {
    assert_eq!(
        export_languages(),
        vec![Language::English, Language::German, Language::French, Language::Japanese]
    );
}

#[test]
fn progress_labels_are_codes_in_capitals() {
    let all = [
        Language::English,
        Language::German,
        Language::French,
        Language::Japanese,
        Language::Korean,
        Language::ChineseSimplified,
        Language::ChineseTraditional,
        Language::Unknown,
    ];
    for language in all.iter() {
        assert_eq!(progress_label(language), language_code(language).to_uppercase());
    }
    assert_eq!(progress_label(&Language::English), "EN");
    assert_eq!(progress_label(&Language::ChineseTraditional), "CHT");
}

#[test]
fn failure_lines() {
    assert_eq!(failure_line("Item", "broken"), "Failed to export Item. broken");
    assert_eq!(failure_line("", ""), "Failed to export . ");
    assert_eq!(
        failure_line("Mount", ExportError::NameMissing.message()),
        "Failed to export Mount. Schema must provide a name for all fields."
    );
}

#[test]
fn only_a_fault_of_the_configuration_is_fatal() {
    assert!(ExportError::Config.is_fatal());
    let others = [
        ExportError::SchemaMissing,
        ExportError::SchemaMalformed,
        ExportError::SheetOpen,
        ExportError::SheetDecode,
        ExportError::Write,
        ExportError::NameMissing,
    ];
    for error in others.iter() {
        assert!(!error.is_fatal());
    }
}

#[test]
fn error_messages() {
    assert_eq!(ExportError::Config.message(), "Could not read config");
    assert_eq!(ExportError::SchemaMissing.message(), "Could not find schema");
    assert_eq!(ExportError::SchemaMalformed.message(), "Failed to parse schema");
    assert_eq!(ExportError::SheetOpen.message(), "Could not open sheet");
    assert_eq!(ExportError::SheetDecode.message(), "Could not decode sheet");
    assert_eq!(ExportError::Write.message(), "Could not write extract");
    assert_eq!(ExportError::NameMissing.message(), "Schema must provide a name for all fields.");
}
