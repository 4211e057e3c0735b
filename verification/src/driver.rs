//! What a run goes through: the languages, in order, and of each language
//! the sheets that have a schema.

use crate::error::ExportError;
use crate::export::{code_of, Language};
use crate::schema::lower;
use vstd::prelude::*;

verus! {

/// The error of `regex::Regex::new`.
#[verifier::external_type_specification]
#[verifier::external_body]
pub struct ExRegexError(regex::Error);

/// Whether `pattern` is a regular expression that can be compiled: whether
/// `regex::Regex::new` returns a regex for it, and no error.
pub uninterp spec fn pattern_compiles(pattern: Seq<char>) -> bool;

/// Whether the regular expression `pattern` has a match anywhere in
/// `haystack`: what `regex::Regex::is_match` returns for a regex that
/// `regex::Regex::new` compiled from `pattern`.
pub uninterp spec fn pattern_found(pattern: Seq<char>, haystack: Seq<char>) -> bool;

/// The pattern that the names of sheets without a schema match: an escaped
/// slash, `\/`.
pub open spec fn slash_pattern() -> Seq<char> {
    seq!['\\', '/']
}

/// Compiles `pattern` with `regex::Regex::new` and searches `haystack` with
/// `regex::Regex::is_match`. The error is that of the compilation, and
/// whether there is one depends on the pattern alone. The result of a search
/// depends on the pattern and the haystack alone. An escaped slash is the
/// literal character `/`, and a search succeeds if the pattern matches
/// anywhere in the haystack: so the pattern `\/` is found exactly in the
/// texts that hold a `/`. Nothing is claimed of which patterns compile.
#[verifier::external_body]
fn search(pattern: &str, haystack: &str) -> (found: Result<bool, regex::Error>)
    ensures
        found is Ok <==> pattern_compiles(pattern@),
        found matches Ok(hit) ==> hit == pattern_found(pattern@, haystack@),
        found matches Ok(hit) ==> (pattern@ == slash_pattern() ==> hit == haystack@.contains('/')),
{
    match regex::Regex::new(pattern) {
        Ok(regex) => Ok(regex.is_match(haystack)),
        Err(e) => Err(e),
    }
}

/// Returns the pattern of the names of sheets without a schema.
pub fn skip_pattern() -> (pattern: &'static str)
    ensures
        pattern@ == slash_pattern(),
{
    proof {
        reveal_strlit("\\/");
    }
    let pattern = "\\/";
    assert(pattern@ =~= slash_pattern());
    pattern
}

/// What a search for the skip pattern means for a sheet: skip it if the
/// pattern was found, export it if not; a pattern that did not compile is a
/// fault of the configuration.
pub fn skip_decision(found: Result<bool, regex::Error>) -> (skip: Result<bool, ExportError>)
    ensures
        match found {
            Ok(hit) => skip == Ok::<bool, ExportError>(hit),
            Err(_) => skip == Err::<bool, ExportError>(ExportError::Config),
        },
{
    match found {
        Ok(hit) => Ok(hit),
        Err(_) => Err(ExportError::Config),
    }
}

/// What is decided of a sheet by its name: it is skipped if the name holds a
/// `/`, and exported if not; `Config` for every name if the skip pattern
/// does not compile.
pub open spec fn skip_outcome(sheet_name: Seq<char>) -> Result<bool, ExportError> {
    if pattern_compiles(slash_pattern()) {
        Ok(sheet_name.contains('/'))
    } else {
        Err(ExportError::Config)
    }
}

/// Whether a sheet is left out of a run: one whose name holds a `/` has no
/// schema and is skipped. `Config` if the skip pattern does not compile.
pub fn skips_sheet(sheet_name: &str) -> (skip: Result<bool, ExportError>)
    ensures
        skip == skip_outcome(sheet_name@),
        skip matches Ok(hit) ==> hit == pattern_found(slash_pattern(), sheet_name@),
{
    skip_decision(search(skip_pattern(), sheet_name))
}

/// The languages of a run, in the order in which they are extracted.
pub open spec fn run_languages() -> Seq<Language> {
    seq![Language::English, Language::German, Language::French, Language::Japanese]
}

/// Returns the languages of a run, in order.
pub fn export_languages() -> (languages: Vec<Language>)
    ensures
        languages@ == run_languages(),
{
    let mut languages: Vec<Language> = Vec::new();
    languages.push(Language::English);
    languages.push(Language::German);
    languages.push(Language::French);
    languages.push(Language::Japanese);
    assert(languages@ =~= run_languages());
    languages
}

/// The label of a language in the progress of a run: its code in capitals.
pub open spec fn label_of(language: Language) -> Seq<char> {
    match language {
        Language::English => seq!['E', 'N'],
        Language::German => seq!['D', 'E'],
        Language::French => seq!['F', 'R'],
        Language::Japanese => seq!['J', 'A'],
        Language::Korean => seq!['K', 'R'],
        Language::ChineseSimplified => seq!['C', 'H', 'S'],
        Language::ChineseTraditional => seq!['C', 'H', 'T'],
        Language::Unknown => seq!['?', '?'],
    }
}

/// Returns the label of a language in the progress of a run.
pub fn progress_label(language: &Language) -> (label: &'static str)
    ensures
        label@ == label_of(*language),
{
    proof {
        reveal_strlit("EN");
        reveal_strlit("DE");
        reveal_strlit("FR");
        reveal_strlit("JA");
        reveal_strlit("KR");
        reveal_strlit("CHS");
        reveal_strlit("CHT");
        reveal_strlit("??");
    }
    let label = match language {
        Language::English => "EN",
        Language::German => "DE",
        Language::French => "FR",
        Language::Japanese => "JA",
        Language::Korean => "KR",
        Language::ChineseSimplified => "CHS",
        Language::ChineseTraditional => "CHT",
        Language::Unknown => "??",
    };
    assert(label@ =~= label_of(*language));
    label
}

/// The label of every language is its code with each small letter turned
/// into its capital.
pub proof fn label_is_code_in_capitals(language: Language)
    ensures
        label_of(language).len() == code_of(language).len(),
        forall|i: int|
            0 <= i < code_of(language).len() ==> lower(#[trigger] label_of(language)[i])
                == code_of(language)[i],
{
}

} // verus!
