use usfm::cli::{output_format, DiagnosticFormat, Format, ParseArgs};
use usfm::diagnostics::Severity;
use usfm::pipeline::{diglot_form, render, OutputFormat, RenderError};

fn args(strict: bool, deny_warnings: bool) -> ParseArgs {
    ParseArgs {
        files: vec!["in.usfm".to_string()],
        format: Format::Usx,
        stylesheet: None,
        output: None,
        replace: vec![],
        diglot: vec![],
        diglot_stylesheet: None,
        diglot_replace: vec![],
        watch: false,
        strict,
        deny_warnings,
        diagnostics: DiagnosticFormat::Text,
    }
}

/// `--deny-warnings` is stricter than `--strict`, and wins when both are
/// given; neither flag means no threshold at all.
#[test]
fn the_stricter_threshold_wins() {
    let threshold = |strict: bool, deny: bool| {
        let args = args(strict, deny);
        (args.threshold(), args.threshold_flag())
    };
    assert_eq!(threshold(false, false).0, None);
    assert_eq!(threshold(true, false), (Some(Severity::Error), "--strict"));
    assert_eq!(threshold(false, true), (Some(Severity::Warning), "--deny-warnings"));
    assert_eq!(threshold(true, true), (Some(Severity::Warning), "--deny-warnings"));
}

#[test]
fn each_format_names_its_output() {
    assert_eq!(output_format(Format::Usx), OutputFormat::Usx);
    assert_eq!(output_format(Format::Html), OutputFormat::Html);
    assert_eq!(output_format(Format::Json), OutputFormat::Json);
    assert_eq!(output_format(Format::Sile), OutputFormat::Sile);
    assert_eq!(output_format(Format::Prompt), OutputFormat::Prompt);
    assert_eq!(OutputFormat::Usfm.name(), "usfm");
    assert_eq!(OutputFormat::Prompt.name(), "prompt");
}

/// Only HTML and the prompt have a paired form, and the error for the others
/// names the flag to change.
#[test]
fn only_html_and_the_prompt_pair_two_documents() {
    for format in [
        OutputFormat::Usx,
        OutputFormat::Html,
        OutputFormat::Json,
        OutputFormat::Usfm,
        OutputFormat::Sile,
        OutputFormat::Prompt,
    ] {
        assert_eq!(format.supports_diglot(), diglot_form(format).is_ok(), "{format:?}");
    }
    assert_eq!(diglot_form(OutputFormat::Usx), Err(RenderError::NoDiglotForm(OutputFormat::Usx)));
    assert!(RenderError::NeedsDiglot(OutputFormat::Prompt).to_string().contains("--diglot"));
    assert_eq!(
        RenderError::NoDiglotForm(OutputFormat::Json).to_string(),
        "json output has no diglot form: with --diglot the format must be html or prompt"
    );
}

/// Formatting is idempotent: the formatted text of a formatted document is
/// itself, through the trailing newline the command adds.
#[test]
fn formatting_is_a_fixed_point() {
    let once = usfm::format::formatted(&usfm::parse("\\id GEN\n\\c 1\n\\p \\v 1 a \\nd b\n").document);
    let twice = usfm::format::formatted(&usfm::parse(&once).document);
    assert_eq!(once, twice);
}

#[test]
fn each_format_writes_its_own_shape() {
    let result = usfm::parse("\\id GEN\n\\c 1\n\\p \\v 1 verse one");
    let document = result.document;
    let sheet = std::sync::Arc::clone(&document.style_sheet);
    let html = render(&document, &sheet, OutputFormat::Html).unwrap();
    assert!(html.contains("<p class=\"p\">"), "{html}");
    let json = render(&document, &sheet, OutputFormat::Json).unwrap();
    assert!(json.starts_with('{'), "{json}");
    assert!(json.ends_with("}\n"), "{json}");
    assert!(json.contains(r#""type":"document""#), "{json}");
    let usfm = render(&document, &sheet, OutputFormat::Usfm).unwrap();
    assert_eq!(usfm, "\\id GEN\n\\c 1\n\\p \\v 1 verse one\n");
}

#[test]
fn a_prompt_of_one_document_is_an_error_that_names_the_flag() {
    let document = usfm::parse("\\id GEN\n\\c 1\n\\p \\v 1 verse one").document;
    let sheet = std::sync::Arc::clone(&document.style_sheet);
    assert_eq!(render(&document, &sheet, OutputFormat::Prompt), Err(RenderError::NeedsDiglot(OutputFormat::Prompt)));
    assert!(render(&document, &sheet, OutputFormat::Prompt).unwrap_err().to_string().contains("--diglot"));
}
