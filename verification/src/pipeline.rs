//! The output formats, and the shapes a format cannot be written in.
use vstd::prelude::*;
use crate::ast::{blocks_styles_below, Document};
use crate::codegen::{document_spelling, to_usfm_string};
use crate::json::{document_json, json_text, to_json_string};
use crate::serialize_html::{blocks_html, fits, html_start, to_html_string};
use crate::strings::{push_char, push_str};
use crate::style::StyleSheet;

verus! {

/// What a run writes.
#[derive(Clone, Copy, Debug, PartialEq, Eq, Structural)]
pub enum OutputFormat {
    /// USX, the XML serialisation of the tree.
    Usx,
    /// HTML.
    Html,
    /// The tree as JSON, one object per node.
    Json,
    /// USFM again, in the writer's canonical shape.
    Usfm,
    /// SILE's flavour of USX.
    Sile,
    /// Two translations woven section by section, for a language model.
    Prompt,
}

/// The name a format is asked for by.
pub open spec fn format_name(format: OutputFormat) -> Seq<char> {
    match format {
        OutputFormat::Usx => "usx"@,
        OutputFormat::Html => "html"@,
        OutputFormat::Json => "json"@,
        OutputFormat::Usfm => "usfm"@,
        OutputFormat::Sile => "sile"@,
        OutputFormat::Prompt => "prompt"@,
    }
}

impl OutputFormat {
    /// Whether two documents can be written side by side in this format:
    /// HTML and the prompt can, the others cannot.
    pub fn supports_diglot(self) -> (b: bool)
        ensures
            b == (self is Html || self is Prompt),
    {
        matches!(self, OutputFormat::Html | OutputFormat::Prompt)
    }

    /// The name the format is asked for by on the command line.
    pub fn name(self) -> (name: &'static str)
        ensures
            name@ == format_name(self),
    {
        match self {
            OutputFormat::Usx => "usx",
            OutputFormat::Html => "html",
            OutputFormat::Json => "json",
            OutputFormat::Usfm => "usfm",
            OutputFormat::Sile => "sile",
            OutputFormat::Prompt => "prompt",
        }
    }
}

/// A format asked for in a shape it cannot be written in.
#[derive(Clone, Copy, Debug, PartialEq, Eq, Structural)]
pub enum RenderError {
    /// The format pairs two translations, and only one was given.
    NeedsDiglot(OutputFormat),
    /// Two translations were given, and the format has no paired form.
    NoDiglotForm(OutputFormat),
    /// The format's writer is not part of this build.
    Unavailable(OutputFormat),
}

/// What the error says, naming the flag to change.
pub open spec fn render_error_text(error: RenderError) -> Seq<char> {
    match error {
        RenderError::NeedsDiglot(f) => format_name(f)
            + " output pairs two translations: pass the second one with --diglot"@,
        RenderError::NoDiglotForm(f) => format_name(f)
            + " output has no diglot form: with --diglot the format must be html or prompt"@,
        RenderError::Unavailable(f) => format_name(f) + " output is not available in this build"@,
    }
}

impl RenderError {
    /// The message: what was asked for, and which flag to change.
    pub fn to_string(&self) -> (text: String)
        ensures
            text@ == render_error_text(*self),
    {
        let mut text = String::new();
        match self {
            RenderError::NeedsDiglot(f) => {
                push_str(&mut text, f.name());
                push_str(&mut text, " output pairs two translations: pass the second one with --diglot");
            },
            RenderError::NoDiglotForm(f) => {
                push_str(&mut text, f.name());
                push_str(&mut text, " output has no diglot form: with --diglot the format must be html or prompt");
            },
            RenderError::Unavailable(f) => {
                push_str(&mut text, f.name());
                push_str(&mut text, " output is not available in this build");
            },
        }
        text
    }
}

/// What writing one document in `format` gives: the text of its writer,
/// or the error the format gets. USX and SILE have no writer in this build.
pub open spec fn rendered(document: Document, style_sheet: StyleSheet, format: OutputFormat) -> Result<Seq<char>, RenderError> {
    match format {
        OutputFormat::Html => Ok(blocks_html(style_sheet, html_start(), document.blocks@, document.blocks@.len()).0),
        OutputFormat::Json => Ok(json_text(document_json(document)).push('\n')),
        OutputFormat::Usfm => Ok(document_spelling(document)),
        OutputFormat::Prompt => Err(RenderError::NeedsDiglot(OutputFormat::Prompt)),
        OutputFormat::Usx | OutputFormat::Sile => Err(RenderError::Unavailable(format)),
    }
}

/// A result's text as plain values.
pub open spec fn result_view(r: Result<String, RenderError>) -> Result<Seq<char>, RenderError> {
    match r {
        Ok(text) => Ok(text@),
        Err(e) => Err(e),
    }
}

/// Write one document in `format`. `style_sheet` is the document's own;
/// HTML needs every style of the tree to resolve in it, and its note and id
/// counters to fit a `usize`.
pub fn render(document: &Document, style_sheet: &StyleSheet, format: OutputFormat) -> (r: Result<String, RenderError>)
    requires
        document.wf(),
        format is Html ==> blocks_styles_below(document.blocks@, style_sheet.rules@.len()),
        format is Html ==> fits(blocks_html(*style_sheet, html_start(), document.blocks@, document.blocks@.len()).1),
    ensures
        result_view(r) == rendered(*document, *style_sheet, format),
{
    match format {
        OutputFormat::Html => Ok(to_html_string(document, style_sheet)),
        OutputFormat::Json => {
            let mut json = to_json_string(document);
            push_char(&mut json, '\n');
            Ok(json)
        },
        OutputFormat::Usfm => Ok(to_usfm_string(document)),
        OutputFormat::Prompt => Err(RenderError::NeedsDiglot(OutputFormat::Prompt)),
        OutputFormat::Usx => Err(RenderError::Unavailable(OutputFormat::Usx)),
        OutputFormat::Sile => Err(RenderError::Unavailable(OutputFormat::Sile)),
    }
}

/// Whether `format` can write a pair of documents: the error a pair gets
/// when it cannot.
pub fn diglot_form(format: OutputFormat) -> (r: Result<(), RenderError>)
    ensures
        r is Ok <==> (format is Html || format is Prompt),
        r matches Err(e) ==> e == RenderError::NoDiglotForm(format),
{
    if format.supports_diglot() {
        Ok(())
    } else {
        Err(RenderError::NoDiglotForm(format))
    }
}

} // verus!
