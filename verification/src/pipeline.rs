//! The formatting pipeline: run the external SQL formatter over the input,
//! enforce the trailing-newline invariant, normalize line endings to the
//! configured kind, and report whether anything changed at all.

use vstd::prelude::*;

use crate::newlines::collapse_crlf;
use crate::newlines::ends_with_lf;
use crate::newlines::ensure_trailing_newline;
use crate::newlines::expand_lf;
use crate::newlines::lemma_normalized_ends_with_lf;
use crate::newlines::newline_target_is_lf;
use crate::newlines::normalized_text;
use crate::settings::Configuration;
use crate::settings::FormatOptions;
use crate::settings::Indent;

verus! {

/// The text the external SQL formatter produces for this query text and
/// option vector: a pure function of the two, left unspecified here.
pub uninterp spec fn sql_formatted(text: Seq<char>, options: FormatOptions) -> Seq<char>;

/// Relies on `sqlformat::format`, called with `QueryParams::None`: it
/// computes its result from the query text and the options alone, so the
/// same inputs always give the same output.
#[verifier::external_body]
fn run_sql_formatter(text: &str, options: &FormatOptions) -> (r: String)
    ensures
        r@ == sql_formatted(text@, *options),
{
    let opts = sqlformat::FormatOptions {
        indent: match options.indent {
            Indent::Tabs => sqlformat::Indent::Tabs,
            Indent::Spaces(n) => sqlformat::Indent::Spaces(n),
        },
        uppercase: Some(options.uppercase),
        lines_between_queries: options.lines_between_queries,
        inline: options.inline,
        max_inline_block: options.max_inline_block,
        max_inline_arguments: options.max_inline_arguments,
        max_inline_top_level: options.max_inline_top_level,
        joins_as_top_level: options.joins_as_top_level,
        ..sqlformat::FormatOptions::default()
    };
    sqlformat::format(text, &sqlformat::QueryParams::None, &opts)
}

/// What the whole pipeline produces for this input and configuration: the
/// formatter's output, newline-terminated and with its line endings
/// normalized to the configured kind.
pub open spec fn pipeline_output(text: Seq<char>, config: Configuration) -> Seq<char> {
    normalized_text(sql_formatted(text, config.spec_format_options()), config.new_line_kind)
}

/// Format the text under the configuration. Returns the replacement text,
/// or `None` when the normalized result is byte-for-byte the input already,
/// so that a caller can skip rewriting. Either way, the text that stands
/// afterwards ends with a line feed.
pub fn format_text(text: &str, config: &Configuration) -> (r: Option<String>)
    ensures
        match r {
            None => pipeline_output(text@, *config) == text@,
            Some(t) => t@ == pipeline_output(text@, *config) && t@ != text@,
        },
        match r {
            None => ends_with_lf(text@),
            Some(t) => ends_with_lf(t@),
        },
{
    let options = config.format_options();
    let raw = run_sql_formatter(text, &options);
    let with_nl = ensure_trailing_newline(raw);
    let normalized = if newline_target_is_lf(with_nl.as_str(), config.new_line_kind) {
        collapse_crlf(with_nl.as_str())
    } else {
        let lf_only = collapse_crlf(with_nl.as_str());
        expand_lf(lf_only.as_str())
    };
    proof {
        lemma_normalized_ends_with_lf(
            sql_formatted(text@, config.spec_format_options()),
            config.new_line_kind,
        );
    }
    let original = text.to_owned();
    if normalized.eq(&original) {
        None
    } else {
        Some(normalized)
    }
}

/// Formatting is idempotent: running the pipeline on its own output reports
/// no further change, provided the formatter itself is stable — on the
/// normalized text it returns the same output it returned on the original.
/// The pipeline adds nothing else: everything it does beyond the formatter
/// call is the normalization, and that reproduces its own output exactly.
pub proof fn lemma_format_idempotent(text: Seq<char>, config: Configuration)
    requires
        sql_formatted(pipeline_output(text, config), config.spec_format_options())
            == sql_formatted(text, config.spec_format_options()),
    ensures
        pipeline_output(pipeline_output(text, config), config) == pipeline_output(text, config),
{
}

} // verus!
