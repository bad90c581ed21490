//! The configuration records that drive the formatting pipeline: the kinds of
//! line endings, the formatter option vector, the fully resolved configuration,
//! and the global settings shared across formatters in a host session.

use vstd::prelude::*;

verus! {

/// Which line ending the normalized output uses.
#[derive(Clone, Copy, Debug, PartialEq, Eq, Structural)]
pub enum NewLineKind {
    /// Decide from the last line ending that the text already holds.
    Auto,
    /// Always a bare line feed.
    LineFeed,
    /// Always a carriage return followed by a line feed.
    CarriageReturnLineFeed,
    /// Treated like `Auto`: resolved from the text, never from the machine,
    /// so that formatting stays deterministic.
    System,
}

/// Indentation for the formatter: tabs, or a fixed number of spaces.
#[derive(Clone, Copy, Debug, PartialEq, Eq, Structural)]
pub enum Indent {
    Tabs,
    Spaces(u8),
}

/// The option vector handed to the SQL formatter. Line-ending handling is not
/// part of it: that is the pipeline's own work, applied after formatting.
#[derive(Clone, Copy, Debug)]
pub struct FormatOptions {
    pub indent: Indent,
    pub uppercase: bool,
    pub lines_between_queries: u8,
    pub inline: bool,
    pub max_inline_block: usize,
    pub max_inline_arguments: Option<usize>,
    pub max_inline_top_level: Option<usize>,
    pub joins_as_top_level: bool,
}

/// A fully resolved configuration: every field has a definite value.
#[derive(Clone, Debug)]
pub struct Configuration {
    pub use_tabs: bool,
    pub indent_width: u8,
    pub new_line_kind: NewLineKind,
    pub uppercase: bool,
    pub lines_between_queries: u8,
    pub inline: bool,
    pub max_inline_block: usize,
    pub max_inline_arguments: Option<usize>,
    pub max_inline_top_level: Option<usize>,
    pub joins_as_top_level: bool,
}

/// Cross-format defaults owned by the host session. Any field may be absent;
/// an absent field falls through to the compiled-in recommended default.
#[derive(Clone, Debug)]
pub struct GlobalConfiguration {
    pub use_tabs: Option<bool>,
    pub indent_width: Option<u8>,
    pub new_line_kind: Option<NewLineKind>,
}

/// A global configuration with every field absent.
pub open spec fn spec_empty_global() -> GlobalConfiguration {
    GlobalConfiguration { use_tabs: None, indent_width: None, new_line_kind: None }
}

impl Default for GlobalConfiguration {
    /// A global configuration with every field absent.
    fn default() -> (r: GlobalConfiguration)
        ensures
            r == spec_empty_global(),
    {
        GlobalConfiguration { use_tabs: None, indent_width: None, new_line_kind: None }
    }
}

impl Configuration {
    /// The formatter options that this configuration calls for: a one-to-one
    /// mapping of the fields, with `use_tabs`/`indent_width` folded into the
    /// indentation choice.
    pub open spec fn spec_format_options(&self) -> FormatOptions {
        FormatOptions {
            indent: if self.use_tabs {
                Indent::Tabs
            } else {
                Indent::Spaces(self.indent_width)
            },
            uppercase: self.uppercase,
            lines_between_queries: self.lines_between_queries,
            inline: self.inline,
            max_inline_block: self.max_inline_block,
            max_inline_arguments: self.max_inline_arguments,
            max_inline_top_level: self.max_inline_top_level,
            joins_as_top_level: self.joins_as_top_level,
        }
    }

    /// Derive the formatter's option vector from the resolved configuration.
    pub fn format_options(&self) -> (r: FormatOptions)
        ensures
            r == self.spec_format_options(),
    {
        FormatOptions {
            indent: if self.use_tabs {
                Indent::Tabs
            } else {
                Indent::Spaces(self.indent_width)
            },
            uppercase: self.uppercase,
            lines_between_queries: self.lines_between_queries,
            inline: self.inline,
            max_inline_block: self.max_inline_block,
            max_inline_arguments: self.max_inline_arguments,
            max_inline_top_level: self.max_inline_top_level,
            joins_as_top_level: self.joins_as_top_level,
        }
    }
}

} // verus!
