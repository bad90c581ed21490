//! A SQL formatting core: resolve a layered configuration (per-invocation
//! overrides over global settings over recommended defaults, with one
//! diagnostic per invalid value and per unrecognized key), run the external
//! SQL formatter, normalize the output's line endings and trailing newline,
//! and report whether the text changed at all.

pub mod newlines;
pub mod overrides;
pub mod pipeline;
pub mod resolver;
pub mod settings;

pub use overrides::ConfigKeyMap;
pub use overrides::ConfigKeyValue;
pub use overrides::Diagnostic;
pub use pipeline::format_text;
pub use resolver::FileMatchingInfo;
pub use resolver::PluginResolveConfigurationResult;
pub use resolver::SqlPluginHandler;
pub use settings::Configuration;
pub use settings::FormatOptions;
pub use settings::GlobalConfiguration;
pub use settings::Indent;
pub use settings::NewLineKind;
