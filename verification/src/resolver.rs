//! Configuration resolution: merge the per-invocation override map with the
//! global settings and the compiled-in recommended defaults, collecting one
//! diagnostic for every invalid value and every unrecognized key. Resolution
//! is total: it always returns a fully populated configuration.

use vstd::prelude::*;

use crate::overrides::ConfigKeyMap;
use crate::overrides::ConfigKeyValue;
use crate::overrides::ConfigValueV;
use crate::overrides::Diagnostic;
use crate::overrides::coerce_bool;
use crate::overrides::coerce_int;
use crate::overrides::coerce_new_line_kind;
use crate::overrides::diags_view;
use crate::overrides::invalid_value_message;
use crate::overrides::lookup_value;
use crate::overrides::present_value;
use crate::overrides::unknown_property_message;
use crate::overrides::value_as_bool;
use crate::overrides::value_as_int;
use crate::overrides::value_as_new_line_kind;
use crate::settings::Configuration;
use crate::settings::GlobalConfiguration;
use crate::settings::NewLineKind;
use vstd::string::StringExecFns;

verus! {

/// The default for `max_inline_block`: the formatter library's own default
/// length for an inline block.
pub const DEFAULT_MAX_INLINE_BLOCK: usize = 50;

/// The largest integer an override value may carry.
pub const MAX_INT_SETTING: i32 = 2147483647;

/// The global `use_tabs`, or the recommended default.
pub open spec fn global_use_tabs(g: GlobalConfiguration) -> bool {
    match g.use_tabs {
        Some(b) => b,
        None => false,
    }
}

/// The global `indent_width`, or the recommended default.
pub open spec fn global_indent_width(g: GlobalConfiguration) -> int {
    match g.indent_width {
        Some(w) => w as int,
        None => 2,
    }
}

/// The global `new_line_kind`, or the recommended default.
pub open spec fn global_new_line_kind(g: GlobalConfiguration) -> NewLineKind {
    match g.new_line_kind {
        Some(k) => k,
        None => NewLineKind::LineFeed,
    }
}

/// The boolean the key resolves to: the override when it converts, else the
/// fallback.
pub open spec fn resolved_bool(
    m: Seq<(Seq<char>, ConfigValueV)>,
    key: Seq<char>,
    fallback: bool,
) -> bool {
    match present_value(m, key) {
        Some(v) => match coerce_bool(v) {
            Some(b) => b,
            None => fallback,
        },
        None => fallback,
    }
}

/// A value is there for the key but does not convert to a boolean.
pub open spec fn bool_key_invalid(m: Seq<(Seq<char>, ConfigValueV)>, key: Seq<char>) -> bool {
    match present_value(m, key) {
        Some(v) => coerce_bool(v) is None,
        None => false,
    }
}

/// The integer in `lo ..= hi` the key resolves to, else the fallback.
pub open spec fn resolved_int(
    m: Seq<(Seq<char>, ConfigValueV)>,
    key: Seq<char>,
    lo: int,
    hi: int,
    fallback: int,
) -> int {
    match present_value(m, key) {
        Some(v) => match coerce_int(v, lo, hi) {
            Some(n) => n,
            None => fallback,
        },
        None => fallback,
    }
}

/// A value is there for the key but does not convert to an integer in range.
pub open spec fn int_key_invalid(
    m: Seq<(Seq<char>, ConfigValueV)>,
    key: Seq<char>,
    lo: int,
    hi: int,
) -> bool {
    match present_value(m, key) {
        Some(v) => coerce_int(v, lo, hi) is None,
        None => false,
    }
}

/// The line-ending kind the key resolves to, else the fallback.
pub open spec fn resolved_new_line_kind(
    m: Seq<(Seq<char>, ConfigValueV)>,
    key: Seq<char>,
    fallback: NewLineKind,
) -> NewLineKind {
    match present_value(m, key) {
        Some(v) => match coerce_new_line_kind(v) {
            Some(k) => k,
            None => fallback,
        },
        None => fallback,
    }
}

/// A value is there for the key but does not convert to a line-ending kind.
pub open spec fn new_line_kind_key_invalid(
    m: Seq<(Seq<char>, ConfigValueV)>,
    key: Seq<char>,
) -> bool {
    match present_value(m, key) {
        Some(v) => coerce_new_line_kind(v) is None,
        None => false,
    }
}

/// The optional integer the key resolves to: absent (or `Null`, or invalid)
/// means no limit.
pub open spec fn resolved_nullable_int(
    m: Seq<(Seq<char>, ConfigValueV)>,
    key: Seq<char>,
    lo: int,
    hi: int,
) -> Option<int> {
    match present_value(m, key) {
        Some(v) => coerce_int(v, lo, hi),
        None => None,
    }
}

/// Look up a boolean setting, reporting a value that does not convert.
fn get_bool_field(
    m: &ConfigKeyMap,
    key: &String,
    fallback: bool,
    diagnostics: &mut Vec<Diagnostic>,
) -> (r: bool)
    ensures
        r == resolved_bool(m@, key@, fallback),
        diags_view(final(diagnostics)@) == diags_view(old(diagnostics)@) + diag_if(
            bool_key_invalid(m@, key@),
            key@,
        ),
{
    let ghost pre = diags_view(diagnostics@);
    let found = lookup_value(m, key);
    match found {
        None => {
            proof {
                assert(pre + diag_if(false, key@) =~= pre);
            }
            fallback
        },
        Some(v) => {
            match v {
                ConfigKeyValue::Null => {
                    proof {
                        assert(pre + diag_if(false, key@) =~= pre);
                    }
                    fallback
                },
                _ => {
                    match value_as_bool(v) {
                        Some(b) => {
                            proof {
                                assert(pre + diag_if(false, key@) =~= pre);
                            }
                            b
                        },
                        None => {
                            push_invalid_diag(diagnostics, key);
                            proof {
                                assert(diags_view(diagnostics@) =~= pre + diag_if(true, key@));
                            }
                            fallback
                        },
                    }
                },
            }
        },
    }
}

/// Look up an integer setting with its range, reporting a value that does
/// not convert.
fn get_int_field(
    m: &ConfigKeyMap,
    key: &String,
    lo: i32,
    hi: i32,
    fallback: i32,
    diagnostics: &mut Vec<Diagnostic>,
) -> (r: i32)
    requires
        0 <= lo,
        lo <= hi,
    ensures
        r as int == resolved_int(m@, key@, lo as int, hi as int, fallback as int),
        diags_view(final(diagnostics)@) == diags_view(old(diagnostics)@) + diag_if(
            int_key_invalid(m@, key@, lo as int, hi as int),
            key@,
        ),
{
    let ghost pre = diags_view(diagnostics@);
    let found = lookup_value(m, key);
    match found {
        None => {
            proof {
                assert(pre + diag_if(false, key@) =~= pre);
            }
            fallback
        },
        Some(v) => {
            match v {
                ConfigKeyValue::Null => {
                    proof {
                        assert(pre + diag_if(false, key@) =~= pre);
                    }
                    fallback
                },
                _ => {
                    match value_as_int(v, lo, hi) {
                        Some(n) => {
                            proof {
                                assert(pre + diag_if(false, key@) =~= pre);
                            }
                            n
                        },
                        None => {
                            push_invalid_diag(diagnostics, key);
                            proof {
                                assert(diags_view(diagnostics@) =~= pre + diag_if(true, key@));
                            }
                            fallback
                        },
                    }
                },
            }
        },
    }
}

/// Look up an optional integer setting, reporting a value that does not
/// convert; absent, `Null` and invalid values all resolve to no limit.
fn get_nullable_int_field(
    m: &ConfigKeyMap,
    key: &String,
    lo: i32,
    hi: i32,
    diagnostics: &mut Vec<Diagnostic>,
) -> (r: Option<i32>)
    requires
        0 <= lo,
        lo <= hi,
    ensures
        match r {
            Some(n) => resolved_nullable_int(m@, key@, lo as int, hi as int) == Some(n as int),
            None => resolved_nullable_int(m@, key@, lo as int, hi as int) is None,
        },
        diags_view(final(diagnostics)@) == diags_view(old(diagnostics)@) + diag_if(
            int_key_invalid(m@, key@, lo as int, hi as int),
            key@,
        ),
{
    let ghost pre = diags_view(diagnostics@);
    let found = lookup_value(m, key);
    match found {
        None => {
            proof {
                assert(pre + diag_if(false, key@) =~= pre);
            }
            None
        },
        Some(v) => {
            match v {
                ConfigKeyValue::Null => {
                    proof {
                        assert(pre + diag_if(false, key@) =~= pre);
                    }
                    None
                },
                _ => {
                    match value_as_int(v, lo, hi) {
                        Some(n) => {
                            proof {
                                assert(pre + diag_if(false, key@) =~= pre);
                            }
                            Some(n)
                        },
                        None => {
                            push_invalid_diag(diagnostics, key);
                            proof {
                                assert(diags_view(diagnostics@) =~= pre + diag_if(true, key@));
                            }
                            None
                        },
                    }
                },
            }
        },
    }
}

/// Look up the line-ending setting, reporting a value that does not convert.
fn get_new_line_kind_field(
    m: &ConfigKeyMap,
    key: &String,
    fallback: NewLineKind,
    diagnostics: &mut Vec<Diagnostic>,
) -> (r: NewLineKind)
    ensures
        r == resolved_new_line_kind(m@, key@, fallback),
        diags_view(final(diagnostics)@) == diags_view(old(diagnostics)@) + diag_if(
            new_line_kind_key_invalid(m@, key@),
            key@,
        ),
{
    let ghost pre = diags_view(diagnostics@);
    let found = lookup_value(m, key);
    match found {
        None => {
            proof {
                assert(pre + diag_if(false, key@) =~= pre);
            }
            fallback
        },
        Some(v) => {
            match v {
                ConfigKeyValue::Null => {
                    proof {
                        assert(pre + diag_if(false, key@) =~= pre);
                    }
                    fallback
                },
                _ => {
                    match value_as_new_line_kind(v) {
                        Some(k) => {
                            proof {
                                assert(pre + diag_if(false, key@) =~= pre);
                            }
                            k
                        },
                        None => {
                            push_invalid_diag(diagnostics, key);
                            proof {
                                assert(diags_view(diagnostics@) =~= pre + diag_if(true, key@));
                            }
                            fallback
                        },
                    }
                },
            }
        },
    }
}

/// One invalid-value diagnostic when the condition holds, nothing otherwise.
pub open spec fn diag_if(b: bool, key: Seq<char>) -> Seq<(Seq<char>, Seq<char>)> {
    if b {
        seq![(key, invalid_value_message())]
    } else {
        Seq::<(Seq<char>, Seq<char>)>::empty()
    }
}

fn push_invalid_diag(diagnostics: &mut Vec<Diagnostic>, key: &String)
    ensures
        diags_view(final(diagnostics)@) == diags_view(old(diagnostics)@).push(
            (key@, invalid_value_message()),
        ),
{
    let ghost pre = diags_view(diagnostics@);
    let d = Diagnostic {
        property_name: key.clone(),
        message: String::from_str("Found invalid value"),
    };
    diagnostics.push(d);
    proof {
        assert(diags_view(diagnostics@) =~= pre.push((key@, invalid_value_message())));
    }
}

/// The configuration the override map and global settings resolve to, field
/// by field along the precedence chain: override, then global (for the three
/// fields with a global analog), then the recommended default.
pub open spec fn spec_resolve_configuration(
    m: Seq<(Seq<char>, ConfigValueV)>,
    g: GlobalConfiguration,
) -> Configuration {
    Configuration {
        use_tabs: resolved_bool(m, "useTabs"@, global_use_tabs(g)),
        indent_width: resolved_int(m, "indentWidth"@, 1, 255, global_indent_width(g)) as u8,
        new_line_kind: resolved_new_line_kind(m, "newLineKind"@, global_new_line_kind(g)),
        uppercase: resolved_bool(m, "uppercase"@, false),
        lines_between_queries: resolved_int(m, "linesBetweenQueries"@, 0, 255, 1) as u8,
        inline: resolved_bool(m, "inline"@, false),
        max_inline_block: resolved_int(
            m,
            "maxInlineBlock"@,
            0,
            MAX_INT_SETTING as int,
            DEFAULT_MAX_INLINE_BLOCK as int,
        ) as usize,
        max_inline_arguments: match resolved_nullable_int(
            m,
            "maxInlineArguments"@,
            0,
            MAX_INT_SETTING as int,
        ) {
            Some(n) => Some(n as usize),
            None => None,
        },
        max_inline_top_level: match resolved_nullable_int(
            m,
            "maxInlineTopLevel"@,
            0,
            MAX_INT_SETTING as int,
        ) {
            Some(n) => Some(n as usize),
            None => None,
        },
        joins_as_top_level: resolved_bool(m, "joinsAsTopLevel"@, false),
    }
}

/// The invalid-value diagnostics, one per recognized key whose value does
/// not convert, in the order the fields are resolved.
pub open spec fn field_diags(m: Seq<(Seq<char>, ConfigValueV)>) -> Seq<(Seq<char>, Seq<char>)> {
    diag_if(bool_key_invalid(m, "useTabs"@), "useTabs"@) + diag_if(
        int_key_invalid(m, "indentWidth"@, 1, 255),
        "indentWidth"@,
    ) + diag_if(new_line_kind_key_invalid(m, "newLineKind"@), "newLineKind"@) + diag_if(
        bool_key_invalid(m, "uppercase"@),
        "uppercase"@,
    ) + diag_if(int_key_invalid(m, "linesBetweenQueries"@, 0, 255), "linesBetweenQueries"@)
        + diag_if(bool_key_invalid(m, "inline"@), "inline"@) + diag_if(
        int_key_invalid(m, "maxInlineBlock"@, 0, MAX_INT_SETTING as int),
        "maxInlineBlock"@,
    ) + diag_if(
        int_key_invalid(m, "maxInlineArguments"@, 0, MAX_INT_SETTING as int),
        "maxInlineArguments"@,
    ) + diag_if(
        int_key_invalid(m, "maxInlineTopLevel"@, 0, MAX_INT_SETTING as int),
        "maxInlineTopLevel"@,
    ) + diag_if(bool_key_invalid(m, "joinsAsTopLevel"@), "joinsAsTopLevel"@)
}

/// The keys the resolver recognizes.
pub open spec fn known_key(k: Seq<char>) -> bool {
    ||| k == "useTabs"@
    ||| k == "indentWidth"@
    ||| k == "newLineKind"@
    ||| k == "uppercase"@
    ||| k == "linesBetweenQueries"@
    ||| k == "inline"@
    ||| k == "maxInlineBlock"@
    ||| k == "maxInlineArguments"@
    ||| k == "maxInlineTopLevel"@
    ||| k == "joinsAsTopLevel"@
}

/// The unrecognized-key diagnostic an entry contributes, if any.
pub open spec fn unknown_diag_of(e: (Seq<char>, ConfigValueV)) -> Seq<(Seq<char>, Seq<char>)> {
    if known_key(e.0) {
        Seq::<(Seq<char>, Seq<char>)>::empty()
    } else {
        seq![(e.0, unknown_property_message())]
    }
}

/// The unrecognized-key diagnostics, one per entry whose key is not
/// recognized, in the order of the map's entries.
pub open spec fn unknown_diags(m: Seq<(Seq<char>, ConfigValueV)>) -> Seq<(Seq<char>, Seq<char>)>
    decreases m.len(),
{
    if m.len() == 0 {
        Seq::<(Seq<char>, Seq<char>)>::empty()
    } else {
        unknown_diags(m.drop_last()) + unknown_diag_of(m.last())
    }
}

/// Every diagnostic resolution reports: the invalid values first, then the
/// unrecognized keys.
pub open spec fn resolution_diags(m: Seq<(Seq<char>, ConfigValueV)>) -> Seq<
    (Seq<char>, Seq<char>),
> {
    field_diags(m) + unknown_diags(m)
}

/// The configuration an empty override map and empty global settings
/// resolve to: the recommended defaults throughout.
pub open spec fn spec_default_configuration() -> Configuration {
    spec_resolve_configuration(
        Seq::<(Seq<char>, ConfigValueV)>::empty(),
        crate::settings::spec_empty_global(),
    )
}

/// Is this key one the resolver recognizes?
fn is_known_key(key: &String) -> (r: bool)
    ensures
        r == known_key(key@),
{
    if key.eq(&String::from_str("useTabs")) {
        true
    } else if key.eq(&String::from_str("indentWidth")) {
        true
    } else if key.eq(&String::from_str("newLineKind")) {
        true
    } else if key.eq(&String::from_str("uppercase")) {
        true
    } else if key.eq(&String::from_str("linesBetweenQueries")) {
        true
    } else if key.eq(&String::from_str("inline")) {
        true
    } else if key.eq(&String::from_str("maxInlineBlock")) {
        true
    } else if key.eq(&String::from_str("maxInlineArguments")) {
        true
    } else if key.eq(&String::from_str("maxInlineTopLevel")) {
        true
    } else {
        key.eq(&String::from_str("joinsAsTopLevel"))
    }
}

/// Which files the formatter asks for: every `sql` file, no fixed names.
pub struct FileMatchingInfo {
    pub file_extensions: Vec<String>,
    pub file_names: Vec<String>,
}

/// What resolution returns: the configuration, the diagnostics, and the
/// file-matching descriptor.
pub struct PluginResolveConfigurationResult {
    pub config: Configuration,
    pub diagnostics: Vec<Diagnostic>,
    pub file_matching: FileMatchingInfo,
}

/// The SQL formatting handler: stateless; resolution and formatting are pure
/// functions of their arguments.
pub struct SqlPluginHandler {}

impl SqlPluginHandler {
    pub fn new() -> (r: SqlPluginHandler) {
        SqlPluginHandler {}
    }

    /// Resolve the override map against the global settings: always succeeds,
    /// returns the fully populated configuration, one diagnostic per invalid
    /// value and per unrecognized key, and the static file-matching
    /// descriptor.
    pub fn resolve_config(
        &self,
        config: ConfigKeyMap,
        global_config: &GlobalConfiguration,
    ) -> (r: PluginResolveConfigurationResult)
        ensures
            r.config == spec_resolve_configuration(config@, *global_config),
            diags_view(r.diagnostics@) == resolution_diags(config@),
            r.file_matching.file_extensions@.len() == 1,
            r.file_matching.file_extensions@[0]@ == "sql"@,
            r.file_matching.file_names@.len() == 0,
    {
        let mut diagnostics: Vec<Diagnostic> = Vec::new();
        proof {
            assert(diags_view(diagnostics@) =~= Seq::<(Seq<char>, Seq<char>)>::empty());
        }
        let g_use_tabs: bool = match global_config.use_tabs {
            Some(b) => b,
            None => false,
        };
        let g_indent_width: i32 = match global_config.indent_width {
            Some(w) => w as i32,
            None => 2,
        };
        let g_new_line_kind: NewLineKind = match global_config.new_line_kind {
            Some(k) => k,
            None => NewLineKind::LineFeed,
        };
        let use_tabs = get_bool_field(
            &config,
            &String::from_str("useTabs"),
            g_use_tabs,
            &mut diagnostics,
        );
        let indent_width = get_int_field(
            &config,
            &String::from_str("indentWidth"),
            1,
            255,
            g_indent_width,
            &mut diagnostics,
        );
        let new_line_kind = get_new_line_kind_field(
            &config,
            &String::from_str("newLineKind"),
            g_new_line_kind,
            &mut diagnostics,
        );
        let uppercase = get_bool_field(
            &config,
            &String::from_str("uppercase"),
            false,
            &mut diagnostics,
        );
        let lines_between_queries = get_int_field(
            &config,
            &String::from_str("linesBetweenQueries"),
            0,
            255,
            1,
            &mut diagnostics,
        );
        let inline = get_bool_field(&config, &String::from_str("inline"), false, &mut diagnostics);
        let max_inline_block = get_int_field(
            &config,
            &String::from_str("maxInlineBlock"),
            0,
            MAX_INT_SETTING,
            50,
            &mut diagnostics,
        );
        let max_inline_arguments = get_nullable_int_field(
            &config,
            &String::from_str("maxInlineArguments"),
            0,
            MAX_INT_SETTING,
            &mut diagnostics,
        );
        let max_inline_top_level = get_nullable_int_field(
            &config,
            &String::from_str("maxInlineTopLevel"),
            0,
            MAX_INT_SETTING,
            &mut diagnostics,
        );
        let joins_as_top_level = get_bool_field(
            &config,
            &String::from_str("joinsAsTopLevel"),
            false,
            &mut diagnostics,
        );
        proof {
            assert(diags_view(diagnostics@) =~= field_diags(config@));
        }
        let resolved_config = Configuration {
            use_tabs,
            indent_width: indent_width as u8,
            new_line_kind,
            uppercase,
            lines_between_queries: lines_between_queries as u8,
            inline,
            max_inline_block: max_inline_block as usize,
            max_inline_arguments: match max_inline_arguments {
                Some(n) => Some(n as usize),
                None => None,
            },
            max_inline_top_level: match max_inline_top_level {
                Some(n) => Some(n as usize),
                None => None,
            },
            joins_as_top_level,
        };
        proof {
            assert(resolved_config == spec_resolve_configuration(config@, *global_config));
        }
        let n = config.entries.len();
        let mut idx: usize = 0;
        proof {
            assert(config@.take(0) =~= Seq::<(Seq<char>, ConfigValueV)>::empty());
            assert(diags_view(diagnostics@) + unknown_diags(config@.take(0)) =~= diags_view(
                diagnostics@,
            ));
        }
        while idx < n
            invariant
                idx <= n,
                n == config.entries.len(),
                config@.len() == n,
                diags_view(diagnostics@) == field_diags(config@) + unknown_diags(
                    config@.take(idx as int),
                ),
            decreases n - idx,
        {
            let ghost pre = diags_view(diagnostics@);
            let known = is_known_key(&config.entries[idx].0);
            proof {
                assert(config@[idx as int].0 == config.entries@[idx as int].0@);
                assert(config@.take(idx + 1).drop_last() =~= config@.take(idx as int));
                assert(config@.take(idx + 1).last() == config@[idx as int]);
            }
            if !known {
                push_unknown_diag(&mut diagnostics, &config.entries[idx].0);
                proof {
                    assert(diags_view(diagnostics@) =~= field_diags(config@) + unknown_diags(
                        config@.take(idx + 1),
                    ));
                }
            } else {
                proof {
                    assert(unknown_diag_of(config@[idx as int]) =~= Seq::<
                        (Seq<char>, Seq<char>),
                    >::empty());
                    assert(diags_view(diagnostics@) =~= field_diags(config@) + unknown_diags(
                        config@.take(idx + 1),
                    ));
                }
            }
            idx = idx + 1;
        }
        proof {
            assert(config@.take(n as int) =~= config@);
        }
        let mut extensions: Vec<String> = Vec::new();
        extensions.push(String::from_str("sql"));
        let file_matching = FileMatchingInfo { file_extensions: extensions, file_names: Vec::new() };
        PluginResolveConfigurationResult { config: resolved_config, diagnostics, file_matching }
    }
}

impl Default for Configuration {
    /// The configuration resolved from nothing at all: every field its
    /// recommended default.
    fn default() -> (r: Configuration)
        ensures
            r == spec_default_configuration(),
    {
        let handler = SqlPluginHandler::new();
        let result = handler.resolve_config(ConfigKeyMap::new(), &GlobalConfiguration::default());
        result.config
    }
}

fn push_unknown_diag(diagnostics: &mut Vec<Diagnostic>, key: &String)
    ensures
        diags_view(final(diagnostics)@) == diags_view(old(diagnostics)@).push(
            (key@, unknown_property_message()),
        ),
{
    let ghost pre = diags_view(diagnostics@);
    let d = Diagnostic {
        property_name: key.clone(),
        message: String::from_str("Unknown property in configuration"),
    };
    diagnostics.push(d);
    proof {
        assert(diags_view(diagnostics@) =~= pre.push((key@, unknown_property_message())));
    }
}

} // verus!
