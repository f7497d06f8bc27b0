//! The configuration of a fence that imports documentation.
use vstd::prelude::*;
use crate::config::{
    entries_view, parse_table, table_entry, table_of, text_entry, text_of, toml_table, ConfigError,
    ConfigFault, ConfigItem, ConfigValue,
};

verus! {

/// How the links of documentation to items of its crate are to be resolved. The
/// settings are not read here: this holds the configuration in which the table
/// `intralinks` stands, as it was written.
#[derive(Debug, PartialEq, Eq)]
pub struct IntralinksConfig {
    pub toml: String,
}

/// What a fence that imports documentation asks for.
#[derive(Debug, PartialEq, Eq)]
pub struct RustDocOptions {
    /// The path of the source file, as the configuration gives it.
    pub source: String,
    /// The package of the work space to which the source file belongs, where the
    /// work space has more than one.
    pub workspace_project: Option<String>,
    /// How links to items of the crate are to be resolved.
    pub intralinks: Option<IntralinksConfig>,
}

/// The model of a `RustDocOptions`.
pub struct ImportRequest {
    pub source: Seq<char>,
    pub workspace_project: Option<Seq<char>>,
    pub intralinks: Option<Seq<char>>,
}

impl View for RustDocOptions {
    type V = ImportRequest;

    open spec fn view(&self) -> ImportRequest {
        ImportRequest {
            source: self.source@,
            workspace_project: match self.workspace_project {
                Some(name) => Some(name@),
                None => None,
            },
            intralinks: match self.intralinks {
                Some(config) => Some(config.toml@),
                None => None,
            },
        }
    }
}

/// What a configuration table asks for. The key `source` is required and holds a
/// string, `workspace_project` may hold a string, and `intralinks` may hold a
/// table; keys that are not known are passed over. `text` is the configuration as
/// it was written. The keys are read in the order source, workspace_project,
/// intralinks, and the first that is absent where required, or whose value is of
/// a wrong kind, is the fault.
pub open spec fn import_request(entries: Seq<(Seq<char>, ConfigItem)>, text: Seq<char>) -> Result<
    ImportRequest,
    ConfigFault,
> {
    match text_of(entries, "source"@) {
        Err(e) => Err(e),
        Ok(None) => Err(ConfigFault::Missing("source"@)),
        Ok(Some(source)) => match text_of(entries, "workspace_project"@) {
            Err(e) => Err(e),
            Ok(workspace_project) => match table_of(entries, "intralinks"@) {
                Err(e) => Err(e),
                Ok(has_intralinks) => Ok(
                    ImportRequest {
                        source,
                        workspace_project,
                        intralinks: if has_intralinks {
                            Some(text)
                        } else {
                            None
                        },
                    },
                ),
            },
        },
    }
}

/// What a configuration text asks for.
pub open spec fn import_request_of(text: Seq<char>) -> Result<ImportRequest, ConfigFault> {
    match toml_table(text) {
        Ok(entries) => import_request(entries, text),
        Err(message) => Err(ConfigFault::Syntax(message)),
    }
}

/// The model of options that were read.
pub open spec fn request_view(r: Result<RustDocOptions, ConfigError>) -> Result<
    ImportRequest,
    ConfigFault,
> {
    match r {
        Ok(options) => Ok(options@),
        Err(e) => Err(e@),
    }
}

impl RustDocOptions {
    /// What a configuration table asks for; `text` is the configuration as it was
    /// written.
    pub fn from_entries(entries: &Vec<(String, ConfigValue)>, text: &str) -> (r: Result<
        RustDocOptions,
        ConfigError,
    >)
        ensures
            request_view(r) == import_request(entries_view(entries@), text@),
    {
        let source = match text_entry(entries, "source") {
            Ok(Some(s)) => s,
            Ok(None) => {
                return Err(ConfigError::Missing("source".to_string()));
            },
            Err(e) => {
                return Err(e);
            },
        };
        let workspace_project = match text_entry(entries, "workspace_project") {
            Ok(name) => name,
            Err(e) => {
                return Err(e);
            },
        };
        let intralinks = match table_entry(entries, "intralinks") {
            Ok(true) => Some(IntralinksConfig { toml: text.to_string() }),
            Ok(false) => None,
            Err(e) => {
                return Err(e);
            },
        };
        Ok(RustDocOptions { source, workspace_project, intralinks })
    }

    /// What a configuration text asks for.
    pub fn from_toml(text: &str) -> (r: Result<RustDocOptions, ConfigError>)
        ensures
            request_view(r) == import_request_of(text@),
    {
        match parse_table(text) {
            Ok(entries) => RustDocOptions::from_entries(&entries, text),
            Err(message) => Err(ConfigError::Syntax(message)),
        }
    }
}

} // verus!
