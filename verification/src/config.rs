use crate::text::owned;
use vstd::prelude::*;

verus! {

/// The contents of a project's `ts-native.toml`.
pub struct ProjectConfig {
    pub project: ProjectInfo,
    pub compile: CompileConfig,
    pub extensions: ExtensionsConfig,
    pub link: LinkConfig,
}

/// The `[project]` table.
pub struct ProjectInfo {
    pub name: String,
    pub version: String,
}

/// The `[compile]` table.
pub struct CompileConfig {
    pub input: String,
    pub output: String,
    pub target: Option<String>,
}

/// The `[extensions]` table.
pub struct ExtensionsConfig {
    pub auto_discover: bool,
    pub items: Vec<ExtensionItem>,
    pub exclude: Vec<String>,
}

/// One explicitly listed extension: a path or a crate name.
pub struct ExtensionItem {
    pub path: Option<String>,
    pub crate_name: Option<String>,
}

/// The `[link]` table.
pub struct LinkConfig {
    pub linker: String,
    pub flags: Vec<String>,
}

/// The input file used when the configuration names none.
pub fn default_input() -> (s: String)
    ensures
        s@ == "src/main.ts"@,
{
    owned("src/main.ts")
}

/// The output file used when the configuration names none.
pub fn default_output() -> (s: String)
    ensures
        s@ == "a.exe"@,
{
    owned("a.exe")
}

/// Extension discovery is on unless the configuration turns it off.
pub fn default_true() -> (b: bool)
    ensures
        b,
{
    true
}

/// The linker named by a `[link]` table that names none.
pub fn default_linker() -> (s: String)
    ensures
        s@ == "auto"@,
{
    owned("auto")
}

/// The configuration of a project without a configuration file.
pub open spec fn is_default_config(c: ProjectConfig) -> bool {
    &&& c.project.name@ == Seq::<char>::empty()
    &&& c.project.version@ == Seq::<char>::empty()
    &&& c.compile.input@ == "src/main.ts"@
    &&& c.compile.output@ == "a.exe"@
    &&& c.compile.target is None
    &&& c.extensions.auto_discover
    &&& c.extensions.items@.len() == 0
    &&& c.extensions.exclude@.len() == 0
    &&& c.link.linker@ == Seq::<char>::empty()
    &&& c.link.flags@.len() == 0
}

impl Default for ProjectInfo {
    fn default() -> (r: Self)
        ensures
            r.name@ == Seq::<char>::empty(),
            r.version@ == Seq::<char>::empty(),
    {
        ProjectInfo { name: String::new(), version: String::new() }
    }
}

impl Default for CompileConfig {
    fn default() -> (r: Self)
        ensures
            r.input@ == "src/main.ts"@,
            r.output@ == "a.exe"@,
            r.target is None,
    {
        CompileConfig { input: default_input(), output: default_output(), target: None }
    }
}

impl Default for ExtensionsConfig {
    fn default() -> (r: Self)
        ensures
            r.auto_discover,
            r.items@.len() == 0,
            r.exclude@.len() == 0,
    {
        ExtensionsConfig { auto_discover: true, items: Vec::new(), exclude: Vec::new() }
    }
}

impl Default for LinkConfig {
    /// An empty `[link]` table value: no linker name, no flags.
    fn default() -> (r: Self)
        ensures
            r.linker@ == Seq::<char>::empty(),
            r.flags@.len() == 0,
    {
        LinkConfig { linker: String::new(), flags: Vec::new() }
    }
}

impl Default for ProjectConfig {
    fn default() -> (r: Self)
        ensures
            is_default_config(r),
    {
        ProjectConfig {
            project: ProjectInfo::default(),
            compile: CompileConfig::default(),
            extensions: ExtensionsConfig::default(),
            link: LinkConfig::default(),
        }
    }
}

impl ProjectConfig {
    /// The file, inside a project directory, that holds its configuration.
    pub fn config_file_name() -> (s: &'static str)
        ensures
            s@ == "ts-native.toml"@,
    {
        "ts-native.toml"
    }

    /// Extensions are listed one by one in the configuration.
    pub fn has_explicit_extensions(&self) -> (b: bool)
        ensures
            b == (self.extensions.items@.len() > 0),
    {
        !self.extensions.items.is_empty()
    }

    /// Plugins are discovered automatically: discovery is on and none is listed.
    pub fn should_auto_discover(&self) -> (b: bool)
        ensures
            b == (self.extensions.auto_discover && self.extensions.items@.len() == 0),
    {
        self.extensions.auto_discover && !self.has_explicit_extensions()
    }

    /// The extensions that discovery leaves out.
    pub fn get_excluded_extensions(&self) -> (r: &[String])
        ensures
            r@ == self.extensions.exclude@,
    {
        self.extensions.exclude.as_slice()
    }
}

} // verus!
