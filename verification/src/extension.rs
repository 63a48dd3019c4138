use crate::text::{owned, str_eq, texts};
use vstd::prelude::*;

verus! {

/// A plugin's manifest: its package, the functions it provides by
/// TypeScript name, and what linking it needs.
pub struct Extension {
    pub package: ExtensionPackage,
    pub functions: Vec<(String, ExternalFunction)>,
    pub link: LinkConfig,
}

/// The `[package]` table of a manifest.
pub struct ExtensionPackage {
    pub name: String,
    pub version: String,
    pub description: String,
}

/// A function a plugin provides.
pub struct ExternalFunction {
    pub args: Vec<ArgType>,
    pub ret: RetType,
    pub impl_name: String,
    pub is_property: bool,
}

/// Type of a plugin function's argument.
#[derive(Debug, Clone, Copy, PartialEq, Eq, Structural)]
pub enum ArgType {
    Number,
    String,
    Boolean,
    Any,
    Array,
    Object,
    Function,
}

/// Type of a plugin function's result.
#[derive(Debug, Clone, Copy, PartialEq, Eq, Structural)]
pub enum RetType {
    Number,
    String,
    Boolean,
    Any,
    Array,
    Object,
    Void,
}

/// The `[link]` table of a manifest.
pub struct LinkConfig {
    pub runtime: Option<String>,
    pub lib: Option<String>,
    pub libs: Vec<String>,
    pub flags: Vec<String>,
    pub ffi: Option<String>,
}

impl Default for LinkConfig {
    fn default() -> (r: Self)
        ensures
            r.runtime is None,
            r.lib is None,
            r.libs@.len() == 0,
            r.flags@.len() == 0,
            r.ffi is None,
    {
        LinkConfig { runtime: None, lib: None, libs: Vec::new(), flags: Vec::new(), ffi: None }
    }
}

/// What the extension logic reads of a crate's `Cargo.toml`: the names of
/// its dependencies and its package metadata.
pub struct CargoToml {
    pub dependencies: Vec<String>,
    pub package: CargoPackage,
}

/// The `[package]` table of a `Cargo.toml`.
pub struct CargoPackage {
    pub metadata: CargoMetadata,
}

/// The `[package.metadata]` table.
pub struct CargoMetadata {
    pub ts_native: Option<TsNativeMetadata>,
}

/// The `[package.metadata.ts-native]` table.
pub struct TsNativeMetadata {
    pub plugin: bool,
    pub manifest: Option<String>,
}

impl Default for CargoPackage {
    fn default() -> (r: Self)
        ensures
            r.metadata.ts_native is None,
    {
        CargoPackage { metadata: CargoMetadata { ts_native: None } }
    }
}

impl Default for CargoMetadata {
    fn default() -> (r: Self)
        ensures
            r.ts_native is None,
    {
        CargoMetadata { ts_native: None }
    }
}

/// The TypeScript names in a list of named functions.
pub open spec fn function_names(fs: Seq<(String, ExternalFunction)>) -> Seq<Seq<char>> {
    fs.map_values(|f: (String, ExternalFunction)| f.0@)
}

impl Extension {
    /// No TypeScript name is provided twice.
    pub open spec fn wf(&self) -> bool {
        function_names(self.functions@).no_duplicates()
    }

    /// The functions as a map from TypeScript name to runtime symbol.
    pub open spec fn symbol_map(&self) -> Map<Seq<char>, Seq<char>> {
        pairs_map(self.functions@.map_values(|f: (String, ExternalFunction)| (f.0@, f.1.impl_name@)))
    }
}

/// The map that a list of (key, value) pairs with distinct keys stands for;
/// where a key repeats, the last pair wins.
pub open spec fn pairs_map(ps: Seq<(Seq<char>, Seq<char>)>) -> Map<Seq<char>, Seq<char>>
    decreases ps.len(),
{
    if ps.len() == 0 {
        Map::empty()
    } else {
        pairs_map(ps.drop_last()).insert(ps.last().0, ps.last().1)
    }
}

impl CargoToml {
    /// The crate's manifest marks it as a plugin.
    pub open spec fn spec_is_plugin(&self) -> bool {
        self.package.metadata.ts_native matches Some(m) && m.plugin
    }

    /// Whether the crate declares itself a ts-native plugin.
    pub fn is_plugin(&self) -> (b: bool)
        ensures
            b == self.spec_is_plugin(),
    {
        match &self.package.metadata.ts_native {
            Some(meta) => meta.plugin,
            None => false,
        }
    }

    /// The manifest path, relative to the crate, that the metadata names.
    pub fn listed_manifest(&self) -> (r: Option<&String>)
        ensures
            r matches Some(p) ==> self.package.metadata.ts_native matches Some(m) && m.manifest
                == Some(*p),
            r is None ==> !(self.package.metadata.ts_native matches Some(m) && m.manifest is Some),
    {
        match &self.package.metadata.ts_native {
            Some(meta) => match &meta.manifest {
                Some(p) => Some(p),
                None => None,
            },
            None => None,
        }
    }
}

/// The manifest file a plugin directory holds when its `Cargo.toml` names none.
pub fn default_manifest_name() -> (s: &'static str)
    ensures
        s@ == "ts-native.toml"@,
{
    "ts-native.toml"
}

/// The dependencies whose own `Cargo.toml` declares a plugin, in order.
/// `manifests[i]` is the `Cargo.toml` of `names[i]`, where it was found and read.
pub fn find_plugin_crates(names: &Vec<String>, manifests: &Vec<Option<CargoToml>>) -> (r: Vec<
    String,
>)
    requires
        names@.len() == manifests@.len(),
    ensures
        texts(r@) == plugin_names(texts(names@), manifests@),
{
    let mut out: Vec<String> = Vec::new();
    let mut i: usize = 0;
    while i < names.len()
        invariant
            names@.len() == manifests@.len(),
            i <= names@.len(),
            texts(out@) == plugin_names(texts(names@).take(i as int), manifests@.take(i as int)),
        decreases names@.len() - i,
    {
        let keep = match &manifests[i] {
            Some(m) => m.is_plugin(),
            None => false,
        };
        proof {
            assert(texts(names@).take(i + 1).drop_last() =~= texts(names@).take(i as int));
            assert(manifests@.take(i + 1).drop_last() =~= manifests@.take(i as int));
        }
        if keep {
            out.push(names[i].clone());
            assert(texts(out@) =~= plugin_names(texts(names@).take(i as int), manifests@.take(i as int)).push(names@[i as int]@));
        }
        i = i + 1;
    }
    assert(texts(names@).take(i as int) =~= texts(names@));
    assert(manifests@.take(i as int) =~= manifests@);
    out
}

/// The names whose manifest is present and declares a plugin, in order.
pub open spec fn plugin_names(names: Seq<Seq<char>>, manifests: Seq<Option<CargoToml>>) -> Seq<Seq<char>>
    decreases names.len(),
{
    if names.len() == 0 || manifests.len() == 0 {
        Seq::empty()
    } else {
        let rest = plugin_names(names.drop_last(), manifests.drop_last());
        if manifests.last() matches Some(m) && m.spec_is_plugin() {
            rest.push(names.last())
        } else {
            rest
        }
    }
}

/// Whether a plugin directory named `dir_name` is to be loaded: with no
/// filter every directory is, with a filter only those it names.
pub fn is_allowed_plugin(filter: Option<&[String]>, dir_name: &str) -> (b: bool)
    ensures
        b == (filter matches Some(list) ==> texts(list@).contains(dir_name@)),
{
    match filter {
        None => true,
        Some(list) => {
            let mut i: usize = 0;
            while i < list.len()
                invariant
                    filter == Some(list),
                    i <= list@.len(),
                    forall|k: int| 0 <= k < i ==> list@[k]@ != dir_name@,
                decreases list@.len() - i,
            {
                if str_eq(list[i].as_str(), dir_name) {
                    assert(texts(list@)[i as int] == dir_name@);
                    return true;
                }
                i = i + 1;
            }
            assert forall|k: int| 0 <= k < texts(list@).len() implies texts(list@)[k]
                != dir_name@ by {
                assert(texts(list@)[k] == list@[k]@);
            }
            false
        },
    }
}

/// All loaded plugins and the runtime symbol of every TypeScript function they provide.
pub struct ExtensionRegistry {
    pub extensions: Vec<Extension>,
    pub function_map: Vec<(String, String)>,
}

/// The keys of an association list.
pub open spec fn assoc_keys(v: Seq<(String, String)>) -> Seq<Seq<char>> {
    v.map_values(|p: (String, String)| p.0@)
}

/// An association list as plain text pairs.
pub open spec fn assoc_pairs(v: Seq<(String, String)>) -> Seq<(Seq<char>, Seq<char>)> {
    v.map_values(|p: (String, String)| (p.0@, p.1@))
}

impl ExtensionRegistry {
    /// No TypeScript name is mapped twice.
    pub open spec fn wf(&self) -> bool {
        assoc_keys(self.function_map@).no_duplicates()
    }

    /// The registry as a map from TypeScript name to runtime symbol.
    pub open spec fn symbols(&self) -> Map<Seq<char>, Seq<char>> {
        pairs_map(assoc_pairs(self.function_map@))
    }

    pub fn new() -> (r: Self)
        ensures
            r.wf(),
            r.extensions@.len() == 0,
            r.symbols() == Map::<Seq<char>, Seq<char>>::empty(),
    {
        let r = ExtensionRegistry { extensions: Vec::new(), function_map: Vec::new() };
        assert(assoc_pairs(r.function_map@) =~= Seq::empty());
        assert(assoc_keys(r.function_map@) =~= Seq::empty());
        r
    }
}

pub proof fn lemma_pairs_map_at(ps: Seq<(Seq<char>, Seq<char>)>, i: int)
    requires
        ps.map_values(|p: (Seq<char>, Seq<char>)| p.0).no_duplicates(),
        0 <= i < ps.len(),
    ensures
        pairs_map(ps).contains_key(ps[i].0),
        pairs_map(ps)[ps[i].0] == ps[i].1,
    decreases ps.len(),
{
    let keys = ps.map_values(|p: (Seq<char>, Seq<char>)| p.0);
    if i < ps.len() - 1 {
        let rest = ps.drop_last();
        assert(rest.map_values(|p: (Seq<char>, Seq<char>)| p.0) =~= keys.drop_last());
        lemma_pairs_map_at(rest, i);
        assert(keys[i] != keys[ps.len() - 1]);
    }
}

pub proof fn lemma_pairs_map_absent(ps: Seq<(Seq<char>, Seq<char>)>, k: Seq<char>)
    requires
        !ps.map_values(|p: (Seq<char>, Seq<char>)| p.0).contains(k),
    ensures
        !pairs_map(ps).contains_key(k),
    decreases ps.len(),
{
    if ps.len() > 0 {
        let keys = ps.map_values(|p: (Seq<char>, Seq<char>)| p.0);
        let rest = ps.drop_last();
        assert(rest.map_values(|p: (Seq<char>, Seq<char>)| p.0) =~= keys.drop_last());
        if rest.map_values(|p: (Seq<char>, Seq<char>)| p.0).contains(k) {
            let w = choose|j: int| 0 <= j < keys.drop_last().len() && keys.drop_last()[j] == k;
            assert(keys[w] == k);
        }
        lemma_pairs_map_absent(rest, k);
        assert(keys[ps.len() - 1] != k);
    }
}

pub proof fn lemma_pairs_map_update(ps: Seq<(Seq<char>, Seq<char>)>, i: int, v: Seq<char>)
    requires
        ps.map_values(|p: (Seq<char>, Seq<char>)| p.0).no_duplicates(),
        0 <= i < ps.len(),
    ensures
        pairs_map(ps.update(i, (ps[i].0, v))) == pairs_map(ps).insert(ps[i].0, v),
    decreases ps.len(),
{
    let k = ps[i].0;
    let ns = ps.update(i, (k, v));
    let keys = ps.map_values(|p: (Seq<char>, Seq<char>)| p.0);
    if i == ps.len() - 1 {
        assert(ns.drop_last() =~= ps.drop_last());
        assert(pairs_map(ns) =~= pairs_map(ps).insert(k, v));
    } else {
        let rest = ps.drop_last();
        assert(rest.map_values(|p: (Seq<char>, Seq<char>)| p.0) =~= keys.drop_last());
        lemma_pairs_map_update(rest, i, v);
        assert(ns.drop_last() =~= rest.update(i, (k, v)));
        assert(keys[i] != keys[ps.len() - 1]);
        assert(pairs_map(ns) =~= pairs_map(ps).insert(k, v));
    }
}

/// Maps `key` to `value` in an association list with distinct keys: an
/// existing key keeps its place, a new key goes to the end.
fn assoc_insert(v: &mut Vec<(String, String)>, key: String, value: String)
    requires
        assoc_keys(old(v)@).no_duplicates(),
    ensures
        assoc_keys(final(v)@).no_duplicates(),
        pairs_map(assoc_pairs(final(v)@)) == pairs_map(assoc_pairs(old(v)@)).insert(key@, value@),
{
    let ghost start = v@;
    let mut i: usize = 0;
    while i < v.len()
        invariant
            v@ == start,
            start == old(v)@,
            assoc_keys(start).no_duplicates(),
            i <= v@.len(),
            forall|j: int| 0 <= j < i ==> v@[j].0@ != key@,
        decreases v@.len() - i,
    {
        if v[i].0 == key {
            let ghost ps = assoc_pairs(start);
            proof {
                assert(ps.map_values(|p: (Seq<char>, Seq<char>)| p.0) =~= assoc_keys(start));
                lemma_pairs_map_update(ps, i as int, value@);
            }
            v.set(i, (key, value));
            proof {
                assert(assoc_pairs(v@) =~= ps.update(i as int, (ps[i as int].0, value@)));
                assert(assoc_keys(v@) =~= assoc_keys(start));
            }
            return;
        }
        i = i + 1;
    }
    proof {
        let keys = assoc_keys(start);
        assert forall|j: int| 0 <= j < keys.len() implies keys[j] != key@ by {
            assert(keys[j] == v@[j].0@);
        }
        assert(assoc_keys(start.push((key, value))) =~= keys.push(key@));
        assert(assoc_pairs(start.push((key, value))) =~= assoc_pairs(start).push((key@, value@)));
        assert(assoc_pairs(start.push((key, value))).drop_last() =~= assoc_pairs(start));
    }
    v.push((key, value));
}

impl ExtensionRegistry {
    /// Adds a plugin: each of its functions is mapped (by TypeScript name) to
    /// its runtime symbol, replacing an earlier mapping of the same name.
    pub fn register(&mut self, extension: Extension)
        requires
            old(self).wf(),
        ensures
            final(self).wf(),
            final(self).symbols() == old(self).symbols().union_prefer_right(
                extension.symbol_map(),
            ),
            final(self).extensions@ == old(self).extensions@.push(extension),
    {
        let ghost start = self.symbols();
        let ghost fpairs = extension.functions@.map_values(
            |f: (String, ExternalFunction)| (f.0@, f.1.impl_name@),
        );
        let mut i: usize = 0;
        while i < extension.functions.len()
            invariant
                self.wf(),
                self.extensions@ == old(self).extensions@,
                start == old(self).symbols(),
                fpairs == extension.functions@.map_values(
                    |f: (String, ExternalFunction)| (f.0@, f.1.impl_name@),
                ),
                i <= extension.functions@.len(),
                self.symbols() == start.union_prefer_right(pairs_map(fpairs.take(i as int))),
            decreases extension.functions@.len() - i,
        {
            let name = extension.functions[i].0.clone();
            let symbol = extension.functions[i].1.impl_name.clone();
            assoc_insert(&mut self.function_map, name, symbol);
            proof {
                assert(fpairs.take(i + 1).drop_last() =~= fpairs.take(i as int));
                assert(self.symbols() =~= start.union_prefer_right(pairs_map(fpairs.take(i + 1))));
            }
            i = i + 1;
        }
        assert(fpairs.take(i as int) =~= fpairs);
        self.extensions.push(extension);
    }

    fn find_symbol(&self, ts_name: &str) -> (r: Option<usize>)
        requires
            self.wf(),
        ensures
            r matches Some(i) ==> i < self.function_map@.len() && self.symbols().contains_key(
                ts_name@,
            ) && self.symbols()[ts_name@] == self.function_map@[i as int].1@,
            r is None ==> !self.symbols().contains_key(ts_name@),
    {
        let ghost ps = assoc_pairs(self.function_map@);
        proof {
            assert(ps.map_values(|p: (Seq<char>, Seq<char>)| p.0) =~= assoc_keys(
                self.function_map@,
            ));
        }
        let mut i: usize = 0;
        while i < self.function_map.len()
            invariant
                self.wf(),
                ps == assoc_pairs(self.function_map@),
                ps.map_values(|p: (Seq<char>, Seq<char>)| p.0) == assoc_keys(self.function_map@),
                i <= self.function_map@.len(),
                forall|j: int| 0 <= j < i ==> self.function_map@[j].0@ != ts_name@,
            decreases self.function_map@.len() - i,
        {
            if str_eq(self.function_map[i].0.as_str(), ts_name) {
                proof {
                    lemma_pairs_map_at(ps, i as int);
                }
                return Some(i);
            }
            i = i + 1;
        }
        proof {
            let keys = ps.map_values(|p: (Seq<char>, Seq<char>)| p.0);
            assert forall|j: int| 0 <= j < keys.len() implies keys[j] != ts_name@ by {
                assert(keys[j] == self.function_map@[j].0@);
            }
            lemma_pairs_map_absent(ps, ts_name@);
        }
        None
    }

    /// The runtime symbol registered for a TypeScript name.
    pub fn get_c_name(&self, ts_name: &str) -> (r: Option<&String>)
        requires
            self.wf(),
        ensures
            r is Some <==> self.symbols().contains_key(ts_name@),
            r matches Some(s) ==> s@ == self.symbols()[ts_name@],
    {
        match self.find_symbol(ts_name) {
            Some(i) => Some(&self.function_map[i].1),
            None => None,
        }
    }

    /// Whether a plugin provides the TypeScript name.
    pub fn is_external_function(&self, ts_name: &str) -> (b: bool)
        requires
            self.wf(),
        ensures
            b == self.symbols().contains_key(ts_name@),
    {
        self.find_symbol(ts_name).is_some()
    }
}

/// Which manifest of a plugin directory is read.
#[derive(Debug, Clone, Copy, PartialEq, Eq, Structural)]
pub enum ManifestSource {
    /// The file that the directory's `Cargo.toml` names.
    Listed,
    /// `ts-native.toml`.
    Default,
    /// Neither exists: the plugin cannot be loaded.
    Missing,
}

/// The manifest to read: the one `Cargo.toml` names where it names one
/// (`listed_exists` is `Some`) and that file exists, else `ts-native.toml`
/// where it exists.
pub fn choose_manifest(listed_exists: Option<bool>, default_exists: bool) -> (r: ManifestSource)
    ensures
        r == (if listed_exists == Some(true) {
            ManifestSource::Listed
        } else if default_exists {
            ManifestSource::Default
        } else {
            ManifestSource::Missing
        }),
{
    match listed_exists {
        Some(true) => ManifestSource::Listed,
        _ => if default_exists {
            ManifestSource::Default
        } else {
            ManifestSource::Missing
        },
    }
}

} // verus!
