//! The registry of named configurations: one set read from the production
//! directory and, in development mode, one from the development directory
//! whose entries shadow production entries of the same name.
//!
//! Listing a directory and reading its files is the caller's part; a
//! `Listing` hands over what came of it, entry by entry, and the scan here
//! decides which files count, what they are named, and which failure ends it.
use vstd::prelude::*;
use std::cmp::Ordering;
use std::path::PathBuf;
use crate::configuration::{
    format_for, format_of, outcome_result, Configuration, ConfigurationView, Extension, Outcome,
};
use crate::value::ValueView;
use crate::error::{kind_description, Error, ErrorKind, ErrorView};
use crate::text::compare_text;

verus! {

/// One entry of a configuration directory, as the listing gives it, with
/// what came of reading and parsing it where it is a configuration file.
pub struct ScannedFile {
    /// The entry's path.
    pub path: PathBuf,
    /// Whether the entry is a regular file.
    pub is_file: bool,
    /// The file name without its extension; `None` where it is not valid
    /// text.
    pub stem: Option<String>,
    /// The extension of the path.
    pub extension: Extension,
    /// What reading and parsing the file gave; `None` where it was not read.
    pub outcome: Option<Outcome>,
}

/// A directory listing: its entries in the order the directory gives them,
/// each one or why it could not be read; or why the directory could not be
/// listed.
pub type Listing = Result<Vec<Result<ScannedFile, String>>, String>;

/// A registry seen as the name and configuration of each entry, in order.
pub type RegistryView = Seq<(Seq<char>, ConfigurationView)>;

/// Whether an entry is a configuration file: a regular file whose extension
/// names a format (`json`, `yml` or `yaml`).
pub open spec fn handled(f: ScannedFile) -> bool {
    f.is_file && format_of(f.extension) is Ok
}

/// The description of the error for a name that a registry already holds.
pub open spec fn duplicate_message(name: Seq<char>) -> Seq<char> {
    "a configuration already exists for '"@ + name + "'"@
}

/// What loading a configuration file gives, from what reading it gave: the
/// parsed value, or the error; a file that was not read fails as a read.
pub open spec fn file_load(o: Option<Outcome>) -> Result<ValueView, ErrorView> {
    match o {
        None => Err((ErrorKind::Other, "file was not read"@)),
        Some(x) => outcome_result(x),
    }
}

/// Whether some entry of the registry has the name.
pub open spec fn has_name(reg: RegistryView, name: Seq<char>) -> bool {
    exists|i: int| 0 <= i < reg.len() && #[trigger] reg[i].0 == name
}

/// Each name occurs once.
pub open spec fn names_unique(reg: RegistryView) -> bool {
    forall|i: int, j: int| 0 <= i < j < reg.len() ==> #[trigger] reg[i].0 != #[trigger] reg[j].0
}

/// One step of a scan: an unreadable entry fails it, an entry that is no
/// configuration file is skipped, a configuration file is named by its stem,
/// loaded, and added under a name the registry does not hold yet.
pub open spec fn scan_step(reg: RegistryView, e: Result<ScannedFile, String>) -> Result<
    RegistryView,
    ErrorView,
> {
    match e {
        Err(d) => Err((ErrorKind::Other, d@)),
        Ok(f) => if !handled(f) {
            Ok(reg)
        } else {
            match f.stem {
                None => Err((ErrorKind::Other, "invalid file name"@)),
                Some(s) => match file_load(f.outcome) {
                    Err(e) => Err(e),
                    Ok(v) => if has_name(reg, s@) {
                        Err((ErrorKind::Other, duplicate_message(s@)))
                    } else {
                        Ok(reg.push((s@, (f.path, f.extension, Some(v)))))
                    },
                },
            }
        },
    }
}

/// A scan of entries in order: the registry it leaves and the first failure,
/// if any; the entries after a failure are not looked at.
pub open spec fn scan(reg: RegistryView, files: Seq<Result<ScannedFile, String>>) -> (
    RegistryView,
    Option<ErrorView>,
)
    decreases files.len(),
{
    if files.len() == 0 {
        (reg, None)
    } else {
        match scan_step(reg, files[0]) {
            Ok(r) => scan(r, files.drop_first()),
            Err(e) => (reg, Some(e)),
        }
    }
}

/// A scan of a listing; a directory that could not be listed fails it.
pub open spec fn scan_listing(reg: RegistryView, listing: Listing) -> (
    RegistryView,
    Option<ErrorView>,
) {
    match listing {
        Err(d) => (reg, Some((ErrorKind::Other, d@))),
        Ok(files) => scan(reg, files@),
    }
}

/// The names and configurations of a registry's entries.
pub open spec fn registry_view(entries: Seq<(String, Configuration)>) -> RegistryView {
    Seq::new(entries.len(), |i: int| (entries[i].0@, entries[i].1@))
}

/// The configuration that a registry holds under `name`.
pub open spec fn lookup(entries: Seq<(String, Configuration)>, name: Seq<char>) -> Option<
    Configuration,
>
    decreases entries.len(),
{
    if entries.len() == 0 {
        None
    } else if entries[0].0@ == name {
        Some(entries[0].1)
    } else {
        lookup(entries.drop_first(), name)
    }
}

/// The result of an operation that gives nothing, with its error seen as
/// kind and description.
pub open spec fn unit_result_view(r: Result<(), Error>) -> Option<ErrorView> {
    match r {
        Ok(_) => None,
        Err(e) => Some(e@),
    }
}

/// Whether an entry is a configuration file: a regular file whose extension
/// is `json`, `yml` or `yaml`.
pub fn is_file_handled(f: &ScannedFile) -> (r: bool)
    ensures
        r == handled(*f),
{
    f.is_file && format_for(&f.extension).is_ok()
}

/// Whether an entry of the registry has the name.
fn contains_name(reg: &Vec<(String, Configuration)>, name: &str) -> (r: bool)
    ensures
        r == has_name(registry_view(reg@), name@),
{
    let mut i: usize = 0;
    while i < reg.len()
        invariant
            i <= reg@.len(),
            forall|j: int| 0 <= j < i ==> reg@[j].0@ != name@,
        decreases reg@.len() - i,
    {
        if let Ordering::Equal = compare_text(reg[i].0.as_str(), name) {
            assert(registry_view(reg@)[i as int].0 == name@);
            return true;
        }
        i = i + 1;
    }
    assert forall|j: int| 0 <= j < registry_view(reg@).len() implies registry_view(reg@)[j].0 != name@ by {
        assert(registry_view(reg@)[j].0 == reg@[j].0@);
    }
    false
}

/// Scans a listing into a registry, as `scan_listing` says: every entry
/// before the first failure that is a configuration file is loaded and added.
fn load_directory(registry: &mut Vec<(String, Configuration)>, listing: Listing) -> (r: Result<(), Error>)
    requires
        names_unique(registry_view(old(registry)@)),
    ensures
        names_unique(registry_view(final(registry)@)),
        registry_view(final(registry)@) == scan_listing(registry_view(old(registry)@), listing).0,
        unit_result_view(r) == scan_listing(registry_view(old(registry)@), listing).1,
{
    let mut files = match listing {
        Err(d) => return Err(Error::new(ErrorKind::Other, d)),
        Ok(v) => v,
    };
    let ghost all = files@;
    let ghost reg0 = registry_view(registry@);
    let count = files.len();
    let ghost n = files@.len();
    let mut i: usize = 0;
    proof {
        assert(all.subrange(0, n as int) =~= all);
    }
    while files.len() > 0
        invariant
            scan_listing(registry_view(old(registry)@), listing) == scan(reg0, all),
            n == all.len(),
            n == count,
            i <= n,
            files@ == all.subrange(i as int, n as int),
            names_unique(registry_view(registry@)),
            scan(reg0, all) == scan(registry_view(registry@), files@),
        decreases files@.len(),
    {
        let ghost before = files@;
        let e = files.remove(0);
        let ghost reg = registry_view(registry@);
        proof {
            assert(before[0] == e);
            assert(before.drop_first() =~= files@);
            assert(scan(reg, before) == match scan_step(reg, e) {
                Ok(r) => scan(r, files@),
                Err(x) => (reg, Some(x)),
            });
            assert(all.subrange(i as int, n as int).drop_first() =~= all.subrange(i + 1, n as int));
        }
        i = i + 1;
        match e {
            Err(d) => return Err(Error::new(ErrorKind::Other, d)),
            Ok(f) => {
                if is_file_handled(&f) {
                    let name = match f.stem {
                        None => return Err(Error::new(ErrorKind::Other, "invalid file name".to_owned())),
                        Some(s) => s,
                    };
                    let mut cfg = Configuration::new(f.path, f.extension);
                    match f.outcome {
                        None => return Err(
                            Error::new(ErrorKind::Other, "file was not read".to_owned()),
                        ),
                        Some(o) => {
                            if let Err(err) = cfg.complete_load(o) {
                                return Err(err);
                            }
                        },
                    }
                    if contains_name(registry, name.as_str()) {
                        let mut d = "a configuration already exists for '".to_owned();
                        d.append(name.as_str());
                        d.append("'");
                        return Err(Error::new(ErrorKind::Other, d));
                    }
                    registry.push((name, cfg));
                    proof {
                        assert(registry_view(registry@) =~= reg.push((name@, cfg@)));
                    }
                }
            },
        }
    }
    Ok(())
}

/// The configuration that a lookup of `name` finds: in development mode a
/// development entry first, else a production entry.
pub open spec fn resolve_name(
    development: bool,
    dev: Seq<(String, Configuration)>,
    prod: Seq<(String, Configuration)>,
    name: Seq<char>,
) -> Option<Configuration> {
    if development && lookup(dev, name) is Some {
        lookup(dev, name)
    } else {
        lookup(prod, name)
    }
}

/// The configuration that the registry holds under `name`.
fn find(reg: &Vec<(String, Configuration)>, name: &str) -> (r: Option<Configuration>)
    ensures
        match lookup(reg@, name@) {
            Some(c) => r matches Some(x) && x@ == c@,
            None => r is None,
        },
{
    let mut i: usize = 0;
    proof {
        assert(reg@.subrange(0, reg@.len() as int) =~= reg@);
    }
    while i < reg.len()
        invariant
            i <= reg@.len(),
            lookup(reg@, name@) == lookup(reg@.subrange(i as int, reg@.len() as int), name@),
        decreases reg@.len() - i,
    {
        assert(reg@.subrange(i as int, reg@.len() as int).drop_first() =~= reg@.subrange(
            i + 1,
            reg@.len() as int,
        ));
        if let Ordering::Equal = compare_text(reg[i].0.as_str(), name) {
            return Some(reg[i].1.clone());
        }
        i = i + 1;
    }
    None
}

/// The error for a name that no consulted registry holds.
fn missing() -> (r: Error)
    ensures
        r@ == (ErrorKind::MissingValue, kind_description(ErrorKind::MissingValue)),
{
    Error::from_kind(ErrorKind::MissingValue)
}

/// The registry of named configurations: a production set and, in
/// development mode, a development set that shadows it. Names are unique
/// within each set; a name may stand in both. Share it behind an `Arc`
/// once loaded: lookups take it by shared reference.
pub struct Factory {
    configurations: Vec<(String, Configuration)>,
    dev_configurations: Vec<(String, Configuration)>,
    development: bool,
}

impl Default for Factory {
    /// An empty registry that consults the production set alone.
    fn default() -> (r: Factory)
        ensures
            r.production().len() == 0,
            r.development().len() == 0,
            !r.is_development(),
    {
        Factory::new()
    }
}

impl Factory {
    #[verifier::type_invariant]
    spec fn inv(&self) -> bool {
        &&& names_unique(registry_view(self.configurations@))
        &&& names_unique(registry_view(self.dev_configurations@))
    }

    /// The production set.
    pub closed spec fn production(&self) -> Seq<(String, Configuration)> {
        self.configurations@
    }

    /// The development set.
    pub closed spec fn development(&self) -> Seq<(String, Configuration)> {
        self.dev_configurations@
    }

    /// Whether lookups consult the development set.
    pub closed spec fn is_development(&self) -> bool {
        self.development
    }

    /// An empty registry that consults the production set alone.
    pub fn new() -> (r: Factory)
        ensures
            r.production().len() == 0,
            r.development().len() == 0,
            !r.is_development(),
    {
        let r = Factory { configurations: Vec::new(), dev_configurations: Vec::new(), development: false };
        proof {
            assert(registry_view(r.configurations@) =~= Seq::empty());
            assert(registry_view(r.dev_configurations@) =~= Seq::empty());
        }
        r
    }

    /// An empty registry in development mode: lookups try the development
    /// set before the production set.
    pub fn new_development() -> (r: Factory)
        ensures
            r.production().len() == 0,
            r.development().len() == 0,
            r.is_development(),
    {
        let r = Factory { configurations: Vec::new(), dev_configurations: Vec::new(), development: true };
        proof {
            assert(registry_view(r.configurations@) =~= Seq::empty());
            assert(registry_view(r.dev_configurations@) =~= Seq::empty());
        }
        r
    }

    /// Whether lookups consult the development set.
    pub fn is_development_mode(&self) -> (r: bool)
        ensures
            r == self.is_development(),
    {
        self.development
    }

    /// Scans the production directory's listing into the production set.
    pub fn load_production_directory(&mut self, listing: Listing) -> (r: Result<(), Error>)
        ensures
            registry_view(final(self).production()) == scan_listing(registry_view(old(self).production()), listing).0,
            unit_result_view(r) == scan_listing(registry_view(old(self).production()), listing).1,
            final(self).development() == old(self).development(),
            final(self).is_development() == old(self).is_development(),
    {
        proof {
            use_type_invariant(&*self);
        }
        let mut reg: Vec<(String, Configuration)> = Vec::new();
        std::mem::swap(&mut self.configurations, &mut reg);
        let r = load_directory(&mut reg, listing);
        self.configurations = reg;
        r
    }

    /// Scans the development directory's listing into the development set.
    pub fn load_development_directory(&mut self, listing: Listing) -> (r: Result<(), Error>)
        ensures
            registry_view(final(self).development()) == scan_listing(registry_view(old(self).development()), listing).0,
            unit_result_view(r) == scan_listing(registry_view(old(self).development()), listing).1,
            final(self).production() == old(self).production(),
            final(self).is_development() == old(self).is_development(),
    {
        proof {
            use_type_invariant(&*self);
        }
        let mut reg: Vec<(String, Configuration)> = Vec::new();
        std::mem::swap(&mut self.dev_configurations, &mut reg);
        let r = load_directory(&mut reg, listing);
        self.dev_configurations = reg;
        r
    }

    /// Scans the production listing, then, in development mode and where the
    /// first scan succeeded, the development listing. The first failure ends
    /// the load.
    pub fn load(&mut self, production: Listing, development: Listing) -> (r: Result<(), Error>)
        ensures
            registry_view(final(self).production()) == scan_listing(registry_view(old(self).production()), production).0,
            final(self).is_development() == old(self).is_development(),
            scan_listing(registry_view(old(self).production()), production).1 is Some ==> {
                &&& unit_result_view(r) == scan_listing(registry_view(old(self).production()), production).1
                &&& final(self).development() == old(self).development()
            },
            scan_listing(registry_view(old(self).production()), production).1 is None ==> if old(
                self,
            ).is_development() {
                &&& registry_view(final(self).development()) == scan_listing(
                    registry_view(old(self).development()),
                    development,
                ).0
                &&& unit_result_view(r) == scan_listing(registry_view(old(self).development()), development).1
            } else {
                &&& final(self).development() == old(self).development()
                &&& r is Ok
            },
    {
        if let Err(e) = self.load_production_directory(production) {
            return Err(e);
        }
        if self.development {
            self.load_development_directory(development)
        } else {
            Ok(())
        }
    }

    /// The development configuration named `name`.
    pub fn get_development(&self, name: &str) -> (r: Result<Configuration, Error>)
        ensures
            match lookup(self.development(), name@) {
                Some(c) => r matches Ok(x) && x@ == c@,
                None => r matches Err(e) && e@ == (
                    ErrorKind::MissingValue,
                    kind_description(ErrorKind::MissingValue),
                ),
            },
    {
        match find(&self.dev_configurations, name) {
            Some(c) => Ok(c),
            None => Err(missing()),
        }
    }

    /// The configuration named `name`: in development mode the development
    /// one where there is one, else the production one; a missing value
    /// where the consulted sets hold none.
    pub fn get(&self, name: &str) -> (r: Result<Configuration, Error>)
        ensures
            match resolve_name(self.is_development(), self.development(), self.production(), name@) {
                Some(c) => r matches Ok(x) && x@ == c@,
                None => r matches Err(e) && e@ == (
                    ErrorKind::MissingValue,
                    kind_description(ErrorKind::MissingValue),
                ),
            },
    {
        if self.development {
            if let Ok(c) = self.get_development(name) {
                return Ok(c);
            }
        }
        match find(&self.configurations, name) {
            Some(c) => Ok(c),
            None => Err(missing()),
        }
    }
}

/// The configuration that a registry view holds under `name`.
pub open spec fn entry_lookup(reg: RegistryView, name: Seq<char>) -> Option<ConfigurationView>
    decreases reg.len(),
{
    if reg.len() == 0 {
        None
    } else if reg[0].0 == name {
        Some(reg[0].1)
    } else {
        entry_lookup(reg.drop_first(), name)
    }
}

/// An entry that fails no scan: readable, and where it is a configuration
/// file, with a valid stem and a load that succeeds.
pub open spec fn clean_entry(e: Result<ScannedFile, String>) -> bool {
    e matches Ok(f) && (handled(f) ==> f.stem is Some && file_load(f.outcome) is Ok)
}

/// The configuration that a scan registers for a file that loads.
pub open spec fn file_entry(f: ScannedFile) -> ConfigurationView {
    (f.path, f.extension, Some(file_load(f.outcome)->Ok_0))
}

/// Whether entry `k` is a configuration file with stem `name`.
pub open spec fn file_named(files: Seq<Result<ScannedFile, String>>, k: int, name: Seq<char>) -> bool {
    &&& 0 <= k < files.len()
    &&& files[k] matches Ok(f)
    &&& handled(f)
    &&& f.stem matches Some(s)
    &&& s@ == name
}

/// A registry's lookup finds the configuration that its view holds under the
/// same name.
pub proof fn lemma_lookup_entry(entries: Seq<(String, Configuration)>, name: Seq<char>)
    ensures
        match lookup(entries, name) {
            Some(c) => entry_lookup(registry_view(entries), name) == Some(c@),
            None => entry_lookup(registry_view(entries), name) is None,
        },
    decreases entries.len(),
{
    if entries.len() > 0 {
        lemma_lookup_entry(entries.drop_first(), name);
        assert(registry_view(entries.drop_first()) =~= registry_view(entries).drop_first());
    }
}

proof fn lemma_entry_lookup_prefix(a: RegistryView, b: RegistryView, name: Seq<char>)
    requires
        entry_lookup(a, name) is Some,
    ensures
        entry_lookup(a + b, name) == entry_lookup(a, name),
    decreases a.len(),
{
    if a[0].0 != name {
        assert((a + b).drop_first() =~= a.drop_first() + b);
        lemma_entry_lookup_prefix(a.drop_first(), b, name);
    }
}

proof fn lemma_entry_lookup_push(reg: RegistryView, name: Seq<char>, p: ConfigurationView)
    requires
        !has_name(reg, name),
    ensures
        entry_lookup(reg.push((name, p)), name) == Some(p),
    decreases reg.len(),
{
    if reg.len() > 0 {
        assert(reg[0].0 != name);
        assert(reg.push((name, p)).drop_first() =~= reg.drop_first().push((name, p)));
        assert forall|i: int| 0 <= i < reg.drop_first().len() implies reg.drop_first()[i].0 != name by {
            assert(reg.drop_first()[i] == reg[i + 1]);
        }
        lemma_entry_lookup_push(reg.drop_first(), name, p);
    }
}

/// A scan only ever appends to the registry.
proof fn lemma_scan_extends(reg: RegistryView, files: Seq<Result<ScannedFile, String>>)
    ensures
        scan(reg, files).0.len() >= reg.len(),
        scan(reg, files).0 == reg + scan(reg, files).0.subrange(reg.len() as int, scan(reg, files).0.len() as int),
    decreases files.len(),
{
    if files.len() == 0 {
        assert(reg =~= reg + reg.subrange(reg.len() as int, reg.len() as int));
    } else {
        match scan_step(reg, files[0]) {
            Ok(r) => {
                lemma_scan_extends(r, files.drop_first());
                let out = scan(r, files.drop_first()).0;
                assert(out =~= reg + out.subrange(reg.len() as int, out.len() as int));
            },
            Err(_) => {
                assert(reg =~= reg + reg.subrange(reg.len() as int, reg.len() as int));
            },
        }
    }
}

/// After a scan that succeeds, every configuration file of the listing is
/// in the registry under its stem: a configuration over its path, loaded
/// with its parsed value.
pub proof fn lemma_scan_registers(reg: RegistryView, files: Seq<Result<ScannedFile, String>>, k: int, name: Seq<char>)
    requires
        scan(reg, files).1 is None,
        file_named(files, k, name),
    ensures
        entry_lookup(scan(reg, files).0, name) == Some(file_entry(files[k]->Ok_0)),
    decreases files.len(),
{
    let rest = files.drop_first();
    match scan_step(reg, files[0]) {
        Ok(r) => {
            if k == 0 {
                let f = files[0]->Ok_0;
                assert(r == reg.push((name, file_entry(f))));
                lemma_entry_lookup_push(reg, name, file_entry(f));
                lemma_scan_extends(r, rest);
                let out = scan(r, rest).0;
                lemma_entry_lookup_prefix(r, out.subrange(r.len() as int, out.len() as int), name);
            } else {
                assert(rest[k - 1] == files[k]);
                lemma_scan_registers(r, rest, k - 1, name);
            }
        },
        Err(_) => {},
    }
}

/// Development entries shadow production entries of the same name: where
/// both listings hold a configuration file named `name` and both scans
/// succeeded from empty sets, a lookup in development mode finds the
/// development file, loaded with its content, and a lookup in production
/// mode the production file with its content.
pub proof fn lemma_development_shadows_production(
    factory: Factory,
    production: Seq<Result<ScannedFile, String>>,
    development: Seq<Result<ScannedFile, String>>,
    name: Seq<char>,
    i: int,
    j: int,
)
    requires
        registry_view(factory.production()) == scan(Seq::empty(), production).0,
        registry_view(factory.development()) == scan(Seq::empty(), development).0,
        scan(Seq::empty(), production).1 is None,
        scan(Seq::empty(), development).1 is None,
        file_named(production, i, name),
        file_named(development, j, name),
    ensures
        resolve_name(true, factory.development(), factory.production(), name) matches Some(c)
            && c@ == file_entry(development[j]->Ok_0),
        resolve_name(false, factory.development(), factory.production(), name) matches Some(c)
            && c@ == file_entry(production[i]->Ok_0),
{
    lemma_scan_registers(Seq::empty(), production, i, name);
    lemma_scan_registers(Seq::empty(), development, j, name);
    lemma_lookup_entry(factory.production(), name);
    lemma_lookup_entry(factory.development(), name);
}

proof fn lemma_duplicate_after(
    reg: RegistryView,
    files: Seq<Result<ScannedFile, String>>,
    k: int,
    name: Seq<char>,
)
    requires
        forall|m: int| 0 <= m < files.len() ==> #[trigger] clean_entry(files[m]),
        file_named(files, k, name),
        has_name(reg, name) || exists|m: int| 0 <= m < k && #[trigger] file_named(files, m, name),
    ensures
        exists|s: Seq<char>| scan(reg, files).1 == Some((ErrorKind::Other, duplicate_message(s))),
    decreases files.len(),
{
    let rest = files.drop_first();
    assert(clean_entry(files[0]));
    match scan_step(reg, files[0]) {
        Err(e) => {
            let f = files[0]->Ok_0;
            let s0 = f.stem->Some_0@;
            assert(scan(reg, files).1 == Some((ErrorKind::Other, duplicate_message(s0))));
        },
        Ok(r) => {
            if k == 0 {
                assert(!(exists|m: int| 0 <= m < k && #[trigger] file_named(files, m, name)));
                assert(has_name(reg, name));
                assert(false);
            } else {
                assert forall|m: int| 0 <= m < rest.len() implies #[trigger] clean_entry(rest[m]) by {
                    assert(rest[m] == files[m + 1]);
                    assert(clean_entry(files[m + 1]));
                }
                assert(rest[k - 1] == files[k]);
                assert(file_named(rest, k - 1, name));
                if has_name(reg, name) {
                    let w = choose|w: int| 0 <= w < reg.len() && #[trigger] reg[w].0 == name;
                    assert(r[w] == reg[w]);
                    assert(has_name(r, name));
                } else {
                    let m = choose|m: int| 0 <= m < k && #[trigger] file_named(files, m, name);
                    if m == 0 {
                        assert(r == reg.push((name, file_entry(files[0]->Ok_0))));
                        assert(r[reg.len() as int].0 == name);
                        assert(has_name(r, name));
                    } else {
                        assert(rest[m - 1] == files[m]);
                        assert(file_named(rest, m - 1, name));
                    }
                }
                lemma_duplicate_after(r, rest, k - 1, name);
            }
        },
    }
}

/// Two configuration files with the same stem in one listing fail the scan
/// with a duplicate-name error, where no other entry fails it first (every
/// entry is readable, and every configuration file has a valid stem and
/// loads).
pub proof fn lemma_duplicate_stem_fails(
    reg: RegistryView,
    files: Seq<Result<ScannedFile, String>>,
    i: int,
    j: int,
    name: Seq<char>,
)
    requires
        forall|m: int| 0 <= m < files.len() ==> #[trigger] clean_entry(files[m]),
        i < j,
        file_named(files, i, name),
        file_named(files, j, name),
    ensures
        exists|s: Seq<char>| scan(reg, files).1 == Some((ErrorKind::Other, duplicate_message(s))),
{
    assert(file_named(files, i, name));
    lemma_duplicate_after(reg, files, j, name);
}

} // verus!
