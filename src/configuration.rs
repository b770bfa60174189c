//! One configuration source: a file whose extension names its format, and
//! a cache, shared by every handle, that holds its parsed value once loaded.
//!
//! Loading alternates reading with decisions. The decisions stand here: what
//! the extension makes of the load (`plan_load`, `format_of`), what a read or
//! a parse that failed becomes (`outcome_result`), and the cache. Reading the
//! file and parsing its text are the caller's part: `pending_format` says
//! whether and as what to read, `complete_load` takes what came of it.
//!
//! A `Configuration` owns its cache. Sharing it between threads, behind a
//! lock, is the caller's part.
use vstd::prelude::*;
use std::cmp::Ordering;
use std::path::PathBuf;
use std::sync::Arc;
use crate::error::{view_result, Error, ErrorKind, ErrorView};
use crate::index::Index;
use crate::text::compare_text;
use crate::value::{Value, ValueView};

verus! {

/// Relies on `std::path::PathBuf` as an opaque value: the library carries a
/// configuration's path for its caller and never looks inside it.
#[verifier::external_type_specification]
#[verifier::external_body]
pub struct ExPathBuf(PathBuf);

/// The extension of a configuration file's path.
#[derive(Clone, Debug, PartialEq, Eq)]
pub enum Extension {
    /// The path has no extension.
    Missing,
    /// The extension is not valid text.
    Invalid,
    /// The extension's text.
    Text(String),
}

/// A file format that configurations can be written in.
#[derive(Clone, Copy, Debug, PartialEq, Eq, Structural)]
pub enum Format {
    Json,
    Yaml,
}

/// What came of reading and parsing a configuration file.
#[derive(Debug)]
pub enum Outcome {
    /// The file could not be read; the description says why.
    ReadFailed(String),
    /// The text is not a document of the format; the description says why.
    ParseFailed(String),
    /// The document's value.
    Parsed(Value),
}

/// The format that an extension names, or why it names none.
pub open spec fn format_of(ext: Extension) -> Result<Format, ErrorView> {
    match ext {
        Extension::Missing => Err((ErrorKind::MissingValue, "no extension available"@)),
        Extension::Invalid => Err((ErrorKind::FormatError, "extension's format is invalid"@)),
        Extension::Text(t) => if t@ == "json"@ {
            Ok(Format::Json)
        } else if t@ == "yml"@ || t@ == "yaml"@ {
            Ok(Format::Yaml)
        } else {
            Err((ErrorKind::UnimplementedFormat, "unimplemented format: "@ + t@))
        },
    }
}

/// What a load does: nothing more once loaded (`Ok(None)`), else read the
/// file as the format that its extension names (`Ok(Some(format))`), or
/// fail as that extension says.
pub open spec fn load_plan(loaded: bool, ext: Extension) -> Result<Option<Format>, ErrorView> {
    if loaded {
        Ok(None)
    } else {
        match format_of(ext) {
            Ok(f) => Ok(Some(f)),
            Err(e) => Err(e),
        }
    }
}

/// The value that a read and parse gave, or the error it becomes: a failed
/// read and a failed parse are both other errors, each with its description.
pub open spec fn outcome_result(o: Outcome) -> Result<ValueView, ErrorView> {
    match o {
        Outcome::ReadFailed(d) => Err((ErrorKind::Other, d@)),
        Outcome::ParseFailed(d) => Err((ErrorKind::Other, d@)),
        Outcome::Parsed(v) => Ok(v@),
    }
}

/// What looking up `index` in a cache gives: nothing while it is empty.
pub open spec fn resolve<I: Index>(cache: Option<ValueView>, index: I) -> Option<ValueView> {
    match cache {
        Some(v) => index.select(v),
        None => None,
    }
}

/// The views of an optional value.
pub open spec fn option_view(v: Option<Value>) -> Option<ValueView> {
    match v {
        Some(x) => Some(x@),
        None => None,
    }
}

/// The format that `ext` names, or why it names none.
pub fn format_for(ext: &Extension) -> (r: Result<Format, Error>)
    ensures
        view_result(r) == format_of(*ext),
{
    match ext {
        Extension::Missing => Err(Error::new(ErrorKind::MissingValue, "no extension available".to_owned())),
        Extension::Invalid => Err(
            Error::new(ErrorKind::FormatError, "extension's format is invalid".to_owned()),
        ),
        Extension::Text(t) => {
            if let Ordering::Equal = compare_text(t.as_str(), "json") {
                Ok(Format::Json)
            } else if let Ordering::Equal = compare_text(t.as_str(), "yml") {
                Ok(Format::Yaml)
            } else if let Ordering::Equal = compare_text(t.as_str(), "yaml") {
                Ok(Format::Yaml)
            } else {
                let mut d = "unimplemented format: ".to_owned();
                d.append(t.as_str());
                Err(Error::new(ErrorKind::UnimplementedFormat, d))
            }
        },
    }
}

/// What a load does, given whether the cache is loaded and the extension.
pub fn plan_load(loaded: bool, ext: &Extension) -> (r: Result<Option<Format>, Error>)
    ensures
        view_result(r) == load_plan(loaded, *ext),
{
    if loaded {
        return Ok(None);
    }
    match format_for(ext) {
        Ok(f) => Ok(Some(f)),
        Err(e) => Err(e),
    }
}

/// The value that a read and parse gave, or the error it becomes.
pub fn settle(outcome: Outcome) -> (r: Result<Value, Error>)
    ensures
        match outcome_result(outcome) {
            Ok(v) => r matches Ok(x) && x@ == v,
            Err(e) => r matches Err(x) && x@ == e,
        },
{
    match outcome {
        Outcome::ReadFailed(d) => Err(Error::new(ErrorKind::Other, d)),
        Outcome::ParseFailed(d) => Err(Error::new(ErrorKind::Other, d)),
        Outcome::Parsed(v) => Ok(v),
    }
}

/// Looks `index` up in a cache.
pub fn resolve_in<I: Index>(cache: &Option<Value>, index: I) -> (r: Option<Value>)
    ensures
        option_view(r) == resolve(option_view(*cache), index),
{
    match cache {
        Some(v) => match v.get(index) {
            Some(x) => Some(x.clone()),
            None => None,
        },
        None => None,
    }
}

/// One configuration source: the file's path and extension, and the cache
/// that holds its parsed value once loaded.
pub struct Configuration {
    path: Arc<PathBuf>,
    extension: Extension,
    cache: Option<Value>,
}

/// What a configuration stands for: its path, its extension and what its
/// cache holds.
pub type ConfigurationView = (PathBuf, Extension, Option<ValueView>);

/// Relies on `Arc::clone`: the clone points at the same allocation, so it
/// holds the same value.
#[verifier::external_body]
fn share<T>(a: &Arc<T>) -> (r: Arc<T>)
    ensures
        r == *a,
{
    Arc::clone(a)
}

/// A copy of an extension.
fn copy_extension(e: &Extension) -> (r: Extension)
    ensures
        r == *e,
{
    match e {
        Extension::Missing => Extension::Missing,
        Extension::Invalid => Extension::Invalid,
        Extension::Text(t) => Extension::Text(t.clone()),
    }
}

impl View for Configuration {
    type V = ConfigurationView;

    closed spec fn view(&self) -> ConfigurationView {
        (*self.path, self.extension, option_view(self.cache))
    }
}

impl Clone for Configuration {
    /// A configuration over the same path, holding the same cache.
    fn clone(&self) -> (r: Configuration)
        ensures
            r@ == self@,
    {
        let cache = match &self.cache {
            Some(v) => Some(v.clone()),
            None => None,
        };
        Configuration { path: share(&self.path), extension: copy_extension(&self.extension), cache }
    }
}

impl Configuration {
    /// The path of the source.
    pub open spec fn path_spec(&self) -> PathBuf {
        self@.0
    }

    /// The extension of the source's path.
    pub open spec fn extension(&self) -> Extension {
        self@.1
    }

    /// What the cache holds: the loaded value, or nothing before a load.
    pub open spec fn cached(&self) -> Option<ValueView> {
        self@.2
    }

    /// A configuration over the file at `path`, whose extension is
    /// `extension`; nothing is loaded and no file is read.
    pub fn new(path: PathBuf, extension: Extension) -> (r: Configuration)
        ensures
            r.path_spec() == path,
            r.extension() == extension,
            r.cached() is None,
    {
        Configuration { path: Arc::new(path), extension, cache: None }
    }

    /// The path of the source.
    pub fn path(&self) -> (r: &PathBuf)
        ensures
            *r == self.path_spec(),
    {
        &*self.path
    }

    /// The extension of the source's path.
    pub fn extension_of(&self) -> (r: &Extension)
        ensures
            *r == self.extension(),
    {
        &self.extension
    }

    /// Whether a value has been loaded.
    pub fn is_loaded(&self) -> (r: bool)
        ensures
            r == self.cached() is Some,
    {
        self.cache.is_some()
    }

    /// What loading needs: nothing once loaded (`Ok(None)`), else to read the
    /// file as the format that its extension names, or it fails as the
    /// extension says.
    pub fn pending_format(&self) -> (r: Result<Option<Format>, Error>)
        ensures
            view_result(r) == load_plan(self.cached() is Some, self.extension()),
    {
        plan_load(self.cache.is_some(), &self.extension)
    }

    /// Ends a load with what reading and parsing gave: a parsed value is
    /// stored, a failure becomes the load's error and leaves the cache as it
    /// was. An extension that names no format fails the load as it says.
    pub fn complete_load(&mut self, outcome: Outcome) -> (r: Result<(), Error>)
        ensures
            final(self).path_spec() == old(self).path_spec(),
            final(self).extension() == old(self).extension(),
            match format_of(old(self).extension()) {
                Err(e) => r matches Err(x) && x@ == e && final(self).cached() == old(self).cached(),
                Ok(_) => match outcome_result(outcome) {
                    Ok(v) => r is Ok && final(self).cached() == Some(v),
                    Err(e) => r matches Err(x) && x@ == e && final(self).cached() == old(
                        self,
                    ).cached(),
                },
            },
    {
        if let Err(e) = format_for(&self.extension) {
            return Err(e);
        }
        match settle(outcome) {
            Ok(v) => {
                self.cache = Some(v);
                Ok(())
            },
            Err(e) => Err(e),
        }
    }

    /// Looks `index` up in what has been loaded, with no attempt to load:
    /// nothing while the cache is empty.
    pub fn get<I: Index>(&self, index: I) -> (r: Option<Value>)
        ensures
            option_view(r) == resolve(self.cached(), index),
    {
        resolve_in(&self.cache, index)
    }
}

/// A configuration whose path has no extension fails to load with a missing
/// value, "no extension available"; one whose extension is not valid text
/// with a format error, "extension's format is invalid"; one whose extension
/// is text other than `json`, `yml` and `yaml` with an unimplemented format,
/// "unimplemented format: " and the extension. Such a configuration is never
/// loaded.
pub proof fn lemma_extension_errors(c: Configuration)
    ensures
        c.extension() is Missing ==> load_plan(false, c.extension()) == Err::<Option<Format>, ErrorView>(
            (ErrorKind::MissingValue, "no extension available"@),
        ),
        c.extension() is Invalid ==> load_plan(false, c.extension()) == Err::<Option<Format>, ErrorView>(
            (ErrorKind::FormatError, "extension's format is invalid"@),
        ),
        c.extension() matches Extension::Text(t) ==> (t@ != "json"@ && t@ != "yml"@ && t@ != "yaml"@
            ==> load_plan(false, c.extension()) == Err::<Option<Format>, ErrorView>(
            (ErrorKind::UnimplementedFormat, "unimplemented format: "@ + t@),
        )),
{
}

} // verus!
