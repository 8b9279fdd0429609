//! Core catalog data types: release channels, loaders, published versions.
//!
//! `VT` (version type / release channel) and `LOADER` each carry one
//! canonical parse/format pair shared by every boundary, so that the
//! accepted spellings cannot diverge between call sites.

use vstd::prelude::*;

verus! {

/// Why a channel or loader string was rejected.
///
/// Forge is an explicitly unsupported loader, distinct from an unknown
/// spelling, so it gets its own variant.
#[derive(Clone, Copy, Debug, PartialEq, Eq, Structural)]
pub enum ParseError {
    UnsupportedForge,
    UnknownLoader,
    UnknownVersionType,
}

/// Release maturity channel of a published version.
#[derive(Clone, Copy, Debug, PartialEq, Eq, Structural)]
pub enum VT {
    RELEASE,
    BETA,
    ALPHA,
}

/// Canonical lower-case spelling of a channel.
pub open spec fn vt_str(v: VT) -> Seq<char> {
    match v {
        VT::RELEASE => "release"@,
        VT::BETA => "beta"@,
        VT::ALPHA => "alpha"@,
    }
}

/// What `VT::from_str` accepts: the canonical spelling and its upper-case twin.
pub open spec fn vt_from_str_spec(s: Seq<char>) -> Result<VT, ParseError> {
    if s == "release"@ || s == "RELEASE"@ {
        Ok(VT::RELEASE)
    } else if s == "beta"@ || s == "BETA"@ {
        Ok(VT::BETA)
    } else if s == "alpha"@ || s == "ALPHA"@ {
        Ok(VT::ALPHA)
    } else {
        Err(ParseError::UnknownVersionType)
    }
}

impl VT {
    /// Canonical formatting of a channel.
    pub fn to_string(&self) -> (r: String)
        ensures
            r@ == vt_str(*self),
    {
        match self {
            VT::RELEASE => "release".to_owned(),
            VT::BETA => "beta".to_owned(),
            VT::ALPHA => "alpha".to_owned(),
        }
    }

    /// Canonical parsing of a channel; inverse of `to_string`.
    pub fn from_str(s: &str) -> (r: Result<VT, ParseError>)
        ensures
            r == vt_from_str_spec(s@),
    {
        let t = s.to_owned();
        if t == "release".to_owned() || t == "RELEASE".to_owned() {
            Ok(VT::RELEASE)
        } else if t == "beta".to_owned() || t == "BETA".to_owned() {
            Ok(VT::BETA)
        } else if t == "alpha".to_owned() || t == "ALPHA".to_owned() {
            Ok(VT::ALPHA)
        } else {
            Err(ParseError::UnknownVersionType)
        }
    }
}

/// The formatted spelling of every channel parses back to that channel:
/// the parse/format pair round-trips.
pub proof fn lemma_vt_round_trip(v: VT)
    ensures
        vt_from_str_spec(vt_str(v)) == Ok::<VT, ParseError>(v),
{
    reveal_strlit("release");
    reveal_strlit("RELEASE");
    reveal_strlit("beta");
    reveal_strlit("BETA");
    reveal_strlit("alpha");
    reveal_strlit("ALPHA");
    assert("release"@.len() == 7);
    assert("RELEASE"@.len() == 7);
    assert("beta"@.len() == 4);
    assert("BETA"@.len() == 4);
    assert("alpha"@.len() == 5);
    assert("ALPHA"@.len() == 5);
}

/// Mod-loading runtime a version targets. Forge is rejected at parse
/// time (`ParseError::UnsupportedForge`) and has no variant here.
#[derive(Clone, Copy, Debug, PartialEq, Eq, Structural)]
pub enum LOADER {
    FABRIC,
    QUILT,
    NEOFORGE,
}

/// Canonical lower-case spelling of a loader.
pub open spec fn loader_str(l: LOADER) -> Seq<char> {
    match l {
        LOADER::FABRIC => "fabric"@,
        LOADER::QUILT => "quilt"@,
        LOADER::NEOFORGE => "neoforge"@,
    }
}

/// What `LOADER::from_str` accepts. Forge is a distinct, deliberate
/// rejection, not an unknown spelling.
pub open spec fn loader_from_str_spec(s: Seq<char>) -> Result<LOADER, ParseError> {
    if s == "fabric"@ || s == "FABRIC"@ {
        Ok(LOADER::FABRIC)
    } else if s == "quilt"@ || s == "QUILT"@ {
        Ok(LOADER::QUILT)
    } else if s == "neoforge"@ || s == "NEOFORGE"@ {
        Ok(LOADER::NEOFORGE)
    } else if s == "forge"@ || s == "FORGE"@ {
        Err(ParseError::UnsupportedForge)
    } else {
        Err(ParseError::UnknownLoader)
    }
}

impl LOADER {
    /// Canonical formatting of a loader.
    pub fn to_string(&self) -> (r: String)
        ensures
            r@ == loader_str(*self),
    {
        match self {
            LOADER::FABRIC => "fabric".to_owned(),
            LOADER::QUILT => "quilt".to_owned(),
            LOADER::NEOFORGE => "neoforge".to_owned(),
        }
    }

    /// Canonical parsing of a loader; inverse of `to_string`.
    pub fn from_str(s: &str) -> (r: Result<LOADER, ParseError>)
        ensures
            r == loader_from_str_spec(s@),
    {
        let t = s.to_owned();
        if t == "fabric".to_owned() || t == "FABRIC".to_owned() {
            Ok(LOADER::FABRIC)
        } else if t == "quilt".to_owned() || t == "QUILT".to_owned() {
            Ok(LOADER::QUILT)
        } else if t == "neoforge".to_owned() || t == "NEOFORGE".to_owned() {
            Ok(LOADER::NEOFORGE)
        } else if t == "forge".to_owned() || t == "FORGE".to_owned() {
            Err(ParseError::UnsupportedForge)
        } else {
            Err(ParseError::UnknownLoader)
        }
    }
}

/// The formatted spelling of every loader parses back to that loader.
pub proof fn lemma_loader_round_trip(l: LOADER)
    ensures
        loader_from_str_spec(loader_str(l)) == Ok::<LOADER, ParseError>(l),
{
    reveal_strlit("fabric");
    reveal_strlit("FABRIC");
    reveal_strlit("quilt");
    reveal_strlit("QUILT");
    reveal_strlit("neoforge");
    reveal_strlit("NEOFORGE");
    assert("fabric"@.len() == 6);
    assert("FABRIC"@.len() == 6);
    assert("quilt"@.len() == 5);
    assert("QUILT"@.len() == 5);
    assert("neoforge"@.len() == 8);
    assert("NEOFORGE"@.len() == 8);
}

/// One downloadable file of a published version, with the digest the
/// catalog promises for it.
#[derive(Debug, PartialEq, Eq)]
pub struct ApiFile {
    pub url: String,
    pub filename: String,
    pub size: u64,
    pub sha512: String,
}

/// A declared dependency of a published version. Only dependencies
/// whose `dependency_type` is `"required"` are expanded.
#[derive(Debug, PartialEq, Eq)]
pub struct Dependency {
    pub project_id: String,
    pub dependency_type: String,
}

/// A published version of a project, as listed by the catalog.
///
/// A version with an empty `files` list is unusable: the resolver
/// rejects it instead of indexing into it.
#[derive(Debug, PartialEq, Eq)]
pub struct Version {
    pub game_versions: Vec<String>,
    pub loaders: Vec<LOADER>,
    pub name: String,
    pub version_number: String,
    pub downloads: u32,
    pub version_type: VT,
    pub files: Vec<ApiFile>,
    pub dependencies: Vec<Dependency>,
}

/// A catalog project. The engine only ever works with a project's
/// published versions, so no fields are modeled here.
pub struct Project {
}

/// True when the dependency must be resolved alongside its parent.
pub open spec fn is_required_dep(d: Dependency) -> bool {
    d.dependency_type@ == "required"@
}

impl Dependency {
    /// Whether this dependency is of the auto-expanded, required kind.
    pub fn is_required(&self) -> (r: bool)
        ensures
            r == is_required_dep(*self),
    {
        self.dependency_type == "required".to_owned()
    }
}

} // verus!
