//! Version resolver and dependency expander.
//!
//! Given a catalog listing (versions in descending recency order) and a
//! constraint descriptor, `resolve` picks the first version that
//! supports the target platform version, the loader, and an allowed
//! channel. `expand` resolves the required dependencies of a resolved
//! version one level deep, under the same descriptor.

use vstd::prelude::*;
use crate::defines::{Dependency, LOADER, Version, VT, is_required_dep};
use crate::pack::{MVDescriptor, MVDescriptorV, PackMod, PackModV};

verus! {

/// String slice equality by character content.
pub fn str_eql(a: &str, b: &str) -> (r: bool)
    ensures
        r == (a@ == b@),
{
    a.to_owned() == b.to_owned()
}

/// `t` occurs among the string list `ss`.
pub open spec fn seq_has_string(ss: Seq<String>, t: Seq<char>) -> bool {
    exists|i: int| 0 <= i < ss.len() && ss[i]@ == t
}

/// `l` occurs among the loader list `ls`.
pub open spec fn seq_has_loader(ls: Seq<LOADER>, l: LOADER) -> bool {
    exists|i: int| 0 <= i < ls.len() && ls[i] == l
}

/// `v` occurs among the channel list `vs`.
pub open spec fn seq_has_vt(vs: Seq<VT>, v: VT) -> bool {
    exists|i: int| 0 <= i < vs.len() && vs[i] == v
}

/// A published version survives the descriptor's filter: it supports
/// the target platform version and the loader, its channel is allowed,
/// and it is usable (it has at least one file).
pub open spec fn version_matches(v: Version, d: MVDescriptorV) -> bool {
    &&& seq_has_string(v.game_versions@, d.mc_ver)
    &&& seq_has_loader(v.loaders@, d.loader)
    &&& seq_has_vt(d.version_types, v.version_type)
    &&& v.files@.len() > 0
}

/// The first surviving candidate of the listing sits at index `i`.
pub open spec fn match_at(vs: Seq<Version>, d: MVDescriptorV, i: int) -> bool {
    &&& 0 <= i < vs.len()
    &&& version_matches(vs[i], d)
    &&& forall|j: int| 0 <= j < i ==> !version_matches(vs[j], d)
}

/// Some candidate of the listing survives the filter.
pub open spec fn has_match(vs: Seq<Version>, d: MVDescriptorV) -> bool {
    exists|i: int| match_at(vs, d, i)
}

/// At most one index is the first match.
pub proof fn lemma_match_at_unique(vs: Seq<Version>, d: MVDescriptorV, a: int, b: int)
    requires
        match_at(vs, d, a),
        match_at(vs, d, b),
    ensures
        a == b,
{
}

fn contains_string(ss: &Vec<String>, t: &str) -> (r: bool)
    ensures
        r == seq_has_string(ss@, t@),
{
    let mut i: usize = 0;
    while i < ss.len()
        invariant
            i <= ss.len(),
            forall|j: int| 0 <= j < i ==> ss@[j]@ != t@,
        decreases ss.len() - i,
    {
        if str_eql(ss[i].as_str(), t) {
            return true;
        }
        i = i + 1;
    }
    false
}

fn contains_loader(ls: &Vec<LOADER>, l: LOADER) -> (r: bool)
    ensures
        r == seq_has_loader(ls@, l),
{
    let mut i: usize = 0;
    while i < ls.len()
        invariant
            i <= ls.len(),
            forall|j: int| 0 <= j < i ==> ls@[j] != l,
        decreases ls.len() - i,
    {
        if ls[i] == l {
            return true;
        }
        i = i + 1;
    }
    false
}

fn contains_vt(vs: &Vec<VT>, v: VT) -> (r: bool)
    ensures
        r == seq_has_vt(vs@, v),
{
    let mut i: usize = 0;
    while i < vs.len()
        invariant
            i <= vs.len(),
            forall|j: int| 0 <= j < i ==> vs@[j] != v,
        decreases vs.len() - i,
    {
        if vs[i] == v {
            return true;
        }
        i = i + 1;
    }
    false
}

/// Whether one candidate survives the descriptor's filter.
pub fn matches_descriptor(v: &Version, d: &MVDescriptor) -> (r: bool)
    ensures
        r == version_matches(*v, d@),
{
    contains_string(&v.game_versions, d.mc_ver.as_str()) && contains_loader(&v.loaders, d.loader)
        && contains_vt(&d.version_types, v.version_type) && v.files.len() > 0
}

/// Select the single best-matching published version: the index of the
/// first (most recent) candidate that survives the filter, or `None`
/// when no candidate does. The result never excludes the target
/// platform version, the loader, or the allowed channels, and among
/// surviving candidates the earliest in catalog order wins.
pub fn resolve(versions: &Vec<Version>, desc: &MVDescriptor) -> (r: Option<usize>)
    ensures
        match r {
            Some(i) => match_at(versions@, desc@, i as int),
            None => !has_match(versions@, desc@),
        },
{
    let mut i: usize = 0;
    while i < versions.len()
        invariant
            i <= versions.len(),
            forall|j: int| 0 <= j < i ==> !version_matches(versions@[j], desc@),
        decreases versions.len() - i,
    {
        if matches_descriptor(&versions[i], desc) {
            return Some(i);
        }
        i = i + 1;
    }
    proof {
        assert forall|k: int| !match_at(versions@, desc@, k) by {
            if 0 <= k < versions@.len() {
                assert(!version_matches(versions@[k], desc@));
            }
        }
    }
    None
}

/// What `resolve` returns never violates the descriptor: the selected
/// candidate supports the target platform version and the loader, its
/// channel is allowed, and it has a file to download.
pub proof fn lemma_resolved_version_satisfies(vs: Seq<Version>, d: MVDescriptorV, i: int)
    requires
        match_at(vs, d, i),
    ensures
        seq_has_string(vs[i].game_versions@, d.mc_ver),
        seq_has_loader(vs[i].loaders@, d.loader),
        seq_has_vt(d.version_types, vs[i].version_type),
        vs[i].files@.len() > 0,
{
}

/// Among surviving candidates the one appearing earlier in the
/// catalog's returned order (the most recent) wins: no candidate
/// before the selected one survives the filter.
pub proof fn lemma_resolve_prefers_recent(vs: Seq<Version>, d: MVDescriptorV, i: int, j: int)
    requires
        match_at(vs, d, i),
        0 <= j < vs.len(),
        version_matches(vs[j], d),
    ensures
        i <= j,
{
}

/// The pin recorded for a resolved version: the slug it was requested
/// under and the version's primary (first) file.
pub open spec fn pin_view(slug: Seq<char>, v: Version) -> PackModV {
    PackModV {
        slug: slug,
        version_number: v.version_number@,
        filename: v.files@[0].filename@,
        url: v.files@[0].url@,
        sha512: v.files@[0].sha512@,
    }
}

/// Build the pin for a resolved version.
pub fn pin_of(slug: &str, v: &Version) -> (r: PackMod)
    requires
        v.files@.len() > 0,
    ensures
        r@ == pin_view(slug@, *v),
{
    PackMod {
        slug: slug.to_owned(),
        version_number: v.version_number.clone(),
        filename: v.files[0].filename.clone(),
        url: v.files[0].url.clone(),
        sha512: v.files[0].sha512.clone(),
    }
}

/// One project's published versions, as returned by the catalog,
/// most recent first.
pub struct Listing {
    pub project_id: String,
    pub versions: Vec<Version>,
}

/// The first listing for `pid` sits at index `li`.
pub open spec fn listing_at(cs: Seq<Listing>, li: int, pid: Seq<char>) -> bool {
    &&& 0 <= li < cs.len()
    &&& cs[li].project_id@ == pid
    &&& forall|j: int| 0 <= j < li ==> cs[j].project_id@ != pid
}

/// The catalog carries a listing for `pid`.
pub open spec fn has_listing(cs: Seq<Listing>, pid: Seq<char>) -> bool {
    exists|li: int| listing_at(cs, li, pid)
}

/// At most one index is the first listing for a project.
pub proof fn lemma_listing_at_unique(cs: Seq<Listing>, a: int, b: int, pid: Seq<char>)
    requires
        listing_at(cs, a, pid),
        listing_at(cs, b, pid),
    ensures
        a == b,
{
}

/// The project is listed and at least one of its versions survives
/// the descriptor's filter.
pub open spec fn slug_resolves(cs: Seq<Listing>, pid: Seq<char>, d: MVDescriptorV) -> bool {
    exists|li: int| listing_at(cs, li, pid) && has_match(cs[li].versions@, d)
}

/// The pin a resolving slug resolves to.
pub open spec fn resolved_pin(cs: Seq<Listing>, pid: Seq<char>, d: MVDescriptorV) -> PackModV
    recommends
        slug_resolves(cs, pid, d),
{
    let li = choose|li: int| listing_at(cs, li, pid) && has_match(cs[li].versions@, d);
    let vi = choose|vi: int| match_at(cs[li].versions@, d, vi);
    pin_view(pid, cs[li].versions@[vi])
}

fn find_listing(catalog: &Vec<Listing>, pid: &str) -> (r: Option<usize>)
    ensures
        match r {
            Some(li) => listing_at(catalog@, li as int, pid@),
            None => !has_listing(catalog@, pid@),
        },
{
    let mut i: usize = 0;
    while i < catalog.len()
        invariant
            i <= catalog.len(),
            forall|j: int| 0 <= j < i ==> catalog@[j].project_id@ != pid@,
        decreases catalog.len() - i,
    {
        if str_eql(catalog[i].project_id.as_str(), pid) {
            return Some(i);
        }
        i = i + 1;
    }
    None
}

/// Resolve one project against the catalog: find its listing, select
/// the first surviving version, and pin it. `None` exactly when the
/// project is unlisted or no version survives the filter.
pub fn resolve_slug(catalog: &Vec<Listing>, pid: &str, desc: &MVDescriptor) -> (r: Option<
    PackMod,
>)
    ensures
        match r {
            Some(p) => slug_resolves(catalog@, pid@, desc@) && p@ == resolved_pin(
                catalog@,
                pid@,
                desc@,
            ),
            None => !slug_resolves(catalog@, pid@, desc@),
        },
{
    match find_listing(catalog, pid) {
        None => {
            proof {
                assert forall|li: int|
                    !(listing_at(catalog@, li, pid@) && has_match(
                        catalog@[li].versions@,
                        desc@,
                    )) by {}
            }
            None
        },
        Some(li) => {
            match resolve(&catalog[li].versions, desc) {
                None => {
                    proof {
                        assert forall|lj: int|
                            !(listing_at(catalog@, lj, pid@) && has_match(
                                catalog@[lj].versions@,
                                desc@,
                            )) by {
                            if listing_at(catalog@, lj, pid@) {
                                lemma_listing_at_unique(catalog@, lj, li as int, pid@);
                            }
                        }
                    }
                    None
                },
                Some(vi) => {
                    let p = pin_of(pid, &catalog[li].versions[vi]);
                    proof {
                        let cli = choose|c: int|
                            listing_at(catalog@, c, pid@) && has_match(
                                catalog@[c].versions@,
                                desc@,
                            );
                        lemma_listing_at_unique(catalog@, cli, li as int, pid@);
                        let cvi = choose|c: int| match_at(catalog@[li as int].versions@, desc@, c);
                        lemma_match_at_unique(
                            catalog@[li as int].versions@,
                            desc@,
                            cvi,
                            vi as int,
                        );
                    }
                    Some(p)
                },
            }
        },
    }
}

/// Outcome of resolving one declared dependency.
pub struct DepResolution {
    pub project_id: String,
    pub pin: Option<PackMod>,
}

/// Model of a dependency resolution outcome.
pub struct DepResolutionV {
    pub project_id: Seq<char>,
    pub pin: Option<PackModV>,
}

impl View for DepResolution {
    type V = DepResolutionV;

    open spec fn view(&self) -> DepResolutionV {
        DepResolutionV { project_id: self.project_id@, pin: self.pin.deep_view() }
    }
}

impl DeepView for DepResolution {
    type V = DepResolutionV;

    open spec fn deep_view(&self) -> DepResolutionV {
        self.view()
    }
}

/// The expected expansion of a dependency list: one outcome per
/// required dependency, in declaration order; optional and
/// incompatible dependencies are not expanded.
pub open spec fn expand_spec(deps: Seq<Dependency>, cs: Seq<Listing>, d: MVDescriptorV) -> Seq<
    DepResolutionV,
>
    decreases deps.len(),
{
    if deps.len() == 0 {
        Seq::empty()
    } else {
        let init = expand_spec(deps.drop_last(), cs, d);
        if is_required_dep(deps.last()) {
            init + seq![
                DepResolutionV {
                    project_id: deps.last().project_id@,
                    pin: if slug_resolves(cs, deps.last().project_id@, d) {
                        Some(resolved_pin(cs, deps.last().project_id@, d))
                    } else {
                        None
                    },
                },
            ]
        } else {
            init
        }
    }
}

/// Resolve the required dependencies of a resolved version, one level
/// deep, under the same descriptor as the parent. A failing dependency
/// is reported individually and does not abort its siblings.
pub fn expand(version: &Version, desc: &MVDescriptor, catalog: &Vec<Listing>) -> (r: Vec<
    DepResolution,
>)
    ensures
        r.deep_view() == expand_spec(version.dependencies@, catalog@, desc@),
{
    let mut out: Vec<DepResolution> = Vec::new();
    let mut i: usize = 0;
    while i < version.dependencies.len()
        invariant
            i <= version.dependencies.len(),
            out.deep_view() == expand_spec(
                version.dependencies@.take(i as int),
                catalog@,
                desc@,
            ),
        decreases version.dependencies.len() - i,
    {
        let ghost pre = version.dependencies@.take(i as int);
        let dep = &version.dependencies[i];
        if dep.is_required() {
            let pin = resolve_slug(catalog, dep.project_id.as_str(), desc);
            out.push(DepResolution { project_id: dep.project_id.clone(), pin });
        }
        proof {
            let cur = version.dependencies@.take(i + 1);
            assert(cur.drop_last() =~= pre);
            assert(cur.last() == version.dependencies@[i as int]);
            assert(out.deep_view() =~= expand_spec(cur, catalog@, desc@));
        }
        i = i + 1;
    }
    proof {
        assert(version.dependencies@.take(version.dependencies@.len() as int)
            =~= version.dependencies@);
    }
    out
}

} // verus!
