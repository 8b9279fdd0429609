//! The persisted pack entity: a named set of pinned mod versions plus
//! the constraint descriptor they were resolved under.

use vstd::prelude::*;
use vstd::string::*;
use crate::defines::{LOADER, VT};

verus! {

/// Constraint descriptor for a resolution call: target platform
/// version, allowed release channels, and the loader.
#[derive(Debug, PartialEq, Eq)]
pub struct MVDescriptor {
    pub mc_ver: String,
    pub version_types: Vec<VT>,
    pub loader: LOADER,
}

/// Mathematical model of a descriptor.
pub struct MVDescriptorV {
    pub mc_ver: Seq<char>,
    pub version_types: Seq<VT>,
    pub loader: LOADER,
}

impl View for MVDescriptor {
    type V = MVDescriptorV;

    open spec fn view(&self) -> MVDescriptorV {
        MVDescriptorV {
            mc_ver: self.mc_ver@,
            version_types: self.version_types@,
            loader: self.loader,
        }
    }
}

impl MVDescriptor {
    /// A field-by-field copy, equal to the original in every model field.
    pub fn duplicate(&self) -> (r: MVDescriptor)
        ensures
            r@ == self@,
    {
        let mut ts: Vec<VT> = Vec::new();
        let mut i: usize = 0;
        while i < self.version_types.len()
            invariant
                i <= self.version_types.len(),
                ts@ == self.version_types@.take(i as int),
            decreases self.version_types.len() - i,
        {
            ts.push(self.version_types[i]);
            proof {
                assert(ts@ =~= self.version_types@.take(i + 1));
            }
            i = i + 1;
        }
        proof {
            assert(ts@ =~= self.version_types@);
        }
        MVDescriptor { mc_ver: self.mc_ver.clone(), version_types: ts, loader: self.loader }
    }
}

/// One pinned mod: the slug it was requested under and the primary
/// file of the version it resolved to.
#[derive(Debug, PartialEq, Eq)]
pub struct PackMod {
    pub slug: String,
    pub version_number: String,
    pub filename: String,
    pub url: String,
    pub sha512: String,
}

/// Mathematical model of a pin.
pub struct PackModV {
    pub slug: Seq<char>,
    pub version_number: Seq<char>,
    pub filename: Seq<char>,
    pub url: Seq<char>,
    pub sha512: Seq<char>,
}

impl View for PackMod {
    type V = PackModV;

    open spec fn view(&self) -> PackModV {
        PackModV {
            slug: self.slug@,
            version_number: self.version_number@,
            filename: self.filename@,
            url: self.url@,
            sha512: self.sha512@,
        }
    }
}

impl DeepView for PackMod {
    type V = PackModV;

    open spec fn deep_view(&self) -> PackModV {
        self.view()
    }
}

impl PackMod {
    /// A copy equal to the original pin.
    pub fn duplicate(&self) -> (r: PackMod)
        ensures
            r == *self,
    {
        PackMod {
            slug: self.slug.clone(),
            version_number: self.version_number.clone(),
            filename: self.filename.clone(),
            url: self.url.clone(),
            sha512: self.sha512.clone(),
        }
    }
}

/// A named, persisted collection of pins, resolved under one
/// descriptor. The slug of each pin is its key: a well-formed pack
/// holds at most one pin per slug.
#[derive(Debug, PartialEq, Eq)]
pub struct Pack {
    pub name: String,
    pub version_info: MVDescriptor,
    pub mods: Vec<PackMod>,
}

/// Mathematical model of a pack.
pub struct PackV {
    pub name: Seq<char>,
    pub version_info: MVDescriptorV,
    pub mods: Seq<PackModV>,
}

impl View for Pack {
    type V = PackV;

    open spec fn view(&self) -> PackV {
        PackV {
            name: self.name@,
            version_info: self.version_info@,
            mods: self.mods.deep_view(),
        }
    }
}

/// The map invariant of a pack's pins: one entry per slug.
pub open spec fn slugs_unique(mods: Seq<PackModV>) -> bool {
    forall|i: int, j: int| 0 <= i < j < mods.len() ==> mods[i].slug != mods[j].slug
}

/// The first entry holding `slug` sits at index `k`.
pub open spec fn slug_at(mods: Seq<PackModV>, k: int, slug: Seq<char>) -> bool {
    &&& 0 <= k < mods.len()
    &&& mods[k].slug == slug
    &&& forall|j: int| 0 <= j < k ==> mods[j].slug != slug
}

/// Some entry holds `slug`.
pub open spec fn has_slug(mods: Seq<PackModV>, slug: Seq<char>) -> bool {
    exists|k: int| slug_at(mods, k, slug)
}

/// At most one index can be the first occurrence of a slug.
pub proof fn lemma_slug_at_unique(mods: Seq<PackModV>, a: int, b: int, slug: Seq<char>)
    requires
        slug_at(mods, a, slug),
        slug_at(mods, b, slug),
    ensures
        a == b,
{
}

impl Pack {
    /// A copy equal to the original pack in every model field.
    pub fn duplicate(&self) -> (r: Pack)
        ensures
            r@ == self@,
            r.mods@ == self.mods@,
    {
        let mut ms: Vec<PackMod> = Vec::new();
        let mut i: usize = 0;
        while i < self.mods.len()
            invariant
                i <= self.mods.len(),
                ms@ == self.mods@.take(i as int),
            decreases self.mods.len() - i,
        {
            ms.push(self.mods[i].duplicate());
            proof {
                assert(ms@ =~= self.mods@.take(i + 1));
            }
            i = i + 1;
        }
        proof {
            assert(ms@ =~= self.mods@);
        }
        Pack { name: self.name.clone(), version_info: self.version_info.duplicate(), mods: ms }
    }

    /// Index of the pin stored under `slug`, if any.
    pub fn find_mod(&self, slug: &str) -> (r: Option<usize>)
        ensures
            match r {
                Some(k) => slug_at(self@.mods, k as int, slug@),
                None => !has_slug(self@.mods, slug@),
            },
    {
        let mut i: usize = 0;
        while i < self.mods.len()
            invariant
                i <= self.mods.len(),
                forall|j: int| 0 <= j < i ==> self@.mods[j].slug != slug@,
            decreases self.mods.len() - i,
        {
            if crate::resolver::str_eql(self.mods[i].slug.as_str(), slug) {
                return Some(i);
            }
            i = i + 1;
        }
        None
    }

    /// Remove the pin stored under `slug`. Returns whether one was
    /// there; every other pin keeps its place.
    pub fn remove_mod(&mut self, slug: &str) -> (r: bool)
        ensures
            final(self).name@ == old(self).name@,
            final(self).version_info@ == old(self).version_info@,
            match r {
                true => exists|k: int|
                    slug_at(old(self)@.mods, k, slug@) && final(self)@.mods == old(
                        self,
                    )@.mods.remove(k),
                false => !has_slug(old(self)@.mods, slug@) && final(self)@.mods == old(
                    self,
                )@.mods,
            },
    {
        match self.find_mod(slug) {
            Some(k) => {
                let ghost gk = k as int;
                self.mods.remove(k);
                proof {
                    assert(self.mods.deep_view() =~= old(self)@.mods.remove(gk));
                }
                true
            },
            None => false,
        }
    }

    /// Give the pack a new name; pins and descriptor are untouched.
    pub fn set_name(&mut self, name: String)
        ensures
            final(self).name@ == name@,
            final(self).version_info@ == old(self).version_info@,
            final(self)@.mods == old(self)@.mods,
    {
        self.name = name;
    }

    /// The files to fetch-verify on install: every current pin, in
    /// declaration order, unconditionally — installation never trusts
    /// a previously downloaded file.
    pub fn install_plan(&self) -> (r: &Vec<PackMod>)
        ensures
            r.deep_view() == self@.mods,
    {
        &self.mods
    }
}

/// The staging name a pack is duplicated under during a version-info
/// edit: the true name with `_tmp` appended.
pub fn tmp_name(name: &str) -> (r: String)
    ensures
        r@ == name@ + "_tmp"@,
{
    let mut s = name.to_owned();
    s.append("_tmp");
    s
}

} // verus!
