//! Pack mutation workflows: the bulk re-resolve (update) procedure,
//! the transactional version-info edit, pack creation, and the parsing
//! of the interactive menu choices.

use vstd::prelude::*;
use crate::defines::{ParseError, LOADER, VT};
use crate::pack::{
    has_slug, lemma_slug_at_unique, slug_at, slugs_unique, MVDescriptor, MVDescriptorV, Pack,
    PackMod, PackModV,
};
use crate::resolver::{resolve_slug, resolved_pin, slug_resolves, str_eql, Listing};
use crate::store::{fmt_pack, parse_vt_tokens};
use crate::text::{split_seps, split_string};
use vstd::pervasive::VecAdditionalExecFns;
use vstd::string::*;

verus! {

/// Insert a pin under its slug: replace the entry already keyed by
/// that slug, or append a new one.
pub open spec fn add_pin(mods: Seq<PackModV>, pin: PackModV) -> Seq<PackModV> {
    if has_slug(mods, pin.slug) {
        mods.update(choose|k: int| slug_at(mods, k, pin.slug), pin)
    } else {
        mods.push(pin)
    }
}

/// Any entry with the slug means a first entry with the slug exists.
pub proof fn lemma_has_slug_from_any(mods: Seq<PackModV>, j: int, slug: Seq<char>)
    requires
        0 <= j < mods.len(),
        mods[j].slug == slug,
    ensures
        has_slug(mods, slug),
    decreases j,
{
    if forall|i: int| 0 <= i < j ==> mods[i].slug != slug {
        assert(slug_at(mods, j, slug));
    } else {
        let i = choose|i: int| 0 <= i < j && mods[i].slug == slug;
        lemma_has_slug_from_any(mods, i, slug);
    }
}

/// Inserting a pin keeps the one-entry-per-slug invariant.
pub proof fn lemma_add_pin_unique(mods: Seq<PackModV>, pin: PackModV)
    requires
        slugs_unique(mods),
    ensures
        slugs_unique(add_pin(mods, pin)),
{
    if has_slug(mods, pin.slug) {
        let k = choose|k: int| slug_at(mods, k, pin.slug);
        let r = mods.update(k, pin);
        assert forall|i: int, j: int| 0 <= i < j < r.len() implies r[i].slug != r[j].slug by {
            if i == k {
                assert(r[j] == mods[j]);
                assert(mods[k].slug != mods[j].slug);
            } else if j == k {
                assert(r[i] == mods[i]);
                assert(mods[i].slug != mods[k].slug);
            } else {
                assert(r[i] == mods[i] && r[j] == mods[j]);
            }
        }
    } else {
        assert forall|j: int| 0 <= j < mods.len() implies mods[j].slug != pin.slug by {
            if mods[j].slug == pin.slug {
                lemma_has_slug_from_any(mods, j, pin.slug);
            }
        }
        let r = mods.push(pin);
        assert forall|i: int, j: int| 0 <= i < j < r.len() implies r[i].slug != r[j].slug by {
            if j == mods.len() {
                assert(r[i] == mods[i]);
            } else {
                assert(r[i] == mods[i] && r[j] == mods[j]);
            }
        }
    }
}

/// The pins after a bulk re-resolve: each entry is replaced by the
/// first match under the descriptor when one exists, and kept
/// unchanged otherwise. No entry is ever dropped.
pub open spec fn updated_mods(mods: Seq<PackMod>, cs: Seq<Listing>, d: MVDescriptorV) -> Seq<
    PackModV,
>
    decreases mods.len(),
{
    if mods.len() == 0 {
        Seq::empty()
    } else {
        updated_mods(mods.drop_last(), cs, d) + seq![
            if slug_resolves(cs, mods.last().slug@, d) {
                resolved_pin(cs, mods.last().slug@, d)
            } else {
                mods.last()@
            },
        ]
    }
}

/// The slugs whose re-resolution failed, in pack order.
pub open spec fn failed_slugs(mods: Seq<PackMod>, cs: Seq<Listing>, d: MVDescriptorV) -> Seq<
    Seq<char>,
>
    decreases mods.len(),
{
    if mods.len() == 0 {
        Seq::empty()
    } else {
        failed_slugs(mods.drop_last(), cs, d) + (if slug_resolves(cs, mods.last().slug@, d) {
            Seq::<Seq<char>>::empty()
        } else {
            seq![mods.last().slug@]
        })
    }
}

/// The update procedure touches each pin independently: entry `k` of
/// the result is exactly entry `k` of the input, replaced by its first
/// match when one exists and kept unchanged otherwise, still under its
/// slug. No pin is dropped, reordered, or silently changed.
pub proof fn lemma_updated_mods_pointwise(mods: Seq<PackMod>, cs: Seq<Listing>, d: MVDescriptorV)
    ensures
        updated_mods(mods, cs, d).len() == mods.len(),
        forall|k: int|
            0 <= k < mods.len() ==> #[trigger] updated_mods(mods, cs, d)[k] == (
            if slug_resolves(cs, mods[k].slug@, d) {
                resolved_pin(cs, mods[k].slug@, d)
            } else {
                mods[k]@
            }),
    decreases mods.len(),
{
    if mods.len() > 0 {
        lemma_updated_mods_pointwise(mods.drop_last(), cs, d);
        assert forall|k: int| 0 <= k < mods.len() implies #[trigger] updated_mods(mods, cs, d)[k]
            == (if slug_resolves(cs, mods[k].slug@, d) {
            resolved_pin(cs, mods[k].slug@, d)
        } else {
            mods[k]@
        }) by {
            if k < mods.len() - 1 {
                assert(mods.drop_last()[k] == mods[k]);
                assert(updated_mods(mods, cs, d)[k] == updated_mods(mods.drop_last(), cs, d)[k]);
            } else {
                assert(mods.last() == mods[k]);
            }
        }
    }
}

/// The update procedure: re-resolve every pinned mod under the pack's
/// current descriptor. A pin whose re-resolution fails keeps its
/// previous value and its slug is recorded; the procedure never drops
/// a pin and never aborts on a failure.
pub fn update_mods(pack: &Pack, catalog: &Vec<Listing>) -> (r: (Pack, Vec<String>))
    ensures
        r.0@.name == pack@.name,
        r.0@.version_info == pack@.version_info,
        r.0@.mods == updated_mods(pack.mods@, catalog@, pack.version_info@),
        r.0@.mods.len() == pack@.mods.len(),
        r.1.deep_view() == failed_slugs(pack.mods@, catalog@, pack.version_info@),
{
    let mut new_mods: Vec<PackMod> = Vec::new();
    let mut fails: Vec<String> = Vec::new();
    let mut i: usize = 0;
    proof {
        assert(pack.mods@.take(0) =~= Seq::<PackMod>::empty());
    }
    while i < pack.mods.len()
        invariant
            i <= pack.mods.len(),
            new_mods@.len() == i,
            new_mods.deep_view() == updated_mods(
                pack.mods@.take(i as int),
                catalog@,
                pack.version_info@,
            ),
            fails.deep_view() == failed_slugs(
                pack.mods@.take(i as int),
                catalog@,
                pack.version_info@,
            ),
        decreases pack.mods.len() - i,
    {
        let ghost nm0 = new_mods.deep_view();
        let ghost fl0 = fails.deep_view();
        let ghost cur = pack.mods@.take(i + 1);
        proof {
            assert(cur.drop_last() =~= pack.mods@.take(i as int));
            assert(cur.last() == pack.mods@[i as int]);
        }
        let m = &pack.mods[i];
        match resolve_slug(catalog, m.slug.as_str(), &pack.version_info) {
            Some(pin) => {
                new_mods.push(pin);
                proof {
                    assert(new_mods.deep_view() =~= nm0.push(pin@));
                    assert(new_mods.deep_view() =~= updated_mods(
                        cur,
                        catalog@,
                        pack.version_info@,
                    ));
                    assert(fails.deep_view() =~= failed_slugs(cur, catalog@, pack.version_info@));
                }
            },
            None => {
                fails.push(m.slug.clone());
                new_mods.push(m.duplicate());
                proof {
                    assert(new_mods.deep_view() =~= nm0.push(pack.mods@[i as int]@));
                    assert(new_mods.deep_view() =~= updated_mods(
                        cur,
                        catalog@,
                        pack.version_info@,
                    ));
                    assert(fails.deep_view() =~= fl0.push(pack.mods@[i as int].slug@));
                    assert(fails.deep_view() =~= failed_slugs(cur, catalog@, pack.version_info@));
                }
            },
        }
        i = i + 1;
    }
    proof {
        assert(pack.mods@.take(pack.mods@.len() as int) =~= pack.mods@);
    }
    let new_pack = Pack {
        name: pack.name.clone(),
        version_info: pack.version_info.duplicate(),
        mods: new_mods,
    };
    (new_pack, fails)
}

/// Outcome of the transactional version-info edit.
pub enum EditOutcome {
    /// Every pin re-resolved under the new descriptor: the surviving
    /// pack carries the new descriptor and the new pins.
    Committed(Pack),
    /// At least one pin failed to re-resolve: the attempted change is
    /// discarded and the surviving pack is the untouched original,
    /// with the failing slugs reported.
    RolledBack(Pack, Vec<String>),
}

/// The critical transactional path of the modification workflow: apply
/// a descriptor change together with the bulk re-resolve, all or
/// nothing. On any re-resolution failure the attempted change is the
/// data that is lost, never the last known-good state: the surviving
/// pack equals the original, so its stored document is byte-identical
/// to the pre-edit one.
pub fn apply_version_edit(pack: &Pack, new_desc: MVDescriptor, catalog: &Vec<Listing>) -> (r:
    EditOutcome)
    ensures
        match r {
            EditOutcome::Committed(p2) => {
                &&& failed_slugs(pack.mods@, catalog@, new_desc@).len() == 0
                &&& p2@.name == pack@.name
                &&& p2@.version_info == new_desc@
                &&& p2@.mods == updated_mods(pack.mods@, catalog@, new_desc@)
            },
            EditOutcome::RolledBack(kept, fails) => {
                &&& kept@ == pack@
                &&& fmt_pack(kept@) == fmt_pack(pack@)
                &&& fails.deep_view() == failed_slugs(pack.mods@, catalog@, new_desc@)
                &&& fails@.len() > 0
            },
        },
{
    let mut staged = pack.duplicate();
    staged.version_info = new_desc;
    let (updated, fails) = update_mods(&staged, catalog);
    if fails.len() == 0 {
        proof {
            assert(fails.deep_view().len() == fails@.len());
        }
        EditOutcome::Committed(updated)
    } else {
        proof {
            assert(fails.deep_view().len() == fails@.len());
        }
        EditOutcome::RolledBack(pack.duplicate(), fails)
    }
}

/// The pins of a freshly created pack: each requested project that
/// resolves is inserted under its slug, in request order.
pub open spec fn created_mods(reqs: Seq<String>, cs: Seq<Listing>, d: MVDescriptorV) -> Seq<
    PackModV,
>
    decreases reqs.len(),
{
    if reqs.len() == 0 {
        Seq::empty()
    } else {
        let prev = created_mods(reqs.drop_last(), cs, d);
        if slug_resolves(cs, reqs.last()@, d) {
            add_pin(prev, resolved_pin(cs, reqs.last()@, d))
        } else {
            prev
        }
    }
}

/// The requested projects that could not be resolved, in request order.
pub open spec fn create_failed(reqs: Seq<String>, cs: Seq<Listing>, d: MVDescriptorV) -> Seq<
    Seq<char>,
>
    decreases reqs.len(),
{
    if reqs.len() == 0 {
        Seq::empty()
    } else {
        create_failed(reqs.drop_last(), cs, d) + (if slug_resolves(cs, reqs.last()@, d) {
            Seq::<Seq<char>>::empty()
        } else {
            seq![reqs.last()@]
        })
    }
}

impl Pack {
    /// Resolve one project under the pack's descriptor and pin it,
    /// replacing an existing pin with the same slug. Returns whether a
    /// pin was made; on failure the pack is unchanged.
    pub fn add_mod(&mut self, slug: &str, catalog: &Vec<Listing>) -> (r: bool)
        ensures
            final(self).name@ == old(self).name@,
            final(self)@.version_info == old(self)@.version_info,
            r == slug_resolves(catalog@, slug@, old(self)@.version_info),
            r ==> final(self)@.mods == add_pin(
                old(self)@.mods,
                resolved_pin(catalog@, slug@, old(self)@.version_info),
            ),
            !r ==> final(self)@.mods == old(self)@.mods,
    {
        match resolve_slug(catalog, slug, &self.version_info) {
            Some(pin) => {
                let ghost mods0 = self@.mods;
                let ghost pinv = pin@;
                match self.find_mod(slug) {
                    Some(k) => {
                        self.mods.set(k, pin);
                        proof {
                            assert(slug_at(mods0, k as int, pinv.slug));
                            assert(has_slug(mods0, pinv.slug));
                            let ck = choose|c: int| slug_at(mods0, c, pinv.slug);
                            lemma_slug_at_unique(mods0, ck, k as int, pinv.slug);
                            assert(self.mods.deep_view() =~= mods0.update(k as int, pinv));
                        }
                        true
                    },
                    None => {
                        self.mods.push(pin);
                        proof {
                            assert(!has_slug(mods0, pinv.slug));
                            assert(self.mods.deep_view() =~= mods0.push(pinv));
                        }
                        true
                    },
                }
            },
            None => false,
        }
    }
}

/// Create a pack: start it empty under the given name and descriptor,
/// then resolve and pin every requested project, collecting per-item
/// failures instead of aborting.
pub fn create_pack(
    name: String,
    version_info: MVDescriptor,
    requested: &Vec<String>,
    catalog: &Vec<Listing>,
) -> (r: (Pack, Vec<String>))
    ensures
        r.0@.name == name@,
        r.0@.version_info == version_info@,
        r.0@.mods == created_mods(requested@, catalog@, version_info@),
        r.1.deep_view() == create_failed(requested@, catalog@, version_info@),
        slugs_unique(r.0@.mods),
{
    let ghost namev = name@;
    let ghost descv = version_info@;
    let mut pack = Pack { name, version_info, mods: Vec::new() };
    let mut fails: Vec<String> = Vec::new();
    let mut i: usize = 0;
    proof {
        assert(pack@.mods =~= Seq::<PackModV>::empty());
        assert(requested@.take(0) =~= Seq::<String>::empty());
    }
    while i < requested.len()
        invariant
            i <= requested.len(),
            pack@.name == namev,
            pack@.version_info == descv,
            pack@.mods == created_mods(requested@.take(i as int), catalog@, descv),
            fails.deep_view() == create_failed(requested@.take(i as int), catalog@, descv),
            slugs_unique(pack@.mods),
        decreases requested.len() - i,
    {
        let ghost mods0 = pack@.mods;
        let ghost fl0 = fails.deep_view();
        let ghost cur = requested@.take(i + 1);
        proof {
            assert(cur.drop_last() =~= requested@.take(i as int));
            assert(cur.last() == requested@[i as int]);
        }
        let added = pack.add_mod(requested[i].as_str(), catalog);
        if !added {
            fails.push(requested[i].clone());
            proof {
                assert(fails.deep_view() =~= fl0.push(requested@[i as int]@));
                assert(fails.deep_view() =~= create_failed(cur, catalog@, descv));
            }
        } else {
            proof {
                lemma_add_pin_unique(mods0, resolved_pin(catalog@, requested@[i as int]@, descv));
                assert(fails.deep_view() =~= create_failed(cur, catalog@, descv));
            }
        }
        proof {
            assert(pack@.mods =~= created_mods(cur, catalog@, descv));
        }
        i = i + 1;
    }
    proof {
        assert(requested@.take(requested@.len() as int) =~= requested@);
    }
    (pack, fails)
}

/// Interactions a pack can be opened for.
#[derive(Clone, Copy, Debug, PartialEq, Eq, Structural)]
pub enum PackAction {
    CREATE,
    UPDATE,
    MODIFY,
    INSTALL,
    REMOVE,
}

/// Top-level choice of the modification session.
#[derive(Clone, Copy, Debug, PartialEq, Eq, Structural)]
pub enum ModifyChoice {
    Rename,
    VersionInfo,
    Mods,
    Quit,
    Unknown,
}

pub open spec fn modify_choice_spec(s: Seq<char>) -> ModifyChoice {
    if s == "0"@ {
        ModifyChoice::Rename
    } else if s == "1"@ {
        ModifyChoice::VersionInfo
    } else if s == "2"@ {
        ModifyChoice::Mods
    } else if s == "q"@ {
        ModifyChoice::Quit
    } else {
        ModifyChoice::Unknown
    }
}

/// Dispatch a top-level menu answer.
pub fn parse_modify_choice(s: &str) -> (r: ModifyChoice)
    ensures
        r == modify_choice_spec(s@),
{
    if str_eql(s, "0") {
        ModifyChoice::Rename
    } else if str_eql(s, "1") {
        ModifyChoice::VersionInfo
    } else if str_eql(s, "2") {
        ModifyChoice::Mods
    } else if str_eql(s, "q") {
        ModifyChoice::Quit
    } else {
        ModifyChoice::Unknown
    }
}

/// Choice inside the version-info submenu.
#[derive(Clone, Copy, Debug, PartialEq, Eq, Structural)]
pub enum VersionInfoChoice {
    McVer,
    Types,
    Loader,
    Quit,
    Unknown,
}

pub open spec fn version_info_choice_spec(s: Seq<char>) -> VersionInfoChoice {
    if s == "0"@ {
        VersionInfoChoice::McVer
    } else if s == "1"@ {
        VersionInfoChoice::Types
    } else if s == "2"@ {
        VersionInfoChoice::Loader
    } else if s == "q"@ {
        VersionInfoChoice::Quit
    } else {
        VersionInfoChoice::Unknown
    }
}

/// Dispatch a version-info submenu answer.
pub fn parse_version_info_choice(s: &str) -> (r: VersionInfoChoice)
    ensures
        r == version_info_choice_spec(s@),
{
    if str_eql(s, "0") {
        VersionInfoChoice::McVer
    } else if str_eql(s, "1") {
        VersionInfoChoice::Types
    } else if str_eql(s, "2") {
        VersionInfoChoice::Loader
    } else if str_eql(s, "q") {
        VersionInfoChoice::Quit
    } else {
        VersionInfoChoice::Unknown
    }
}

/// Choice inside the mods submenu.
#[derive(Clone, Copy, Debug, PartialEq, Eq, Structural)]
pub enum ModsChoice {
    Add,
    Remove,
    Quit,
    Unknown,
}

pub open spec fn mods_choice_spec(s: Seq<char>) -> ModsChoice {
    if s == "0"@ {
        ModsChoice::Add
    } else if s == "1"@ {
        ModsChoice::Remove
    } else if s == "q"@ {
        ModsChoice::Quit
    } else {
        ModsChoice::Unknown
    }
}

/// Dispatch a mods submenu answer.
pub fn parse_mods_choice(s: &str) -> (r: ModsChoice)
    ensures
        r == mods_choice_spec(s@),
{
    if str_eql(s, "0") {
        ModsChoice::Add
    } else if str_eql(s, "1") {
        ModsChoice::Remove
    } else if str_eql(s, "q") {
        ModsChoice::Quit
    } else {
        ModsChoice::Unknown
    }
}

pub open spec fn loader_choice_spec(s: Seq<char>) -> Result<LOADER, ParseError> {
    if s == "0"@ || s == "[0]"@ {
        Ok(LOADER::FABRIC)
    } else if s == "1"@ || s == "[1]"@ {
        Ok(LOADER::QUILT)
    } else if s == "2"@ || s == "[2]"@ {
        Ok(LOADER::NEOFORGE)
    } else if s == "3"@ || s == "[3]"@ {
        Err(ParseError::UnsupportedForge)
    } else {
        Err(ParseError::UnknownLoader)
    }
}

/// The numbered loader menu of pack creation. Choosing the Forge entry
/// is a distinct, deliberate rejection.
pub fn parse_loader_choice(s: &str) -> (r: Result<LOADER, ParseError>)
    ensures
        r == loader_choice_spec(s@),
{
    if str_eql(s, "0") || str_eql(s, "[0]") {
        Ok(LOADER::FABRIC)
    } else if str_eql(s, "1") || str_eql(s, "[1]") {
        Ok(LOADER::QUILT)
    } else if str_eql(s, "2") || str_eql(s, "[2]") {
        Ok(LOADER::NEOFORGE)
    } else if str_eql(s, "3") || str_eql(s, "[3]") {
        Err(ParseError::UnsupportedForge)
    } else {
        Err(ParseError::UnknownLoader)
    }
}

/// Blank chunks removed, as a whitespace split of user input.
pub open spec fn nonblank(parts: Seq<Seq<char>>) -> Seq<Seq<char>>
    decreases parts.len(),
{
    if parts.len() == 0 {
        Seq::empty()
    } else {
        nonblank(parts.drop_last()) + (if parts.last().len() > 0 {
            seq![parts.last()]
        } else {
            Seq::<Seq<char>>::empty()
        })
    }
}

proof fn lemma_nonblank_concat(a: Seq<Seq<char>>, b: Seq<Seq<char>>)
    ensures
        nonblank(a + b) == nonblank(a) + nonblank(b),
    decreases b.len(),
{
    if b.len() == 0 {
        assert(a + b =~= a);
        assert(nonblank(a) + nonblank(b) =~= nonblank(a));
    } else {
        assert((a + b).drop_last() =~= a + b.drop_last());
        lemma_nonblank_concat(a, b.drop_last());
        assert((a + b).last() == b.last());
        assert(nonblank(a) + nonblank(b) =~= nonblank(a + b));
    }
}

proof fn lemma_parse_vt_tokens_err_concat(x: Seq<Seq<char>>, y: Seq<Seq<char>>)
    requires
        parse_vt_tokens(x) is Err,
    ensures
        parse_vt_tokens(x + y) == parse_vt_tokens(x),
    decreases y.len(),
{
    if y.len() == 0 {
        assert(x + y =~= x);
    } else {
        assert((x + y).drop_last() =~= x + y.drop_last());
        lemma_parse_vt_tokens_err_concat(x, y.drop_last());
    }
}

/// Parse a whitespace-separated channel list as typed by the user;
/// blank tokens are ignored, the first bad token's error is returned.
pub fn parse_vt_list(s: &str) -> (r: Result<Vec<VT>, ParseError>)
    ensures
        match r {
            Ok(ts) => parse_vt_tokens(nonblank(split_seps(s@, ' '))) == Ok::<
                Seq<VT>,
                ParseError,
            >(ts@),
            Err(e) => parse_vt_tokens(nonblank(split_seps(s@, ' '))) == Err::<
                Seq<VT>,
                ParseError,
            >(e),
        },
{
    let toks = split_string(s, ' ');
    let ghost tv = split_seps(s@, ' ');
    let mut acc: Vec<VT> = Vec::new();
    let mut i: usize = 0;
    proof {
        assert(tv.take(0) =~= Seq::<Seq<char>>::empty());
        assert(nonblank(tv.take(0)) =~= Seq::<Seq<char>>::empty());
    }
    while i < toks.len()
        invariant
            i <= toks.len(),
            toks.deep_view() == tv,
            tv == split_seps(s@, ' '),
            parse_vt_tokens(nonblank(tv.take(i as int))) == Ok::<Seq<VT>, ParseError>(acc@),
        decreases toks.len() - i,
    {
        let ghost acc0 = acc@;
        let ghost cur = tv.take(i + 1);
        proof {
            assert(cur.drop_last() =~= tv.take(i as int));
            assert(cur.last() == tv[i as int]);
            assert(tv[i as int] == toks@[i as int]@);
        }
        let tok = &toks[i];
        if tok.as_str().unicode_len() > 0 {
            match VT::from_str(tok.as_str()) {
                Ok(t) => {
                    acc.push(t);
                    proof {
                        let nb = nonblank(tv.take(i as int));
                        assert(nonblank(cur) =~= nb + seq![tv[i as int]]);
                        assert((nb + seq![tv[i as int]]).drop_last() =~= nb);
                        assert((nb + seq![tv[i as int]]).last() == tv[i as int]);
                        assert(acc@ =~= acc0.push(t));
                    }
                },
                Err(e) => {
                    proof {
                        let nb = nonblank(tv.take(i as int));
                        assert(nonblank(cur) =~= nb + seq![tv[i as int]]);
                        assert((nb + seq![tv[i as int]]).drop_last() =~= nb);
                        assert((nb + seq![tv[i as int]]).last() == tv[i as int]);
                        assert(parse_vt_tokens(nonblank(cur)) == Err::<Seq<VT>, ParseError>(e));
                        assert(tv =~= cur + tv.skip(i + 1));
                        lemma_nonblank_concat(cur, tv.skip(i + 1));
                        lemma_parse_vt_tokens_err_concat(nonblank(cur), nonblank(tv.skip(i + 1)));
                    }
                    return Err(e);
                },
            }
        } else {
            proof {
                assert(nonblank(cur) =~= nonblank(tv.take(i as int)));
            }
        }
        i = i + 1;
    }
    proof {
        assert(tv.take(toks@.len() as int) =~= tv);
    }
    Ok(acc)
}

} // verus!
