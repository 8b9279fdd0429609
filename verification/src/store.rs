//! The pack store's serialized representation: a line-based text
//! document with stable field names, one line per field and one line
//! per pin.
//!
//! `format_pack` produces the canonical document for a pack;
//! `parse_pack` accepts exactly the canonical documents and rejects
//! everything else as corrupt. `lemma_pack_round_trip` proves that a
//! saved pack loads back equal in all fields.

use vstd::prelude::*;
use vstd::string::*;
use crate::defines::{
    loader_from_str_spec, loader_str, lemma_loader_round_trip, lemma_vt_round_trip,
    vt_from_str_spec, vt_str, LOADER, ParseError, VT,
};
use crate::pack::{MVDescriptor, MVDescriptorV, Pack, PackMod, PackModV, PackV};
use crate::resolver::str_eql;
use crate::text::{
    join_sep, join_terminated, lemma_join_sep_free, lemma_split_join_sep,
    lemma_split_join_terminated, sep_free, split_seps, split_string,
};

verus! {

/// Loading failed: the stored document is not a canonical pack file.
#[derive(Clone, Copy, Debug, PartialEq, Eq, Structural)]
pub enum LoadError {
    CorruptState,
}

/// The five fields of a pin, in the order they are written.
pub open spec fn mod_fields(m: PackModV) -> Seq<Seq<char>> {
    seq![m.slug, m.version_number, m.filename, m.url, m.sha512]
}

/// One pin's line: the fields, tab-separated, behind the `mod=` key.
pub open spec fn mod_line(m: PackModV) -> Seq<char> {
    "mod="@ + join_sep(mod_fields(m), '\t')
}

/// Canonical spellings of a channel list.
pub open spec fn vt_tokens(ts: Seq<VT>) -> Seq<Seq<char>> {
    ts.map_values(|t: VT| vt_str(t))
}

/// A channel list's value: its spellings, space-separated.
pub open spec fn vt_list_value(ts: Seq<VT>) -> Seq<char> {
    if ts.len() == 0 {
        Seq::empty()
    } else {
        join_sep(vt_tokens(ts), ' ')
    }
}

/// The lines of a pack's document: four header fields, then one line
/// per pin in declaration order.
pub open spec fn pack_lines(pv: PackV) -> Seq<Seq<char>> {
    seq![
        "name="@ + pv.name,
        "mc_ver="@ + pv.version_info.mc_ver,
        "loader="@ + loader_str(pv.version_info.loader),
        "version_types="@ + vt_list_value(pv.version_info.version_types),
    ] + pv.mods.map_values(|m: PackModV| mod_line(m))
}

/// The canonical document of a pack: its lines, each newline-terminated.
pub open spec fn fmt_pack(pv: PackV) -> Seq<char> {
    join_terminated(pack_lines(pv), '\n')
}

/// A pin field may hold anything but the two structural characters.
pub open spec fn wf_field(s: Seq<char>) -> bool {
    sep_free(s, '\n') && sep_free(s, '\t')
}

pub open spec fn wf_mod(m: PackModV) -> bool {
    &&& wf_field(m.slug)
    &&& wf_field(m.version_number)
    &&& wf_field(m.filename)
    &&& wf_field(m.url)
    &&& wf_field(m.sha512)
}

/// A pack the store can persist faithfully: no string field crosses
/// a line boundary, no pin field holds a tab.
pub open spec fn wf_pack(pv: PackV) -> bool {
    &&& sep_free(pv.name, '\n')
    &&& sep_free(pv.version_info.mc_ver, '\n')
    &&& forall|i: int| 0 <= i < pv.mods.len() ==> wf_mod(#[trigger] pv.mods[i])
}

fn str_free_of(s: &str, a: char, b: char) -> (r: bool)
    ensures
        r == (sep_free(s@, a) && sep_free(s@, b)),
{
    let n = s.unicode_len();
    let mut i: usize = 0;
    while i < n
        invariant
            i <= n,
            n == s@.len(),
            forall|j: int| 0 <= j < i ==> s@[j] != a && s@[j] != b,
        decreases n - i,
    {
        let c = s.get_char(i);
        if c == a || c == b {
            return false;
        }
        i = i + 1;
    }
    true
}

/// Whether the store can persist this pack faithfully: no string
/// field crosses a line boundary, no pin field holds a tab. A caller
/// must test this before writing a pack whose strings came from
/// outside, lest a crafted value corrupt the document or inject a pin.
pub fn is_wf_pack(p: &Pack) -> (r: bool)
    ensures
        r == wf_pack(p@),
{
    if !str_free_of(p.name.as_str(), '\n', '\n') {
        return false;
    }
    if !str_free_of(p.version_info.mc_ver.as_str(), '\n', '\n') {
        return false;
    }
    let mut i: usize = 0;
    while i < p.mods.len()
        invariant
            i <= p.mods.len(),
            sep_free(p@.name, '\n'),
            sep_free(p@.version_info.mc_ver, '\n'),
            forall|j: int| 0 <= j < i ==> wf_mod(#[trigger] p@.mods[j]),
        decreases p.mods.len() - i,
    {
        let m = &p.mods[i];
        let ok = str_free_of(m.slug.as_str(), '\n', '\t') && str_free_of(
            m.version_number.as_str(),
            '\n',
            '\t',
        ) && str_free_of(m.filename.as_str(), '\n', '\t') && str_free_of(
            m.url.as_str(),
            '\n',
            '\t',
        ) && str_free_of(m.sha512.as_str(), '\n', '\t');
        if !ok {
            proof {
                assert(!wf_mod(p@.mods[i as int]));
            }
            return false;
        }
        i = i + 1;
    }
    true
}

/// The value of a line with the given key, if the line carries it.
pub open spec fn strip_key(line: Seq<char>, key: Seq<char>) -> Option<Seq<char>> {
    if line.len() >= key.len() && line.take(key.len() as int) == key {
        Some(line.skip(key.len() as int))
    } else {
        None
    }
}

/// Parse a list of channel spellings; the first bad token's error wins.
pub open spec fn parse_vt_tokens(toks: Seq<Seq<char>>) -> Result<Seq<VT>, ParseError>
    decreases toks.len(),
{
    if toks.len() == 0 {
        Ok(Seq::empty())
    } else {
        match parse_vt_tokens(toks.drop_last()) {
            Ok(pre) => match vt_from_str_spec(toks.last()) {
                Ok(v) => Ok(pre.push(v)),
                Err(e) => Err(e),
            },
            Err(e) => Err(e),
        }
    }
}

/// Parse a `version_types` value: empty means the empty list.
pub open spec fn parse_vt_value(v: Seq<char>) -> Result<Seq<VT>, ParseError> {
    if v.len() == 0 {
        Ok(Seq::empty())
    } else {
        parse_vt_tokens(split_seps(v, ' '))
    }
}

/// Parse one pin line: the `mod=` key, then exactly five fields.
pub open spec fn parse_mod_line(line: Seq<char>) -> Option<PackModV> {
    match strip_key(line, "mod="@) {
        Some(rest) => {
            let fields = split_seps(rest, '\t');
            if fields.len() == 5 {
                Some(
                    PackModV {
                        slug: fields[0],
                        version_number: fields[1],
                        filename: fields[2],
                        url: fields[3],
                        sha512: fields[4],
                    },
                )
            } else {
                None
            }
        },
        None => None,
    }
}

pub open spec fn parse_mod_lines(lines: Seq<Seq<char>>) -> Option<Seq<PackModV>>
    decreases lines.len(),
{
    if lines.len() == 0 {
        Some(Seq::empty())
    } else {
        match parse_mod_lines(lines.drop_last()) {
            Some(pre) => match parse_mod_line(lines.last()) {
                Some(m) => Some(pre.push(m)),
                None => None,
            },
            None => None,
        }
    }
}

/// What a stored document means: `Some` exactly for canonical pack
/// documents, with the pack they denote.
pub open spec fn parse_pack_spec(s: Seq<char>) -> Option<PackV> {
    let lines = split_seps(s, '\n');
    if lines.len() < 5 {
        None
    } else if lines.last() != Seq::<char>::empty() {
        None
    } else {
        match (
            strip_key(lines[0], "name="@),
            strip_key(lines[1], "mc_ver="@),
            strip_key(lines[2], "loader="@),
            strip_key(lines[3], "version_types="@),
        ) {
            (Some(name), Some(mc), Some(ldv), Some(vtv)) => {
                match (
                    loader_from_str_spec(ldv),
                    parse_vt_value(vtv),
                    parse_mod_lines(lines.subrange(4, lines.len() - 1)),
                ) {
                    (Ok(ld), Ok(ts), Some(mods)) => Some(
                        PackV {
                            name: name,
                            version_info: MVDescriptorV {
                                mc_ver: mc,
                                version_types: ts,
                                loader: ld,
                            },
                            mods: mods,
                        },
                    ),
                    _ => None,
                }
            },
            _ => None,
        }
    }
}

proof fn lemma_keys_nl_free()
    ensures
        sep_free("name="@, '\n'),
        sep_free("mc_ver="@, '\n'),
        sep_free("loader="@, '\n'),
        sep_free("version_types="@, '\n'),
        sep_free("mod="@, '\n'),
{
    reveal_strlit("name=");
    reveal_strlit("mc_ver=");
    reveal_strlit("loader=");
    reveal_strlit("version_types=");
    reveal_strlit("mod=");
    assert forall|i: int| 0 <= i < "name="@.len() implies "name="@[i] != '\n' by {
        assert("name="@.len() == 5);
    }
    assert forall|i: int| 0 <= i < "mc_ver="@.len() implies "mc_ver="@[i] != '\n' by {
        assert("mc_ver="@.len() == 7);
    }
    assert forall|i: int| 0 <= i < "loader="@.len() implies "loader="@[i] != '\n' by {
        assert("loader="@.len() == 7);
    }
    assert forall|i: int| 0 <= i < "version_types="@.len() implies "version_types="@[i] != '\n' by {
        assert("version_types="@.len() == 14);
    }
    assert forall|i: int| 0 <= i < "mod="@.len() implies "mod="@[i] != '\n' by {
        assert("mod="@.len() == 4);
    }
}

proof fn lemma_vt_str_free(t: VT)
    ensures
        sep_free(vt_str(t), '\n'),
        sep_free(vt_str(t), ' '),
        vt_str(t).len() > 0,
{
    reveal_strlit("release");
    reveal_strlit("beta");
    reveal_strlit("alpha");
    match t {
        VT::RELEASE => {
            assert forall|i: int| 0 <= i < "release"@.len() implies "release"@[i] != '\n'
                && "release"@[i] != ' ' by {
                assert("release"@.len() == 7);
            }
        },
        VT::BETA => {
            assert forall|i: int| 0 <= i < "beta"@.len() implies "beta"@[i] != '\n' && "beta"@[i]
                != ' ' by {
                assert("beta"@.len() == 4);
            }
        },
        VT::ALPHA => {
            assert forall|i: int| 0 <= i < "alpha"@.len() implies "alpha"@[i] != '\n' && "alpha"@[i]
                != ' ' by {
                assert("alpha"@.len() == 5);
            }
        },
    }
}

proof fn lemma_loader_str_free(l: LOADER)
    ensures
        sep_free(loader_str(l), '\n'),
{
    reveal_strlit("fabric");
    reveal_strlit("quilt");
    reveal_strlit("neoforge");
    match l {
        LOADER::FABRIC => {
            assert forall|i: int| 0 <= i < "fabric"@.len() implies "fabric"@[i] != '\n' by {
                assert("fabric"@.len() == 6);
            }
        },
        LOADER::QUILT => {
            assert forall|i: int| 0 <= i < "quilt"@.len() implies "quilt"@[i] != '\n' by {
                assert("quilt"@.len() == 5);
            }
        },
        LOADER::NEOFORGE => {
            assert forall|i: int| 0 <= i < "neoforge"@.len() implies "neoforge"@[i] != '\n' by {
                assert("neoforge"@.len() == 8);
            }
        },
    }
}

proof fn lemma_vt_value_nl_free(ts: Seq<VT>)
    ensures
        sep_free(vt_list_value(ts), '\n'),
{
    if ts.len() > 0 {
        assert forall|i: int| 0 <= i < vt_tokens(ts).len() implies sep_free(
            #[trigger] vt_tokens(ts)[i],
            '\n',
        ) by {
            lemma_vt_str_free(ts[i]);
        }
        lemma_join_sep_free(vt_tokens(ts), ' ', '\n');
    }
}

proof fn lemma_mod_line_nl_free(m: PackModV)
    requires
        wf_mod(m),
    ensures
        sep_free(mod_line(m), '\n'),
{
    lemma_keys_nl_free();
    assert forall|i: int| 0 <= i < mod_fields(m).len() implies sep_free(
        #[trigger] mod_fields(m)[i],
        '\n',
    ) by {}
    lemma_join_sep_free(mod_fields(m), '\t', '\n');
}

proof fn lemma_pack_lines_nl_free(pv: PackV)
    requires
        wf_pack(pv),
    ensures
        forall|i: int|
            0 <= i < pack_lines(pv).len() ==> sep_free(#[trigger] pack_lines(pv)[i], '\n'),
{
    lemma_keys_nl_free();
    lemma_loader_str_free(pv.version_info.loader);
    lemma_vt_value_nl_free(pv.version_info.version_types);
    assert forall|i: int| 0 <= i < pack_lines(pv).len() implies sep_free(
        #[trigger] pack_lines(pv)[i],
        '\n',
    ) by {
        if i >= 4 {
            assert(pack_lines(pv)[i] == mod_line(pv.mods[i - 4]));
            assert(wf_mod(pv.mods[i - 4]));
            lemma_mod_line_nl_free(pv.mods[i - 4]);
        }
    }
}

proof fn lemma_strip_key_concat(key: Seq<char>, value: Seq<char>)
    ensures
        strip_key(key + value, key) == Some(value),
{
    let line = key + value;
    assert(line.take(key.len() as int) =~= key);
    assert(line.skip(key.len() as int) =~= value);
}

proof fn lemma_parse_vt_tokens_round(ts: Seq<VT>)
    ensures
        parse_vt_tokens(vt_tokens(ts)) == Ok::<Seq<VT>, ParseError>(ts),
    decreases ts.len(),
{
    if ts.len() == 0 {
        assert(vt_tokens(ts) =~= Seq::<Seq<char>>::empty());
        assert(ts =~= Seq::<VT>::empty());
    } else {
        assert(vt_tokens(ts).drop_last() =~= vt_tokens(ts.drop_last()));
        lemma_parse_vt_tokens_round(ts.drop_last());
        assert(vt_tokens(ts).last() == vt_str(ts.last()));
        lemma_vt_round_trip(ts.last());
        assert(ts.drop_last().push(ts.last()) =~= ts);
    }
}

proof fn lemma_parse_vt_value_round(ts: Seq<VT>)
    ensures
        parse_vt_value(vt_list_value(ts)) == Ok::<Seq<VT>, ParseError>(ts),
{
    if ts.len() == 0 {
        assert(ts =~= Seq::<VT>::empty());
    } else {
        let toks = vt_tokens(ts);
        assert forall|i: int| 0 <= i < toks.len() implies sep_free(#[trigger] toks[i], ' ')
            && toks[i].len() > 0 by {
            lemma_vt_str_free(ts[i]);
        }
        if toks.len() == 1 {
            assert(join_sep(toks, ' ') == toks[0]);
            assert(vt_list_value(ts).len() > 0);
        } else {
            assert(join_sep(toks, ' ').len() > 0);
        }
        lemma_split_join_sep(toks, ' ');
        lemma_parse_vt_tokens_round(ts);
    }
}

proof fn lemma_parse_mod_line_round(m: PackModV)
    requires
        wf_mod(m),
    ensures
        parse_mod_line(mod_line(m)) == Some(m),
{
    lemma_strip_key_concat("mod="@, join_sep(mod_fields(m), '\t'));
    assert forall|i: int| 0 <= i < mod_fields(m).len() implies sep_free(
        #[trigger] mod_fields(m)[i],
        '\t',
    ) by {}
    lemma_split_join_sep(mod_fields(m), '\t');
    let fields = mod_fields(m);
    assert(PackModV {
        slug: fields[0],
        version_number: fields[1],
        filename: fields[2],
        url: fields[3],
        sha512: fields[4],
    } == m);
}

proof fn lemma_parse_mod_lines_round(mods: Seq<PackModV>)
    requires
        forall|i: int| 0 <= i < mods.len() ==> wf_mod(#[trigger] mods[i]),
    ensures
        parse_mod_lines(mods.map_values(|m: PackModV| mod_line(m))) == Some(mods),
    decreases mods.len(),
{
    let lines = mods.map_values(|m: PackModV| mod_line(m));
    if mods.len() == 0 {
        assert(lines =~= Seq::<Seq<char>>::empty());
        assert(mods =~= Seq::<PackModV>::empty());
    } else {
        assert(lines.drop_last() =~= mods.drop_last().map_values(|m: PackModV| mod_line(m)));
        lemma_parse_mod_lines_round(mods.drop_last());
        assert(lines.last() == mod_line(mods.last()));
        lemma_parse_mod_line_round(mods.last());
        assert(mods.drop_last().push(mods.last()) =~= mods);
    }
}

/// Round trip of the pack store: the canonical document written for a
/// well-formed pack parses back to that very pack, equal in all fields.
pub proof fn lemma_pack_round_trip(pv: PackV)
    requires
        wf_pack(pv),
    ensures
        parse_pack_spec(fmt_pack(pv)) == Some(pv),
{
    let lines = pack_lines(pv);
    lemma_pack_lines_nl_free(pv);
    lemma_split_join_terminated(lines, '\n');
    let ls = lines + seq![Seq::<char>::empty()];
    assert(split_seps(fmt_pack(pv), '\n') == ls);
    assert(ls.len() == lines.len() + 1);
    assert(lines.len() == 4 + pv.mods.len());
    assert(ls.last() == Seq::<char>::empty());
    assert(ls[0] == "name="@ + pv.name);
    lemma_strip_key_concat("name="@, pv.name);
    assert(ls[1] == "mc_ver="@ + pv.version_info.mc_ver);
    lemma_strip_key_concat("mc_ver="@, pv.version_info.mc_ver);
    assert(ls[2] == "loader="@ + loader_str(pv.version_info.loader));
    lemma_strip_key_concat("loader="@, loader_str(pv.version_info.loader));
    assert(ls[3] == "version_types="@ + vt_list_value(pv.version_info.version_types));
    lemma_strip_key_concat("version_types="@, vt_list_value(pv.version_info.version_types));
    lemma_loader_round_trip(pv.version_info.loader);
    lemma_parse_vt_value_round(pv.version_info.version_types);
    assert(ls.subrange(4, ls.len() - 1) =~= pv.mods.map_values(|m: PackModV| mod_line(m)));
    lemma_parse_mod_lines_round(pv.mods);
    assert(MVDescriptorV {
        mc_ver: pv.version_info.mc_ver,
        version_types: pv.version_info.version_types,
        loader: pv.version_info.loader,
    } == pv.version_info);
}

proof fn lemma_parse_vt_tokens_err_extends(toks: Seq<Seq<char>>, i: int)
    requires
        0 <= i <= toks.len(),
        parse_vt_tokens(toks.take(i)) is Err,
    ensures
        parse_vt_tokens(toks) == parse_vt_tokens(toks.take(i)),
    decreases toks.len() - i,
{
    if i == toks.len() {
        assert(toks.take(i) =~= toks);
    } else {
        assert(toks.take(i + 1).drop_last() =~= toks.take(i));
        lemma_parse_vt_tokens_err_extends(toks, i + 1);
    }
}

proof fn lemma_parse_mod_lines_none_extends(lines: Seq<Seq<char>>, i: int)
    requires
        0 <= i <= lines.len(),
        parse_mod_lines(lines.take(i)) is None,
    ensures
        parse_mod_lines(lines) is None,
    decreases lines.len() - i,
{
    if i == lines.len() {
        assert(lines.take(i) =~= lines);
    } else {
        assert(lines.take(i + 1).drop_last() =~= lines.take(i));
        lemma_parse_mod_lines_none_extends(lines, i + 1);
    }
}

fn append_vt_value(out: &mut String, ts: &Vec<VT>)
    ensures
        final(out)@ == old(out)@ + vt_list_value(ts@),
{
    let ghost base = out@;
    let mut i: usize = 0;
    while i < ts.len()
        invariant
            i <= ts.len(),
            i == 0 ==> out@ == base,
            i > 0 ==> out@ == base + join_sep(vt_tokens(ts@.take(i as int)), ' '),
        decreases ts.len() - i,
    {
        if i > 0 {
            out.append(" ");
        }
        let t = ts[i].to_string();
        out.append(t.as_str());
        proof {
            reveal_strlit(" ");
            let cur = vt_tokens(ts@.take(i + 1));
            assert(cur.drop_last() =~= vt_tokens(ts@.take(i as int)));
            assert(cur.last() == vt_str(ts@[i as int]));
            if i == 0 {
                assert(cur =~= seq![vt_str(ts@[0])]);
                assert(join_sep(cur, ' ') == cur[0]);
                assert(out@ =~= base + join_sep(cur, ' '));
            } else {
                assert(cur.len() >= 2);
                assert(" "@ =~= seq![' ']);
                assert(out@ =~= base + join_sep(cur, ' '));
            }
        }
        i = i + 1;
    }
    proof {
        if ts.len() == 0 {
            assert(out@ =~= base + vt_list_value(ts@));
        } else {
            assert(ts@.take(ts@.len() as int) =~= ts@);
        }
    }
}

fn append_mod_line(out: &mut String, m: &PackMod)
    ensures
        final(out)@ == old(out)@ + mod_line(m@) + seq!['\n'],
{
    let ghost base = out@;
    out.append("mod=");
    out.append(m.slug.as_str());
    out.append("\t");
    out.append(m.version_number.as_str());
    out.append("\t");
    out.append(m.filename.as_str());
    out.append("\t");
    out.append(m.url.as_str());
    out.append("\t");
    out.append(m.sha512.as_str());
    out.append("\n");
    proof {
        reveal_strlit("\t");
        reveal_strlit("\n");
        assert("\t"@ =~= seq!['\t']);
        assert("\n"@ =~= seq!['\n']);
        let f = mod_fields(m@);
        let f4 = seq![m@.slug, m@.version_number, m@.filename, m@.url];
        let f3 = seq![m@.slug, m@.version_number, m@.filename];
        let f2 = seq![m@.slug, m@.version_number];
        let f1 = seq![m@.slug];
        assert(f.drop_last() =~= f4);
        assert(f4.drop_last() =~= f3);
        assert(f3.drop_last() =~= f2);
        assert(f2.drop_last() =~= f1);
        assert(join_sep(f1, '\t') == f1[0]);
        assert(join_sep(f2, '\t') == join_sep(f1, '\t') + seq!['\t'] + f2.last());
        assert(join_sep(f3, '\t') == join_sep(f2, '\t') + seq!['\t'] + f3.last());
        assert(join_sep(f4, '\t') == join_sep(f3, '\t') + seq!['\t'] + f4.last());
        assert(join_sep(f, '\t') == join_sep(f4, '\t') + seq!['\t'] + f.last());
        assert(out@ =~= base + mod_line(m@) + seq!['\n']);
    }
}

/// Write the canonical document for a pack. Only a well-formed pack
/// (see `is_wf_pack`) has a faithful document; the caller establishes
/// that before asking for one.
pub fn format_pack(p: &Pack) -> (r: String)
    requires
        wf_pack(p@),
    ensures
        r@ == fmt_pack(p@),
{
    let ghost lines = pack_lines(p@);
    let mut out = String::new();
    out.append("name=");
    out.append(p.name.as_str());
    out.append("\n");
    proof {
        reveal_strlit("\n");
        assert("\n"@ =~= seq!['\n']);
        assert(lines.take(1).drop_last() =~= lines.take(0));
        assert(join_terminated(lines.take(0), '\n') == Seq::<char>::empty());
        assert(lines.take(1).last() == lines[0]);
        assert(out@ =~= join_terminated(lines.take(1), '\n'));
    }
    out.append("mc_ver=");
    out.append(p.version_info.mc_ver.as_str());
    out.append("\n");
    proof {
        assert(lines.take(2).drop_last() =~= lines.take(1));
        assert(lines.take(2).last() == lines[1]);
        assert(out@ =~= join_terminated(lines.take(2), '\n'));
    }
    out.append("loader=");
    let lstr = p.version_info.loader.to_string();
    out.append(lstr.as_str());
    out.append("\n");
    proof {
        assert(lines.take(3).drop_last() =~= lines.take(2));
        assert(lines.take(3).last() == lines[2]);
        assert(out@ =~= join_terminated(lines.take(3), '\n'));
    }
    out.append("version_types=");
    append_vt_value(&mut out, &p.version_info.version_types);
    out.append("\n");
    proof {
        assert(lines.take(4).drop_last() =~= lines.take(3));
        assert(lines.take(4).last() == lines[3]);
        assert(out@ =~= join_terminated(lines.take(4), '\n'));
    }
    let mut i: usize = 0;
    while i < p.mods.len()
        invariant
            i <= p.mods.len(),
            out@ == join_terminated(pack_lines(p@).take(4 + i as int), '\n'),
        decreases p.mods.len() - i,
    {
        append_mod_line(&mut out, &p.mods[i]);
        proof {
            let lns = pack_lines(p@);
            let cur = lns.take(4 + i as int + 1);
            assert(cur.drop_last() =~= lns.take(4 + i as int));
            assert(cur.last() == lns[4 + i as int]);
            assert(lns[4 + i as int] == mod_line(p@.mods[i as int]));
            assert(p@.mods[i as int] == p.mods[i as int]@);
            assert(out@ =~= join_terminated(cur, '\n'));
        }
        i = i + 1;
    }
    proof {
        let lns = pack_lines(p@);
        assert(lns.len() == 4 + p.mods.len());
        assert(lns.take(lns.len() as int) =~= lns);
    }
    out
}

fn strip_key_e(line: &str, key: &str) -> (r: Option<String>)
    ensures
        match r {
            Some(v) => strip_key(line@, key@) == Some(v@),
            None => strip_key(line@, key@) is None,
        },
{
    let n = line.unicode_len();
    let k = key.unicode_len();
    if n < k {
        return None;
    }
    let pre = line.substring_char(0, k);
    if str_eql(pre, key) {
        let v = line.substring_char(k, n).to_owned();
        proof {
            assert(line@.take(k as int) =~= line@.subrange(0, k as int));
            assert(line@.skip(k as int) =~= line@.subrange(k as int, n as int));
        }
        Some(v)
    } else {
        proof {
            assert(line@.take(k as int) =~= line@.subrange(0, k as int));
        }
        None
    }
}

fn parse_vt_value_e(v: &str) -> (r: Result<Vec<VT>, LoadError>)
    ensures
        match r {
            Ok(ts) => parse_vt_value(v@) == Ok::<Seq<VT>, ParseError>(ts@),
            Err(_) => parse_vt_value(v@) is Err,
        },
{
    if v.unicode_len() == 0 {
        let e: Vec<VT> = Vec::new();
        proof {
            assert(e@ =~= Seq::<VT>::empty());
        }
        return Ok(e);
    }
    let toks = split_string(v, ' ');
    let ghost tv = split_seps(v@, ' ');
    let mut acc: Vec<VT> = Vec::new();
    let mut i: usize = 0;
    proof {
        assert(tv.take(0) =~= Seq::<Seq<char>>::empty());
    }
    while i < toks.len()
        invariant
            i <= toks.len(),
            tv == split_seps(v@, ' '),
            toks.deep_view() == tv,
            v@.len() > 0,
            parse_vt_tokens(tv.take(i as int)) == Ok::<Seq<VT>, ParseError>(acc@),
        decreases toks.len() - i,
    {
        let ghost acc0 = acc@;
        match VT::from_str(toks[i].as_str()) {
            Ok(t) => {
                acc.push(t);
                proof {
                    assert(tv.take(i + 1).drop_last() =~= tv.take(i as int));
                    assert(tv.take(i + 1).last() == tv[i as int]);
                    assert(tv[i as int] == toks@[i as int]@);
                    assert(acc@ =~= acc0.push(t));
                }
            },
            Err(_) => {
                proof {
                    assert(tv.take(i + 1).drop_last() =~= tv.take(i as int));
                    assert(tv.take(i + 1).last() == tv[i as int]);
                    assert(tv[i as int] == toks@[i as int]@);
                    assert(parse_vt_tokens(tv.take(i + 1)) is Err);
                    lemma_parse_vt_tokens_err_extends(tv, i + 1);
                }
                return Err(LoadError::CorruptState);
            },
        }
        i = i + 1;
    }
    proof {
        assert(tv.take(toks@.len() as int) =~= tv);
    }
    Ok(acc)
}

fn parse_mod_line_e(line: &str) -> (r: Option<PackMod>)
    ensures
        match r {
            Some(m) => parse_mod_line(line@) == Some(m@),
            None => parse_mod_line(line@) is None,
        },
{
    match strip_key_e(line, "mod=") {
        None => None,
        Some(rest) => {
            let fs = split_string(rest.as_str(), '\t');
            if fs.len() != 5 {
                proof {
                    assert(fs.deep_view().len() == fs@.len());
                }
                None
            } else {
                let m = PackMod {
                    slug: fs[0].clone(),
                    version_number: fs[1].clone(),
                    filename: fs[2].clone(),
                    url: fs[3].clone(),
                    sha512: fs[4].clone(),
                };
                proof {
                    assert(fs.deep_view()[0] == fs@[0]@);
                    assert(fs.deep_view()[1] == fs@[1]@);
                    assert(fs.deep_view()[2] == fs@[2]@);
                    assert(fs.deep_view()[3] == fs@[3]@);
                    assert(fs.deep_view()[4] == fs@[4]@);
                }
                Some(m)
            }
        },
    }
}

/// Read a stored document back into a pack. `Err` exactly when the
/// document is not canonical (`parse_pack_spec` gives it no meaning).
pub fn parse_pack(s: &str) -> (r: Result<Pack, LoadError>)
    ensures
        match r {
            Ok(p) => parse_pack_spec(s@) == Some(p@),
            Err(_) => parse_pack_spec(s@) is None,
        },
{
    let lines = split_string(s, '\n');
    let ghost ls = split_seps(s@, '\n');
    proof {
        assert(ls.len() == lines@.len());
    }
    let nlines = lines.len();
    if nlines < 5 {
        return Err(LoadError::CorruptState);
    }
    if lines[nlines - 1].as_str().unicode_len() != 0 {
        proof {
            assert(ls.last() == lines@[nlines - 1]@);
        }
        return Err(LoadError::CorruptState);
    }
    proof {
        assert(ls.last() == lines@[nlines - 1]@);
        assert(ls.last() =~= Seq::<char>::empty());
    }
    let name = match strip_key_e(lines[0].as_str(), "name=") {
        Some(v) => v,
        None => {
            return Err(LoadError::CorruptState);
        },
    };
    let mc = match strip_key_e(lines[1].as_str(), "mc_ver=") {
        Some(v) => v,
        None => {
            return Err(LoadError::CorruptState);
        },
    };
    let ldv = match strip_key_e(lines[2].as_str(), "loader=") {
        Some(v) => v,
        None => {
            return Err(LoadError::CorruptState);
        },
    };
    let vtv = match strip_key_e(lines[3].as_str(), "version_types=") {
        Some(v) => v,
        None => {
            return Err(LoadError::CorruptState);
        },
    };
    let loader = match LOADER::from_str(ldv.as_str()) {
        Ok(l) => l,
        Err(_) => {
            return Err(LoadError::CorruptState);
        },
    };
    let version_types = match parse_vt_value_e(vtv.as_str()) {
        Ok(ts) => ts,
        Err(_) => {
            return Err(LoadError::CorruptState);
        },
    };
    let ghost msub = ls.subrange(4, ls.len() - 1);
    let mut mods: Vec<PackMod> = Vec::new();
    let mut i: usize = 4;
    proof {
        assert(msub.take(0) =~= Seq::<Seq<char>>::empty());
    }
    while i < nlines - 1
        invariant
            4 <= i <= nlines - 1,
            5 <= nlines,
            nlines == lines@.len(),
            ls == split_seps(s@, '\n'),
            lines.deep_view() == ls,
            msub == ls.subrange(4, ls.len() - 1),
            parse_mod_lines(msub.take(i - 4)) == Some(mods.deep_view()),
        decreases nlines - i,
    {
        let ghost mods0 = mods.deep_view();
        match parse_mod_line_e(lines[i].as_str()) {
            Some(m) => {
                mods.push(m);
                proof {
                    assert(msub.take(i - 4 + 1).drop_last() =~= msub.take(i - 4));
                    assert(msub.take(i - 4 + 1).last() == msub[i - 4]);
                    assert(msub[i - 4] == ls[i as int]);
                    assert(ls[i as int] == lines@[i as int]@);
                    assert(mods.deep_view() =~= mods0.push(m@));
                }
            },
            None => {
                proof {
                    assert(msub.take(i - 4 + 1).drop_last() =~= msub.take(i - 4));
                    assert(msub.take(i - 4 + 1).last() == msub[i - 4]);
                    assert(msub[i - 4] == ls[i as int]);
                    assert(ls[i as int] == lines@[i as int]@);
                    assert(parse_mod_lines(msub.take(i - 4 + 1)) is None);
                    lemma_parse_mod_lines_none_extends(msub, i - 4 + 1);
                }
                return Err(LoadError::CorruptState);
            },
        }
        i = i + 1;
    }
    proof {
        assert(msub.take(msub.len() as int) =~= msub);
    }
    let p = Pack {
        name,
        version_info: MVDescriptor { mc_ver: mc, version_types, loader },
        mods,
    };
    Ok(p)
}


} // verus!
