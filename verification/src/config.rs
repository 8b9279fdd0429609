//! Tool configuration: the value object resolved once at start and
//! passed explicitly into the store and the catalog client.
//!
//! Reading the file and locating the home directory are the caller's
//! business; this module owns the defaults, the key-by-key merge of
//! parsed entries onto them, and the canonical document written back.

use vstd::prelude::*;
use vstd::string::*;
use crate::defines::{loader_from_str_spec, loader_str, vt_from_str_spec, vt_str, LOADER, VT};
use crate::resolver::str_eql;

verus! {

/// A configuration entry's value, as plain data.
#[derive(Debug, PartialEq, Eq)]
pub enum CfgValue {
    Text(String),
    Num(usize),
    /// A value of a kind no known key accepts.
    Other,
}

/// Model of an entry value.
pub enum CfgValueV {
    Text(Seq<char>),
    Num(usize),
    Other,
}

impl View for CfgValue {
    type V = CfgValueV;

    open spec fn view(&self) -> CfgValueV {
        match self {
            CfgValue::Text(s) => CfgValueV::Text(s@),
            CfgValue::Num(n) => CfgValueV::Num(*n),
            CfgValue::Other => CfgValueV::Other,
        }
    }
}

/// One top-level entry of the configuration document.
#[derive(Debug, PartialEq, Eq)]
pub struct CfgEntry {
    pub key: String,
    pub value: CfgValue,
}

/// Model of an entry.
pub struct CfgEntryV {
    pub key: Seq<char>,
    pub value: CfgValueV,
}

impl View for CfgEntry {
    type V = CfgEntryV;

    open spec fn view(&self) -> CfgEntryV {
        CfgEntryV { key: self.key@, value: self.value@ }
    }
}

impl DeepView for CfgEntry {
    type V = CfgEntryV;

    open spec fn deep_view(&self) -> CfgEntryV {
        self.view()
    }
}

/// The tool's configuration.
#[derive(Debug, PartialEq, Eq)]
pub struct Configuration {
    pub release_type: VT,
    pub loader: LOADER,
    pub download_path: String,
    pub pack_path: String,
    pub mc_ver: String,
    pub staging: usize,
    pub install_path: Option<String>,
}

/// Mathematical model of a configuration.
pub struct ConfigurationV {
    pub release_type: VT,
    pub loader: LOADER,
    pub download_path: Seq<char>,
    pub pack_path: Seq<char>,
    pub mc_ver: Seq<char>,
    pub staging: usize,
    pub install_path: Option<Seq<char>>,
}

impl View for Configuration {
    type V = ConfigurationV;

    open spec fn view(&self) -> ConfigurationV {
        ConfigurationV {
            release_type: self.release_type,
            loader: self.loader,
            download_path: self.download_path@,
            pack_path: self.pack_path@,
            mc_ver: self.mc_ver@,
            staging: self.staging,
            install_path: self.install_path.deep_view(),
        }
    }
}

/// Why a configuration document was refused.
#[derive(Debug, PartialEq, Eq)]
pub enum ConfigError {
    /// The document is not a TOML table; carries the parser's message.
    Unreadable(String),
    /// An entry named a known key but carried a value of the wrong
    /// shape or an unknown spelling.
    BadValue,
}

/// The defaults, relative to the given home directory: release channel
/// only, Fabric, downloads under the home directory, packs under the
/// tool's own configuration directory, production endpoint, no target
/// platform version and no install path chosen yet.
pub fn default_config(home: &str) -> (r: Configuration)
    ensures
        r@.release_type == VT::RELEASE,
        r@.loader == LOADER::FABRIC,
        r@.download_path == home@ + "/Downloads"@,
        r@.pack_path == home@ + "/.config/modrinth-apitool/packs"@,
        r@.mc_ver == Seq::<char>::empty(),
        r@.staging == 0,
        r@.install_path is None,
{
    let mut dl = home.to_owned();
    dl.append("/Downloads");
    let mut pp = home.to_owned();
    pp.append("/.config/modrinth-apitool/packs");
    Configuration {
        release_type: VT::RELEASE,
        loader: LOADER::FABRIC,
        download_path: dl,
        pack_path: pp,
        mc_ver: String::new(),
        staging: 0,
        install_path: None,
    }
}

/// What one entry does to a configuration: a known key replaces its
/// field when the value suits it and is refused otherwise; an unknown
/// key changes nothing.
pub open spec fn apply_entry_spec(c: ConfigurationV, key: Seq<char>, value: CfgValueV) -> Result<
    ConfigurationV,
    ConfigError,
> {
    if key == "release_type"@ {
        match value {
            CfgValueV::Text(s) => match vt_from_str_spec(s) {
                Ok(v) => Ok(ConfigurationV { release_type: v, ..c }),
                Err(_) => Err(ConfigError::BadValue),
            },
            _ => Err(ConfigError::BadValue),
        }
    } else if key == "loader"@ {
        match value {
            CfgValueV::Text(s) => match loader_from_str_spec(s) {
                Ok(l) => Ok(ConfigurationV { loader: l, ..c }),
                Err(_) => Err(ConfigError::BadValue),
            },
            _ => Err(ConfigError::BadValue),
        }
    } else if key == "download_path"@ {
        match value {
            CfgValueV::Text(s) => Ok(ConfigurationV { download_path: s, ..c }),
            _ => Err(ConfigError::BadValue),
        }
    } else if key == "pack_path"@ {
        match value {
            CfgValueV::Text(s) => Ok(ConfigurationV { pack_path: s, ..c }),
            _ => Err(ConfigError::BadValue),
        }
    } else if key == "mc_ver"@ {
        match value {
            CfgValueV::Text(s) => Ok(ConfigurationV { mc_ver: s, ..c }),
            _ => Err(ConfigError::BadValue),
        }
    } else if key == "staging"@ {
        match value {
            CfgValueV::Num(n) => Ok(ConfigurationV { staging: n, ..c }),
            _ => Err(ConfigError::BadValue),
        }
    } else if key == "install_path"@ {
        match value {
            CfgValueV::Text(s) => Ok(ConfigurationV { install_path: Some(s), ..c }),
            _ => Err(ConfigError::BadValue),
        }
    } else {
        Ok(c)
    }
}

/// Entries folded onto a base configuration, in document order; the
/// first refused entry wins.
pub open spec fn apply_entries_spec(c: ConfigurationV, entries: Seq<CfgEntryV>) -> Result<
    ConfigurationV,
    ConfigError,
>
    decreases entries.len(),
{
    if entries.len() == 0 {
        Ok(c)
    } else {
        match apply_entries_spec(c, entries.drop_last()) {
            Ok(c2) => apply_entry_spec(c2, entries.last().key, entries.last().value),
            Err(e) => Err(e),
        }
    }
}

fn apply_entry(c: &mut Configuration, e: &CfgEntry) -> (r: Result<(), ConfigError>)
    ensures
        match r {
            Ok(_) => apply_entry_spec(old(c)@, e.key@, e.value@) == Ok::<
                ConfigurationV,
                ConfigError,
            >(final(c)@),
            Err(err) => apply_entry_spec(old(c)@, e.key@, e.value@) == Err::<
                ConfigurationV,
                ConfigError,
            >(err) && final(c)@ == old(c)@,
        },
{
    if str_eql(e.key.as_str(), "release_type") {
        match &e.value {
            CfgValue::Text(s) => match VT::from_str(s.as_str()) {
                Ok(v) => {
                    c.release_type = v;
                    Ok(())
                },
                Err(_) => Err(ConfigError::BadValue),
            },
            _ => Err(ConfigError::BadValue),
        }
    } else if str_eql(e.key.as_str(), "loader") {
        match &e.value {
            CfgValue::Text(s) => match LOADER::from_str(s.as_str()) {
                Ok(l) => {
                    c.loader = l;
                    Ok(())
                },
                Err(_) => Err(ConfigError::BadValue),
            },
            _ => Err(ConfigError::BadValue),
        }
    } else if str_eql(e.key.as_str(), "download_path") {
        match &e.value {
            CfgValue::Text(s) => {
                c.download_path = s.clone();
                Ok(())
            },
            _ => Err(ConfigError::BadValue),
        }
    } else if str_eql(e.key.as_str(), "pack_path") {
        match &e.value {
            CfgValue::Text(s) => {
                c.pack_path = s.clone();
                Ok(())
            },
            _ => Err(ConfigError::BadValue),
        }
    } else if str_eql(e.key.as_str(), "mc_ver") {
        match &e.value {
            CfgValue::Text(s) => {
                c.mc_ver = s.clone();
                Ok(())
            },
            _ => Err(ConfigError::BadValue),
        }
    } else if str_eql(e.key.as_str(), "staging") {
        match &e.value {
            CfgValue::Num(n) => {
                c.staging = *n;
                Ok(())
            },
            _ => Err(ConfigError::BadValue),
        }
    } else if str_eql(e.key.as_str(), "install_path") {
        match &e.value {
            CfgValue::Text(s) => {
                c.install_path = Some(s.clone());
                Ok(())
            },
            _ => Err(ConfigError::BadValue),
        }
    } else {
        Ok(())
    }
}

proof fn lemma_apply_entries_err_extends(c: ConfigurationV, entries: Seq<CfgEntryV>, i: int)
    requires
        0 <= i <= entries.len(),
        apply_entries_spec(c, entries.take(i)) is Err,
    ensures
        apply_entries_spec(c, entries) == apply_entries_spec(c, entries.take(i)),
    decreases entries.len() - i,
{
    if i == entries.len() {
        assert(entries.take(i) =~= entries);
    } else {
        assert(entries.take(i + 1).drop_last() =~= entries.take(i));
        lemma_apply_entries_err_extends(c, entries, i + 1);
    }
}

impl Configuration {
    /// A field-by-field copy, equal to the original in every model field.
    pub fn duplicate(&self) -> (r: Configuration)
        ensures
            r@ == self@,
    {
        Configuration {
            release_type: self.release_type,
            loader: self.loader,
            download_path: self.download_path.clone(),
            pack_path: self.pack_path.clone(),
            mc_ver: self.mc_ver.clone(),
            staging: self.staging,
            install_path: match &self.install_path {
                Some(s) => Some(s.clone()),
                None => None,
            },
        }
    }
}

/// Merge parsed configuration entries onto a base configuration, in
/// document order. Unknown keys are ignored; a known key with an
/// unsuitable value refuses the whole document.
pub fn merge_config(base: &Configuration, entries: &Vec<CfgEntry>) -> (r: Result<
    Configuration,
    ConfigError,
>)
    ensures
        match r {
            Ok(c) => apply_entries_spec(base@, entries.deep_view()) == Ok::<
                ConfigurationV,
                ConfigError,
            >(c@),
            Err(e) => apply_entries_spec(base@, entries.deep_view()) == Err::<
                ConfigurationV,
                ConfigError,
            >(e),
        },
{
    let ghost ev = entries.deep_view();
    let mut cur = base.duplicate();
    let mut i: usize = 0;
    proof {
        assert(ev.take(0) =~= Seq::<CfgEntryV>::empty());
    }
    while i < entries.len()
        invariant
            i <= entries.len(),
            ev == entries.deep_view(),
            apply_entries_spec(base@, ev.take(i as int)) == Ok::<ConfigurationV, ConfigError>(
                cur@,
            ),
        decreases entries.len() - i,
    {
        let ghost nxt = ev.take(i + 1);
        proof {
            assert(nxt.drop_last() =~= ev.take(i as int));
            assert(nxt.last() == ev[i as int]);
            assert(ev[i as int].key == entries@[i as int].key@);
            assert(ev[i as int].value == entries@[i as int].value@);
        }
        match apply_entry(&mut cur, &entries[i]) {
            Ok(_) => {
            },
            Err(e) => {
                proof {
                    assert(apply_entries_spec(base@, nxt) == Err::<ConfigurationV, ConfigError>(
                        e,
                    ));
                    lemma_apply_entries_err_extends(base@, ev, i + 1);
                }
                return Err(e);
            },
        }
        i = i + 1;
    }
    proof {
        assert(ev.take(entries@.len() as int) =~= ev);
    }
    Ok(cur)
}

/// What the document parser hands back for a body: its top-level
/// entries in document order, or the parser's message. The result
/// depends on the body alone.
pub uninterp spec fn toml_entries_of(body: Seq<char>) -> Result<Seq<CfgEntryV>, Seq<char>>;

/// Relies on toml's document parser: the body is read as a TOML table
/// and each top-level entry handed back as its key with its string or
/// integer value; entries of any other kind come back as `Other`, and
/// an unparsable document as the parser's message.
#[verifier::external_body]
fn parse_toml_entries(body: &str) -> (r: Result<Vec<CfgEntry>, String>)
    ensures
        match r {
            Ok(es) => toml_entries_of(body@) == Ok::<Seq<CfgEntryV>, Seq<char>>(es.deep_view()),
            Err(e) => toml_entries_of(body@) == Err::<Seq<CfgEntryV>, Seq<char>>(e@),
        },
{
    let table: toml::Table = match body.parse() {
        Ok(t) => t,
        Err(e) => return Err(e.message().to_string()),
    };
    let mut out = Vec::new();
    for (key, value) in table {
        let v = match value {
            toml::Value::String(s) => CfgValue::Text(s),
            toml::Value::Integer(n) => usize::try_from(n).map(CfgValue::Num).unwrap_or(CfgValue::Other),
            _ => CfgValue::Other,
        };
        out.push(CfgEntry { key, value: v });
    }
    Ok(out)
}

/// Parse a configuration document and merge it onto the given base.
/// Success exactly when the document parses as a TOML table and every
/// entry merges: the result is the entry fold onto the base. An
/// unreadable document is refused with the parser's message, a refused
/// entry with `BadValue`.
pub fn parse_config(body: &str, base: &Configuration) -> (r: Result<Configuration, ConfigError>)
    ensures
        match r {
            Ok(c) => toml_entries_of(body@) matches Ok(es) && apply_entries_spec(base@, es)
                == Ok::<ConfigurationV, ConfigError>(c@),
            Err(e) => match e {
                ConfigError::Unreadable(msg) => toml_entries_of(body@) == Err::<
                    Seq<CfgEntryV>,
                    Seq<char>,
                >(msg@),
                ConfigError::BadValue => toml_entries_of(body@) matches Ok(es)
                    && apply_entries_spec(base@, es) is Err,
            },
        },
{
    match parse_toml_entries(body) {
        Ok(entries) => match merge_config(base, &entries) {
            Ok(c) => Ok(c),
            Err(_) => Err(ConfigError::BadValue),
        },
        Err(msg) => Err(ConfigError::Unreadable(msg)),
    }
}

/// The decimal digit characters.
pub open spec fn digit_char(d: nat) -> char {
    if d == 0 {
        '0'
    } else if d == 1 {
        '1'
    } else if d == 2 {
        '2'
    } else if d == 3 {
        '3'
    } else if d == 4 {
        '4'
    } else if d == 5 {
        '5'
    } else if d == 6 {
        '6'
    } else if d == 7 {
        '7'
    } else if d == 8 {
        '8'
    } else {
        '9'
    }
}

/// The decimal spelling of a number, most significant digit first.
pub open spec fn dec_of(n: nat) -> Seq<char>
    decreases n,
{
    if n < 10 {
        seq![digit_char(n)]
    } else {
        dec_of(n / 10) + seq![digit_char(n % 10)]
    }
}

fn digit_str(d: usize) -> (r: &'static str)
    requires
        d < 10,
    ensures
        r@ == seq![digit_char(d as nat)],
{
    proof {
        reveal_strlit("0");
        reveal_strlit("1");
        reveal_strlit("2");
        reveal_strlit("3");
        reveal_strlit("4");
        reveal_strlit("5");
        reveal_strlit("6");
        reveal_strlit("7");
        reveal_strlit("8");
        reveal_strlit("9");
        assert("0"@ =~= seq!['0']);
        assert("1"@ =~= seq!['1']);
        assert("2"@ =~= seq!['2']);
        assert("3"@ =~= seq!['3']);
        assert("4"@ =~= seq!['4']);
        assert("5"@ =~= seq!['5']);
        assert("6"@ =~= seq!['6']);
        assert("7"@ =~= seq!['7']);
        assert("8"@ =~= seq!['8']);
        assert("9"@ =~= seq!['9']);
    }
    if d == 0 {
        "0"
    } else if d == 1 {
        "1"
    } else if d == 2 {
        "2"
    } else if d == 3 {
        "3"
    } else if d == 4 {
        "4"
    } else if d == 5 {
        "5"
    } else if d == 6 {
        "6"
    } else if d == 7 {
        "7"
    } else if d == 8 {
        "8"
    } else {
        "9"
    }
}

/// The decimal spelling of a number.
pub fn usize_dec(n: usize) -> (r: String)
    ensures
        r@ == dec_of(n as nat),
    decreases n,
{
    if n < 10 {
        digit_str(n).to_owned()
    } else {
        let mut s = usize_dec(n / 10);
        s.append(digit_str(n % 10));
        s
    }
}

/// One line of the configuration document: `key = "value"`.
pub open spec fn cfg_line(key: Seq<char>, value: Seq<char>) -> Seq<char> {
    key + " = \""@ + value + "\"\n"@
}

/// The canonical configuration document: one line per field, stable
/// key names, the staging selector as a bare number, the install path
/// only when one is chosen.
pub open spec fn fmt_config(c: ConfigurationV) -> Seq<char> {
    cfg_line("release_type"@, vt_str(c.release_type)) + cfg_line("loader"@, loader_str(c.loader))
        + cfg_line("download_path"@, c.download_path) + cfg_line("pack_path"@, c.pack_path)
        + cfg_line("mc_ver"@, c.mc_ver) + "staging = "@ + dec_of(c.staging as nat) + "\n"@ + (
    match c.install_path {
        Some(p) => cfg_line("install_path"@, p),
        None => Seq::<char>::empty(),
    })
}

fn append_cfg_line(out: &mut String, key: &str, value: &str)
    ensures
        final(out)@ == old(out)@ + cfg_line(key@, value@),
{
    out.append(key);
    out.append(" = \"");
    out.append(value);
    out.append("\"\n");
}

/// Write the canonical document for a configuration.
pub fn format_config(c: &Configuration) -> (r: String)
    ensures
        r@ == fmt_config(c@),
{
    let mut out = String::new();
    let vt = c.release_type.to_string();
    append_cfg_line(&mut out, "release_type", vt.as_str());
    let ld = c.loader.to_string();
    append_cfg_line(&mut out, "loader", ld.as_str());
    append_cfg_line(&mut out, "download_path", c.download_path.as_str());
    append_cfg_line(&mut out, "pack_path", c.pack_path.as_str());
    append_cfg_line(&mut out, "mc_ver", c.mc_ver.as_str());
    out.append("staging = ");
    let num = usize_dec(c.staging);
    out.append(num.as_str());
    out.append("\n");
    proof {
        reveal_strlit("\n");
        assert("\n"@ =~= seq!['\n']);
    }
    match &c.install_path {
        Some(p) => {
            append_cfg_line(&mut out, "install_path", p.as_str());
        },
        None => {
        },
    }
    proof {
        assert(out@ =~= fmt_config(c@));
    }
    out
}

} // verus!
