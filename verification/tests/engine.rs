use modrinth_apitool::config::{
    default_config, format_config, merge_config, parse_config, usize_dec, CfgEntry, CfgValue,
    ConfigError,
};
use modrinth_apitool::defines::{ApiFile, Dependency, ParseError, Version, LOADER, VT};
use modrinth_apitool::download::{fetch_verified_decision, to_hex, verify_download, FetchDecision};
use modrinth_apitool::pack::{tmp_name, MVDescriptor, Pack, PackMod};
use modrinth_apitool::resolver::{expand, matches_descriptor, pin_of, resolve, resolve_slug, Listing};
use modrinth_apitool::store::{format_pack, is_wf_pack, parse_pack, LoadError};
use modrinth_apitool::workflow::{
    apply_version_edit, create_pack, parse_loader_choice, parse_modify_choice, parse_mods_choice,
    parse_version_info_choice, parse_vt_list, update_mods, EditOutcome, ModifyChoice, ModsChoice,
    VersionInfoChoice,
};

fn file(url: &str, filename: &str, size: u64, sha512: &str) -> ApiFile {
    ApiFile {
        url: url.to_string(),
        filename: filename.to_string(),
        size,
        sha512: sha512.to_string(),
    }
}

fn version(
    game_versions: &[&str],
    loaders: &[LOADER],
    name: &str,
    number: &str,
    vt: VT,
    files: Vec<ApiFile>,
    deps: Vec<Dependency>,
) -> Version {
    Version {
        game_versions: game_versions.iter().map(|s| s.to_string()).collect(),
        loaders: loaders.to_vec(),
        name: name.to_string(),
        version_number: number.to_string(),
        downloads: 1000,
        version_type: vt,
        files,
        dependencies: deps,
    }
}

fn desc(mc: &str, vts: &[VT], loader: LOADER) -> MVDescriptor {
    MVDescriptor {
        mc_ver: mc.to_string(),
        version_types: vts.to_vec(),
        loader,
    }
}

fn sodium_catalog() -> Vec<Listing> {
    // Versions most recent first: one for 1.21 but Quilt-only, then two
    // Fabric/Release candidates for 1.20.1.
    vec![Listing {
        project_id: "sodium".to_string(),
        versions: vec![
            version(
                &["1.21"],
                &[LOADER::QUILT],
                "Sodium",
                "0.6.0",
                VT::RELEASE,
                vec![file("https://cdn.example/s060.jar", "s060.jar", 10, "aaa")],
                vec![],
            ),
            version(
                &["1.20.1"],
                &[LOADER::FABRIC],
                "Sodium",
                "0.5.2",
                VT::RELEASE,
                vec![file("https://cdn.example/s052.jar", "s052.jar", 11, "bbb")],
                vec![],
            ),
            version(
                &["1.20.1"],
                &[LOADER::FABRIC],
                "Sodium",
                "0.5.1",
                VT::RELEASE,
                vec![file("https://cdn.example/s051.jar", "s051.jar", 12, "ccc")],
                vec![],
            ),
        ],
    }]
}

#[test]
fn vt_round_trip_all_channels() {
    for vt in [VT::RELEASE, VT::BETA, VT::ALPHA] {
        let s = vt.to_string();
        assert_eq!(VT::from_str(&s), Ok(vt));
    }
    assert_eq!(VT::from_str("RELEASE"), Ok(VT::RELEASE));
    assert_eq!(VT::from_str("snapshot"), Err(ParseError::UnknownVersionType));
}

#[test]
fn loader_round_trip_and_forge_rejection() {
    for l in [LOADER::FABRIC, LOADER::QUILT, LOADER::NEOFORGE] {
        let s = l.to_string();
        assert_eq!(LOADER::from_str(&s), Ok(l));
    }
    assert_eq!(LOADER::from_str("forge"), Err(ParseError::UnsupportedForge));
    assert_eq!(LOADER::from_str("FORGE"), Err(ParseError::UnsupportedForge));
    assert_eq!(LOADER::from_str("rift"), Err(ParseError::UnknownLoader));
}

#[test]
fn resolve_picks_first_surviving_candidate() {
    let catalog = sodium_catalog();
    let d = desc("1.20.1", &[VT::RELEASE], LOADER::FABRIC);
    // The 1.21/Quilt version is filtered out; of the two surviving
    // candidates the earlier (more recent) one wins.
    let idx = resolve(&catalog[0].versions, &d);
    assert_eq!(idx, Some(1));
    let pin = resolve_slug(&catalog, "sodium", &d).expect("resolves");
    assert_eq!(pin.version_number, "0.5.2");
    assert_eq!(pin.filename, "s052.jar");
    assert_eq!(pin.sha512, "bbb");
}

#[test]
fn resolve_never_violates_the_descriptor() {
    let catalog = sodium_catalog();
    let d = desc("1.21", &[VT::RELEASE], LOADER::FABRIC);
    // The only 1.21 version is Quilt-only: no candidate survives.
    assert_eq!(resolve(&catalog[0].versions, &d), None);
    assert!(resolve_slug(&catalog, "sodium", &d).is_none());
    // And an unlisted project never resolves.
    assert!(resolve_slug(&catalog, "lithium", &d).is_none());
}

#[test]
fn resolve_rejects_versions_without_files() {
    let vs = vec![version(
        &["1.20.1"],
        &[LOADER::FABRIC],
        "Empty",
        "1.0",
        VT::RELEASE,
        vec![],
        vec![],
    )];
    let d = desc("1.20.1", &[VT::RELEASE], LOADER::FABRIC);
    assert!(!matches_descriptor(&vs[0], &d));
    assert_eq!(resolve(&vs, &d), None);
}

#[test]
fn resolve_respects_channel_filter() {
    let vs = vec![version(
        &["1.20.1"],
        &[LOADER::FABRIC],
        "Beta only",
        "2.0-beta",
        VT::BETA,
        vec![file("u", "f.jar", 1, "h")],
        vec![],
    )];
    let strict = desc("1.20.1", &[VT::RELEASE], LOADER::FABRIC);
    let lenient = desc("1.20.1", &[VT::RELEASE, VT::BETA], LOADER::FABRIC);
    assert_eq!(resolve(&vs, &strict), None);
    assert_eq!(resolve(&vs, &lenient), Some(0));
}

#[test]
fn expand_resolves_only_required_dependencies() {
    let mut catalog = sodium_catalog();
    catalog.push(Listing {
        project_id: "libext".to_string(),
        versions: vec![version(
            &["1.20.1"],
            &[LOADER::FABRIC],
            "LibExt",
            "3.1",
            VT::RELEASE,
            vec![file("https://cdn.example/lib.jar", "lib.jar", 5, "ddd")],
            vec![],
        )],
    });
    let parent = version(
        &["1.20.1"],
        &[LOADER::FABRIC],
        "Parent",
        "1.0",
        VT::RELEASE,
        vec![file("u", "p.jar", 2, "eee")],
        vec![
            Dependency {
                project_id: "libext".to_string(),
                dependency_type: "required".to_string(),
            },
            Dependency {
                project_id: "sodium".to_string(),
                dependency_type: "optional".to_string(),
            },
            Dependency {
                project_id: "missing".to_string(),
                dependency_type: "required".to_string(),
            },
        ],
    );
    let d = desc("1.20.1", &[VT::RELEASE], LOADER::FABRIC);
    let out = expand(&parent, &d, &catalog);
    assert_eq!(out.len(), 2);
    assert_eq!(out[0].project_id, "libext");
    assert_eq!(out[0].pin.as_ref().expect("resolved").version_number, "3.1");
    assert_eq!(out[1].project_id, "missing");
    assert!(out[1].pin.is_none());
}

fn sample_pack() -> Pack {
    Pack {
        name: "P".to_string(),
        version_info: desc("1.20.1", &[VT::RELEASE], LOADER::FABRIC),
        mods: vec![PackMod {
            slug: "sodium".to_string(),
            version_number: "0.5.2".to_string(),
            filename: "s052.jar".to_string(),
            url: "https://cdn.example/s052.jar".to_string(),
            sha512: "bbb".to_string(),
        }],
    }
}

#[test]
fn pack_document_round_trips() {
    let mut pack = sample_pack();
    pack.version_info.version_types = vec![VT::RELEASE, VT::BETA];
    pack.mods.push(PackMod {
        slug: "lithium".to_string(),
        version_number: "0.12.1".to_string(),
        filename: "lithium.jar".to_string(),
        url: "https://cdn.example/lithium.jar?rev=1".to_string(),
        sha512: "ff00".to_string(),
    });
    let doc = format_pack(&pack);
    let loaded = parse_pack(&doc).expect("canonical document loads");
    assert_eq!(loaded, pack);
    // Saving what was loaded writes the identical document.
    assert_eq!(format_pack(&loaded), doc);
}

#[test]
fn pack_document_exact_form() {
    let pack = sample_pack();
    let doc = format_pack(&pack);
    assert_eq!(
        doc,
        "name=P\nmc_ver=1.20.1\nloader=fabric\nversion_types=release\n\
         mod=sodium\t0.5.2\ts052.jar\thttps://cdn.example/s052.jar\tbbb\n"
    );
}

#[test]
fn empty_channel_list_round_trips() {
    let mut pack = sample_pack();
    pack.version_info.version_types = vec![];
    pack.mods = vec![];
    let doc = format_pack(&pack);
    let loaded = parse_pack(&doc).expect("loads");
    assert_eq!(loaded, pack);
}

#[test]
fn corrupt_documents_are_rejected() {
    assert_eq!(parse_pack(""), Err(LoadError::CorruptState));
    assert_eq!(parse_pack("name=P\n"), Err(LoadError::CorruptState));
    // Wrong key order.
    assert_eq!(
        parse_pack("mc_ver=1.20.1\nname=P\nloader=fabric\nversion_types=release\n"),
        Err(LoadError::CorruptState)
    );
    // Unsupported loader in the document.
    assert_eq!(
        parse_pack("name=P\nmc_ver=1.20.1\nloader=forge\nversion_types=release\n"),
        Err(LoadError::CorruptState)
    );
    // A pin line with too few fields.
    assert_eq!(
        parse_pack(
            "name=P\nmc_ver=1.20.1\nloader=fabric\nversion_types=release\nmod=sodium\t0.5.2\n"
        ),
        Err(LoadError::CorruptState)
    );
    // Truncated file: no final newline leaves a non-empty last chunk.
    assert_eq!(
        parse_pack("name=P\nmc_ver=1.20.1\nloader=fabric\nversion_types=release"),
        Err(LoadError::CorruptState)
    );
}

#[test]
fn update_keeps_failing_pins_and_reports_them() {
    // Pack "P" pinned to 1.20.1/Fabric/{Release} with sodium; under
    // target 1.21 sodium has no Fabric/Release version.
    let mut pack = sample_pack();
    pack.version_info.mc_ver = "1.21".to_string();
    let catalog = sodium_catalog();
    let (updated, failures) = update_mods(&pack, &catalog);
    assert_eq!(failures, vec!["sodium".to_string()]);
    // The pin is never dropped and never silently changed.
    assert_eq!(updated.mods, pack.mods);
}

#[test]
fn update_replaces_pins_that_re_resolve() {
    let mut pack = sample_pack();
    pack.mods[0].version_number = "0.5.1".to_string();
    pack.mods[0].filename = "s051.jar".to_string();
    pack.mods[0].url = "https://cdn.example/s051.jar".to_string();
    pack.mods[0].sha512 = "ccc".to_string();
    let catalog = sodium_catalog();
    let (updated, failures) = update_mods(&pack, &catalog);
    assert!(failures.is_empty());
    assert_eq!(updated.mods.len(), 1);
    // Re-resolution under the same descriptor moves the pin to the
    // most recent surviving candidate.
    assert_eq!(updated.mods[0].version_number, "0.5.2");
    assert_eq!(updated.name, "P");
}

#[test]
fn version_edit_rolls_back_when_a_pin_fails() {
    let pack = sample_pack();
    let pre_edit_doc = format_pack(&pack);
    let catalog = sodium_catalog();
    let new_desc = desc("1.21", &[VT::RELEASE], LOADER::FABRIC);
    match apply_version_edit(&pack, new_desc, &catalog) {
        EditOutcome::RolledBack(kept, failures) => {
            assert_eq!(failures, vec!["sodium".to_string()]);
            // The surviving pack is the untouched original: its stored
            // document is byte-identical to the pre-edit one.
            assert_eq!(kept, pack);
            assert_eq!(format_pack(&kept), pre_edit_doc);
        },
        EditOutcome::Committed(_) => panic!("edit must not commit when a pin fails"),
    }
}

#[test]
fn version_edit_commits_when_every_pin_re_resolves() {
    let pack = sample_pack();
    let catalog = sodium_catalog();
    // Quilt for 1.21 matches sodium 0.6.0.
    let new_desc = desc("1.21", &[VT::RELEASE], LOADER::QUILT);
    match apply_version_edit(&pack, new_desc, &catalog) {
        EditOutcome::Committed(p2) => {
            assert_eq!(p2.name, "P");
            assert_eq!(p2.version_info.mc_ver, "1.21");
            assert_eq!(p2.version_info.loader, LOADER::QUILT);
            assert_eq!(p2.mods.len(), 1);
            assert_eq!(p2.mods[0].version_number, "0.6.0");
        },
        EditOutcome::RolledBack(_, failures) => {
            panic!("unexpected rollback: {failures:?}");
        },
    }
}

#[test]
fn create_pack_collects_per_item_failures() {
    let catalog = sodium_catalog();
    let d = desc("1.20.1", &[VT::RELEASE], LOADER::FABRIC);
    let requested = vec!["sodium".to_string(), "missing".to_string()];
    let (pack, failures) = create_pack("Fresh".to_string(), d, &requested, &catalog);
    assert_eq!(pack.name, "Fresh");
    assert_eq!(pack.mods.len(), 1);
    assert_eq!(pack.mods[0].slug, "sodium");
    assert_eq!(failures, vec!["missing".to_string()]);
}

#[test]
fn adding_an_already_pinned_slug_replaces_the_pin() {
    let catalog = sodium_catalog();
    let d = desc("1.20.1", &[VT::RELEASE], LOADER::FABRIC);
    let requested = vec!["sodium".to_string(), "sodium".to_string()];
    let (pack, failures) = create_pack("Twice".to_string(), d, &requested, &catalog);
    assert_eq!(pack.mods.len(), 1);
    assert!(failures.is_empty());
}

#[test]
fn add_and_remove_mod() {
    let catalog = sodium_catalog();
    let mut pack = Pack {
        name: "Q".to_string(),
        version_info: desc("1.20.1", &[VT::RELEASE], LOADER::FABRIC),
        mods: vec![],
    };
    assert!(pack.add_mod("sodium", &catalog));
    assert_eq!(pack.mods.len(), 1);
    assert!(!pack.add_mod("missing", &catalog));
    assert_eq!(pack.mods.len(), 1);
    assert!(pack.remove_mod("sodium"));
    assert!(pack.mods.is_empty());
    assert!(!pack.remove_mod("sodium"));
}

#[test]
fn tmp_name_appends_suffix() {
    assert_eq!(tmp_name("P"), "P_tmp");
}

#[test]
fn install_plan_lists_every_pin_in_order() {
    let mut pack = sample_pack();
    pack.mods.push(PackMod {
        slug: "lithium".to_string(),
        version_number: "0.12.1".to_string(),
        filename: "lithium.jar".to_string(),
        url: "https://cdn.example/lithium.jar".to_string(),
        sha512: "ff00".to_string(),
    });
    let plan = pack.install_plan();
    assert_eq!(plan.len(), 2);
    assert_eq!(plan[0].slug, "sodium");
    assert_eq!(plan[1].slug, "lithium");
}

#[test]
fn fetch_verification_is_exact_and_repeatable() {
    // Identical bytes, identical verdict — on every call.
    assert_eq!(verify_download("abc123", "abc123"), FetchDecision::Keep);
    assert_eq!(verify_download("abc123", "abc123"), FetchDecision::Keep);
    // A corrupted write never survives.
    assert_eq!(verify_download("abc123", "abc124"), FetchDecision::Discard);
    assert_eq!(verify_download("abc123", ""), FetchDecision::Discard);
}

#[test]
fn stale_local_file_fails_verification_against_new_server_hash() {
    // The server's hash for the pin changed; the digest of the stale
    // local copy no longer matches, so installation must re-fetch
    // rather than keep the old artifact.
    let pack = sample_pack();
    let expected = &pack.mods[0].sha512;
    let stale_digest = "bbb-old";
    assert_eq!(verify_download(expected, stale_digest), FetchDecision::Discard);
}

#[test]
fn pin_of_takes_the_primary_file() {
    let v = version(
        &["1.20.1"],
        &[LOADER::FABRIC],
        "Two files",
        "7.0",
        VT::RELEASE,
        vec![
            file("https://cdn.example/a.jar", "a.jar", 1, "h1"),
            file("https://cdn.example/b.jar", "b.jar", 2, "h2"),
        ],
        vec![],
    );
    let pin = pin_of("twofiles", &v);
    assert_eq!(pin.filename, "a.jar");
    assert_eq!(pin.sha512, "h1");
}

#[test]
fn default_config_values() {
    let c = default_config("/home/u");
    assert_eq!(c.release_type, VT::RELEASE);
    assert_eq!(c.loader, LOADER::FABRIC);
    assert_eq!(c.download_path, "/home/u/Downloads");
    assert_eq!(c.pack_path, "/home/u/.config/modrinth-apitool/packs");
    assert_eq!(c.staging, 0);
    assert_eq!(c.install_path, None);
}

#[test]
fn merge_config_applies_known_keys_in_order() {
    let base = default_config("/home/u");
    let entries = vec![
        CfgEntry {
            key: "loader".to_string(),
            value: CfgValue::Text("quilt".to_string()),
        },
        CfgEntry {
            key: "staging".to_string(),
            value: CfgValue::Num(1),
        },
        CfgEntry {
            key: "mystery".to_string(),
            value: CfgValue::Text("ignored".to_string()),
        },
    ];
    let merged = merge_config(&base, &entries).expect("merges");
    assert_eq!(merged.loader, LOADER::QUILT);
    assert_eq!(merged.staging, 1);
    assert_eq!(merged.download_path, base.download_path);
}

#[test]
fn merge_config_refuses_bad_values() {
    let base = default_config("/home/u");
    let entries = vec![CfgEntry {
        key: "loader".to_string(),
        value: CfgValue::Num(3),
    }];
    assert_eq!(merge_config(&base, &entries), Err(ConfigError::BadValue));
    let entries = vec![CfgEntry {
        key: "release_type".to_string(),
        value: CfgValue::Text("nightly".to_string()),
    }];
    assert_eq!(merge_config(&base, &entries), Err(ConfigError::BadValue));
}

#[test]
fn parse_config_reads_a_real_document() {
    let base = default_config("/home/u");
    let body = "loader = \"quilt\"\nrelease_type = \"beta\"\nstaging = 1\nmc_ver = \"1.20.1\"\n";
    let c = parse_config(body, &base).expect("parses");
    assert_eq!(c.loader, LOADER::QUILT);
    assert_eq!(c.release_type, VT::BETA);
    assert_eq!(c.staging, 1);
    assert_eq!(c.mc_ver, "1.20.1");
    // An unreadable document is refused with the parser's message.
    assert!(matches!(
        parse_config("loader = [1,", &base),
        Err(ConfigError::Unreadable(_))
    ));
    // A readable document with a badly-typed known key is refused.
    assert_eq!(parse_config("loader = 7\n", &base), Err(ConfigError::BadValue));
}

#[test]
fn config_document_exact_form() {
    let c = default_config("/home/u");
    assert_eq!(
        format_config(&c),
        "release_type = \"release\"\nloader = \"fabric\"\n\
         download_path = \"/home/u/Downloads\"\n\
         pack_path = \"/home/u/.config/modrinth-apitool/packs\"\n\
         mc_ver = \"\"\nstaging = 0\n"
    );
}

#[test]
fn config_document_round_trips_through_toml() {
    let mut c = default_config("/home/u");
    c.release_type = VT::BETA;
    c.loader = LOADER::QUILT;
    c.mc_ver = "1.20.1".to_string();
    c.staging = 1;
    c.install_path = Some("/srv/mods".to_string());
    let doc = format_config(&c);
    let base = default_config("/home/u");
    let reread = parse_config(&doc, &base).expect("document parses");
    assert_eq!(reread, c);
}

#[test]
fn decimal_spelling_is_exact() {
    assert_eq!(usize_dec(0), "0");
    assert_eq!(usize_dec(7), "7");
    assert_eq!(usize_dec(90210), "90210");
}

#[test]
fn ill_formed_packs_are_detected_before_saving() {
    let good = sample_pack();
    assert!(is_wf_pack(&good));
    let mut tabbed = sample_pack();
    tabbed.mods[0].slug = "so\tdium".to_string();
    assert!(!is_wf_pack(&tabbed));
    let mut injected = sample_pack();
    injected.name = "P\nmc_ver=9".to_string();
    assert!(!is_wf_pack(&injected));
}

#[test]
fn vt_list_parsing_accepts_spaced_input() {
    assert_eq!(parse_vt_list("release beta"), Ok(vec![VT::RELEASE, VT::BETA]));
    assert_eq!(parse_vt_list("  release   ALPHA "), Ok(vec![VT::RELEASE, VT::ALPHA]));
    assert_eq!(parse_vt_list(""), Ok(vec![]));
    assert_eq!(parse_vt_list("release nightly"), Err(ParseError::UnknownVersionType));
}

#[test]
fn menu_choices_dispatch() {
    assert_eq!(parse_modify_choice("0"), ModifyChoice::Rename);
    assert_eq!(parse_modify_choice("1"), ModifyChoice::VersionInfo);
    assert_eq!(parse_modify_choice("2"), ModifyChoice::Mods);
    assert_eq!(parse_modify_choice("q"), ModifyChoice::Quit);
    assert_eq!(parse_modify_choice("7"), ModifyChoice::Unknown);
    assert_eq!(parse_version_info_choice("0"), VersionInfoChoice::McVer);
    assert_eq!(parse_version_info_choice("q"), VersionInfoChoice::Quit);
    assert_eq!(parse_mods_choice("1"), ModsChoice::Remove);
    assert_eq!(parse_loader_choice("0"), Ok(LOADER::FABRIC));
    assert_eq!(parse_loader_choice("[2]"), Ok(LOADER::NEOFORGE));
    assert_eq!(parse_loader_choice("3"), Err(ParseError::UnsupportedForge));
    assert_eq!(parse_loader_choice("x"), Err(ParseError::UnknownLoader));
}

#[test]
fn digest_decision_computes_a_real_sha512() {
    let empty: Vec<u8> = vec![];
    let empty_sha512 = "cf83e1357eefb8bdf1542850d66d8007d620e4050b5715dc83f4a921d36ce9ce\
                        47d0d13c5d85f2b0ff8318d2877eec2f63b931bd47417a81a538327af927da3e";
    assert_eq!(fetch_verified_decision(empty_sha512, &empty), FetchDecision::Keep);
    assert_eq!(fetch_verified_decision("deadbeef", &empty), FetchDecision::Discard);
    let abc: Vec<u8> = b"abc".to_vec();
    let abc_sha512 = "ddaf35a193617abacc417349ae20413112e6fa4e89a97ea20a9eeee64b55d39a\
                      2192992a274fc1a836ba3c23a3feebbd454d4423643ce80e2a9ac94fa54ca49f";
    assert_eq!(fetch_verified_decision(abc_sha512, &abc), FetchDecision::Keep);
}

#[test]
fn hex_spelling_is_exact() {
    assert_eq!(to_hex(&vec![]), "");
    assert_eq!(to_hex(&vec![0x00u8, 0x0f, 0xa5, 0xff]), "000fa5ff");
}
