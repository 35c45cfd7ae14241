use cybird::loader::{
    check_symbols, decode_metadata, interpret_status, library_candidates, plugin_info,
    status_of, symbol_name, SYMBOL_COUNT,
};
use cybird::{
    DirEntryInfo, DirectoryProbe, EntryKind, LoadError, Plugin, PluginContext, Upgrade, Upgrade3,
};
use cybird::{Effect, EffectTrigger, EffectType, EffectValue, Formula};

fn entry(path: &str, kind: EntryKind) -> DirEntryInfo {
    DirEntryInfo { path: path.to_string(), kind }
}

const DIR: DirectoryProbe = DirectoryProbe { exists: true, is_dir: true };

#[test]
fn missing_directory_is_directory_not_found() {
    let probe = DirectoryProbe { exists: false, is_dir: false };
    let entries = vec![entry("a.so", EntryKind::File)];
    assert_eq!(library_candidates(probe, &entries), Err(LoadError::DirectoryNotFound));
}

#[test]
fn file_path_is_not_a_directory() {
    let probe = DirectoryProbe { exists: true, is_dir: false };
    assert_eq!(library_candidates(probe, &vec![]), Err(LoadError::NotADirectory));
}

#[test]
fn directory_without_libraries_gives_no_plugins() {
    assert_eq!(library_candidates(DIR, &vec![]), Ok(vec![]));
    let entries = vec![entry("sub", EntryKind::Directory), entry("link", EntryKind::Other)];
    assert_eq!(library_candidates(DIR, &entries), Ok(vec![]));
}

#[test]
fn every_regular_file_is_a_candidate_in_listing_order() {
    let entries = vec![
        entry("b.so", EntryKind::File),
        entry("nested", EntryKind::Directory),
        entry("notes.txt", EntryKind::File),
        entry("a.dll", EntryKind::File),
    ];
    assert_eq!(
        library_candidates(DIR, &entries),
        Ok(vec!["b.so".to_string(), "notes.txt".to_string(), "a.dll".to_string()])
    );
}

#[test]
fn symbol_names_in_binding_order() {
    assert_eq!(SYMBOL_COUNT, 4);
    let names: Vec<&str> = (0..SYMBOL_COUNT).map(symbol_name).collect();
    assert_eq!(names, vec!["get_author", "get_id", "load_plugin", "free_string"]);
}

#[test]
fn all_symbols_found_binds() {
    assert_eq!(check_symbols(&vec![true, true, true, true]), Ok(()));
}

#[test]
fn each_missing_symbol_is_named() {
    let expected = ["get_author", "get_id", "load_plugin", "free_string"];
    for k in 0..4 {
        let mut found = vec![true; 4];
        found[k] = false;
        assert_eq!(
            check_symbols(&found),
            Err(LoadError::MissingSymbol(expected[k].to_string()))
        );
    }
}

#[test]
fn first_of_several_missing_symbols_is_named() {
    assert_eq!(
        check_symbols(&vec![true, false, false, true]),
        Err(LoadError::MissingSymbol("get_id".to_string()))
    );
    assert_eq!(
        check_symbols(&vec![false, false, false, false]),
        Err(LoadError::MissingSymbol("get_author".to_string()))
    );
}

#[test]
fn metadata_decodes_utf8() {
    assert_eq!(decode_metadata(&b"jprugel".to_vec()), Ok("jprugel".to_string()));
    assert_eq!(decode_metadata(&"caf\u{e9}".as_bytes().to_vec()), Ok("caf\u{e9}".to_string()));
    assert_eq!(decode_metadata(&vec![]), Ok(String::new()));
}

#[test]
fn metadata_rejects_invalid_utf8() {
    assert_eq!(decode_metadata(&vec![0x66, 0xff, 0x66]), Err(LoadError::MetadataDecodeFailed));
    assert_eq!(decode_metadata(&vec![0xc3]), Err(LoadError::MetadataDecodeFailed));
}

#[test]
fn plugin_info_reads_both_strings() {
    let info = plugin_info(&b"jprugel".to_vec(), &b"upgrade3".to_vec()).unwrap();
    assert_eq!(info.author, "jprugel");
    assert_eq!(info.id, "upgrade3");
    assert!(matches!(
        plugin_info(&b"ok".to_vec(), &vec![0xff]),
        Err(LoadError::MetadataDecodeFailed)
    ));
}

#[test]
fn status_codes() {
    assert_eq!(interpret_status(0), Ok(()));
    assert_eq!(interpret_status(-1), Err(LoadError::PluginLoadFailed(-1)));
    assert_eq!(interpret_status(7), Err(LoadError::PluginLoadFailed(7)));
    assert_eq!(status_of::<String>(&Ok(())), 0);
    assert_eq!(status_of(&Err("bad".to_string())), -1);
}

struct Flaky;

impl Plugin<PluginContext> for Flaky {
    fn author(&self) -> &str {
        "tester"
    }

    fn id(&self) -> &str {
        "flaky"
    }

    fn load(&self, ctx: &mut PluginContext) -> Result<(), String> {
        ctx.register(Upgrade {
            name: "Half Done".to_string(),
            level: 0,
            stage: 1,
            cost: Formula::fixed(1),
            description: String::new(),
            effect_type: EffectType::Additive,
            effects: vec![Effect {
                trigger: EffectTrigger::Click,
                value: EffectValue::Add(Formula::fixed(1)),
            }],
        });
        Err("out of cookies".to_string())
    }
}

#[test]
fn successful_load_populates_registry() {
    let plugin = Upgrade3::default();
    assert_eq!(plugin.author(), "jprugel");
    assert_eq!(plugin.id(), "upgrade3");
    let mut ctx = PluginContext::new();
    let status = status_of(&plugin.load(&mut ctx));
    assert_eq!(status, 0);
    assert_eq!(interpret_status(status), Ok(()));
    let names: Vec<String> =
        ctx.get_registrables::<Upgrade>().iter().map(|u| u.name.clone()).collect();
    assert_eq!(names, vec!["Crumble Decintigrator".to_string(), "Uber Oven".to_string()]);
    let costs: Vec<u32> =
        ctx.get_registrables::<Upgrade>().iter().map(|u| u.cost.eval(3)).collect();
    assert_eq!(costs, vec![301, 9]);
}

#[test]
fn failed_load_reports_code_and_keeps_entries() {
    let mut ctx = PluginContext::new();
    let first = Upgrade3::default();
    assert_eq!(interpret_status(status_of(&first.load(&mut ctx))), Ok(()));
    let status = status_of(&Flaky.load(&mut ctx));
    assert_eq!(interpret_status(status), Err(LoadError::PluginLoadFailed(-1)));
    let names: Vec<String> =
        ctx.get_registrables::<Upgrade>().iter().map(|u| u.name.clone()).collect();
    assert_eq!(
        names,
        vec!["Crumble Decintigrator".to_string(), "Uber Oven".to_string(), "Half Done".to_string()]
    );
}
