use cider::command::{
    add_prefix, bundle_executable, create_prefix, create_prefix_target, default_prefix, install,
    list_prefixes, lookup_prefix, parse_key_value_pair, prefix_config, prefix_report,
    remove_prefix, remove_prefix_target, run, select_prefix, settle_retina_mode, wine_executable,
    CiderError,
};
use cider::settings::{PrefixProperties, Properties};
use cider::translate::{
    join, parse_bool, parse_property_key, render_report, retina_mode_args, to_environment,
    PropertyKey,
};

fn pairs(items: &[(&str, &str)]) -> Vec<(String, String)> {
    items.iter().map(|(k, v)| (k.to_string(), v.to_string())).collect()
}

fn props_of<'a>(r: &'a Properties, name: &str) -> &'a PrefixProperties {
    &r.prefixes.iter().find(|(n, _)| n == name).unwrap().1
}

fn registry_with(names: &[&str]) -> Properties {
    let mut r = Properties::new();
    for n in names {
        add_prefix(&mut r, n.to_string(), format!("/tmp/{n}"), true).unwrap();
    }
    r
}

#[test]
fn explicit_name_is_returned_unchanged() {
    let mut r = registry_with(&["a"]);
    r.default_prefix = Some("a".to_string());
    assert_eq!(select_prefix(Some("other".to_string()), &r), Ok("other".to_string()));
    assert_eq!(select_prefix(None, &r), Ok("a".to_string()));
}

#[test]
fn no_name_and_no_default_fails() {
    let r = registry_with(&["a"]);
    assert_eq!(select_prefix(None, &r), Err(CiderError::NoPrefixSpecified));
    assert_eq!(lookup_prefix(None, &r), Err(CiderError::NoPrefixSpecified));
}

#[test]
fn lookup_of_unknown_name_is_not_found() {
    let r = registry_with(&["a"]);
    assert_eq!(lookup_prefix(Some("b".to_string()), &r), Err(CiderError::NotFound("b".to_string())));
    assert_eq!(lookup_prefix(Some("a".to_string()), &r), Ok(("a".to_string(), 0)));
}

#[test]
fn parse_bool_truthy_set() {
    assert!(parse_bool("YES"));
    assert!(parse_bool("yes"));
    assert!(parse_bool("Y"));
    assert!(parse_bool("y"));
    assert!(parse_bool("True"));
    assert!(parse_bool("1"));
    assert!(!parse_bool(""));
    assert!(!parse_bool("maybe"));
    assert!(!parse_bool("0"));
    assert!(!parse_bool("yess"));
    assert!(!parse_bool("on"));
}

#[test]
fn property_keys_are_exact() {
    assert_eq!(parse_property_key("retina_mode"), Some(PropertyKey::RetinaMode));
    assert_eq!(parse_property_key("dir"), Some(PropertyKey::Dir));
    assert_eq!(parse_property_key("metalfx"), Some(PropertyKey::Metalfx));
    assert_eq!(parse_property_key("HUD"), None);
    assert_eq!(parse_property_key("bogus_key"), None);
}

#[test]
fn add_then_list_and_add_again_fails() {
    let mut r = Properties::new();
    assert_eq!(add_prefix(&mut r, "p1".to_string(), "/existing/dir".to_string(), true), Ok(()));
    assert!(list_prefixes(&r).contains(&"p1".to_string()));
    assert_eq!(
        add_prefix(&mut r, "p1".to_string(), "/other".to_string(), true),
        Err(CiderError::AlreadyExists("p1".to_string()))
    );
    assert_eq!(r.prefixes.len(), 1);
    assert_eq!(props_of(&r, "p1").custom_dir.as_deref(), Some("/existing/dir"));
}

#[test]
fn add_of_missing_directory_fails() {
    let mut r = Properties::new();
    assert_eq!(
        add_prefix(&mut r, "p1".to_string(), "/nope".to_string(), false),
        Err(CiderError::PathNotFound("/nope".to_string()))
    );
    assert!(r.prefixes.is_empty());
}

#[test]
fn list_marks_the_default() {
    let mut r = registry_with(&["a", "b"]);
    default_prefix(&mut r, Some("b".to_string())).unwrap();
    assert_eq!(list_prefixes(&r), vec!["a".to_string(), "b (default)".to_string()]);
}

#[test]
fn remove_of_default_clears_it() {
    let mut r = registry_with(&["a", "b"]);
    default_prefix(&mut r, Some("a".to_string())).unwrap();
    let (name, path) = remove_prefix_target(&r, None, "/app").unwrap();
    assert_eq!(name, "a");
    assert_eq!(path, "/tmp/a");
    assert_eq!(remove_prefix(&mut r, &name), Ok(()));
    assert_eq!(r.default_prefix, None);
    assert_eq!(list_prefixes(&r), vec!["b".to_string()]);
}

#[test]
fn remove_of_other_keeps_default() {
    let mut r = registry_with(&["a", "b"]);
    default_prefix(&mut r, Some("a".to_string())).unwrap();
    assert_eq!(remove_prefix(&mut r, &"b".to_string()), Ok(()));
    assert_eq!(r.default_prefix, Some("a".to_string()));
    assert_eq!(remove_prefix(&mut r, &"b".to_string()), Err(CiderError::NotFound("b".to_string())));
}

#[test]
fn remove_target_uses_derived_path() {
    let mut r = Properties::new();
    create_prefix(&mut r, "game".to_string(), None, true).unwrap();
    let (_, path) = remove_prefix_target(&r, Some("game".to_string()), "/app").unwrap();
    assert_eq!(path, "/app/Prefixes/game");
}

#[test]
fn failed_retina_edit_is_rolled_back() {
    let mut r = registry_with(&["a"]);
    let change = prefix_config(&mut r, Some("a".to_string()), &pairs(&[("retina_mode", "true")]), "/app").unwrap();
    let cmd = change.retina.unwrap();
    assert_eq!(cmd.prefix_path, "/tmp/a");
    assert_eq!(cmd.args[8], "Y");
    assert!(props_of(&r, "a").retina_mode);
    assert!(!change.previous_retina_mode);
    let line = settle_retina_mode(&mut r, &change.name, change.previous_retina_mode, false).unwrap();
    assert_eq!(line, "retina_mode=false");
    assert!(!props_of(&r, "a").retina_mode);
}

#[test]
fn successful_retina_edit_is_kept() {
    let mut r = registry_with(&["a"]);
    let change = prefix_config(&mut r, Some("a".to_string()), &pairs(&[("retina_mode", "yes")]), "/app").unwrap();
    assert!(change.retina.is_some());
    assert_eq!(
        settle_retina_mode(&mut r, &change.name, change.previous_retina_mode, true),
        Ok("retina_mode=true".to_string())
    );
    assert!(props_of(&r, "a").retina_mode);
}

#[test]
fn unchanged_retina_edit_runs_nothing() {
    let mut r = registry_with(&["a"]);
    let change = prefix_config(&mut r, Some("a".to_string()), &pairs(&[("retina_mode", "no")]), "/app").unwrap();
    assert!(change.retina.is_none());
    assert_eq!(change.lines, vec!["retina_mode=false".to_string()]);
}

#[test]
fn retina_toggled_back_runs_nothing() {
    let mut r = registry_with(&["a"]);
    let change = prefix_config(
        &mut r,
        Some("a".to_string()),
        &pairs(&[("retina_mode", "true"), ("retina_mode", "false")]),
        "/app",
    )
    .unwrap();
    assert!(change.retina.is_none());
    assert_eq!(change.lines, vec!["retina_mode=true", "retina_mode=false"]);
    assert!(!props_of(&r, "a").retina_mode);
}

#[test]
fn failed_retina_edit_restores_stored_value_and_keeps_others() {
    let mut r = registry_with(&["a"]);
    let change = prefix_config(
        &mut r,
        Some("a".to_string()),
        &pairs(&[("retina_mode", "false"), ("hud", "1"), ("retina_mode", "yes")]),
        "/app",
    )
    .unwrap();
    assert!(change.retina.is_some());
    settle_retina_mode(&mut r, &change.name, change.previous_retina_mode, false).unwrap();
    let p = props_of(&r, "a");
    assert!(!p.retina_mode);
    assert!(p.hud);
}

#[test]
fn unknown_key_fails_and_changes_nothing() {
    let mut r = registry_with(&["a"]);
    let res = prefix_config(
        &mut r,
        Some("a".to_string()),
        &pairs(&[("hud", "1"), ("bogus_key", "1"), ("other", "1")]),
        "/app",
    );
    assert!(matches!(res, Err(CiderError::UnsupportedProperty(k)) if k == "bogus_key"));
    assert!(!props_of(&r, "a").hud);
}

#[test]
fn edits_apply_in_order_with_lines() {
    let mut r = registry_with(&["a"]);
    let change = prefix_config(
        &mut r,
        Some("a".to_string()),
        &pairs(&[("hud", "TRUE"), ("esync", "y"), ("dir", ""), ("avx", "1"), ("dxr", "x"), ("metalfx", "Yes")]),
        "/app",
    )
    .unwrap();
    assert_eq!(
        change.lines,
        vec!["hud=true", "esync=true", "dir=", "avx=true", "dxr=false", "metalfx=true"]
    );
    let p = props_of(&r, "a");
    assert!(p.hud && p.esync && p.avx && !p.dxr && p.metalfx);
    assert_eq!(p.custom_dir, None);
}

#[test]
fn configure_needs_a_registered_prefix() {
    let mut r = registry_with(&["a"]);
    assert_eq!(
        prefix_config(&mut r, None, &pairs(&[("hud", "1")]), "/app").err(),
        Some(CiderError::NoPrefixSpecified)
    );
    assert_eq!(
        prefix_config(&mut r, Some("zz".to_string()), &pairs(&[("hud", "1")]), "/app").err(),
        Some(CiderError::NotFound("zz".to_string()))
    );
}

#[test]
fn end_to_end_add_default_report() {
    let mut r = Properties::new();
    add_prefix(&mut r, "work".to_string(), "/tmp/w".to_string(), true).unwrap();
    assert_eq!(
        default_prefix(&mut r, Some("work".to_string())),
        Ok("Prefix `work` set as default".to_string())
    );
    assert_eq!(default_prefix(&mut r, None), Ok("Default prefix: `work`".to_string()));
    let (name, lines) = prefix_report(&r, None, "/app").unwrap();
    assert_eq!(name, "work");
    assert_eq!(
        lines,
        vec![
            "dir=/tmp/w",
            "hud=false",
            "esync=false",
            "retina_mode=false",
            "avx=false",
            "dxr=false",
            "metalfx=false"
        ]
    );
}

#[test]
fn default_without_one_set() {
    let mut r = registry_with(&["a"]);
    assert_eq!(default_prefix(&mut r, None), Ok("No default prefix set".to_string()));
    assert_eq!(
        default_prefix(&mut r, Some("b".to_string())),
        Err(CiderError::NotFound("b".to_string()))
    );
    assert_eq!(r.default_prefix, None);
}

#[test]
fn report_of_derived_directory() {
    let p = PrefixProperties::new();
    let lines = render_report(&p, "game", "/app/");
    assert_eq!(lines[0], "dir= # /app/Prefixes/game (default)");
    assert_eq!(lines.len(), 7);
}

#[test]
fn environment_excludes_retina_mode() {
    let mut p = PrefixProperties::new();
    p.hud = true;
    p.retina_mode = true;
    p.metalfx = true;
    let env = to_environment(&p);
    let expected = pairs(&[
        ("MTL_HUD_ENABLED", "1"),
        ("WINEESYNC", "0"),
        ("ROSETTA_ADVERTISE_AVX", "0"),
        ("D3DM_SUPPORT_DXR", "0"),
        ("D3DM_ENABLE_METALFX", "1"),
    ]);
    assert_eq!(env, expected);
}

#[test]
fn retina_args_end_with_value_token() {
    let on = retina_mode_args(true);
    let off = retina_mode_args(false);
    assert_eq!(on.len(), 10);
    assert_eq!(on[2], "HKCU\\Software\\Wine\\Mac Driver");
    assert_eq!(on[8], "Y");
    assert_eq!(off[8], "N");
    assert_eq!(off[9], "/f");
}

#[test]
fn run_builds_invocation() {
    let mut r = registry_with(&["a"]);
    r.default_prefix = Some("a".to_string());
    let inv = run(&r, "game.exe".to_string(), None, vec!["-x".to_string(), "y".to_string()], "/app").unwrap();
    assert_eq!(inv.prefix_path, "/tmp/a");
    assert_eq!(inv.args, vec!["game.exe", "-x", "y"]);
    assert_eq!(inv.env.len(), 5);
    assert!(matches!(
        run(&r, "c".to_string(), Some("b".to_string()), vec![], "/app"),
        Err(CiderError::NotFound(_))
    ));
}

#[test]
fn create_checks_existence_and_setup() {
    let mut r = registry_with(&["a"]);
    assert_eq!(
        create_prefix_target(&r, &"a".to_string(), &None, "/app").err(),
        Some(CiderError::AlreadyExists("a".to_string()))
    );
    let setup = create_prefix_target(&r, &"b".to_string(), &None, "/app").unwrap();
    assert_eq!(setup.prefix_path, "/app/Prefixes/b");
    assert_eq!(setup.args, vec!["winecfg"]);
    let setup = create_prefix_target(&r, &"b".to_string(), &Some("/d".to_string()), "/app").unwrap();
    assert_eq!(setup.prefix_path, "/d");
    assert_eq!(
        create_prefix(&mut r, "b".to_string(), None, false),
        Err(CiderError::ExternalToolFailure)
    );
    assert_eq!(r.prefixes.len(), 1);
    assert_eq!(create_prefix(&mut r, "b".to_string(), Some("/d".to_string()), true), Ok(()));
    assert_eq!(props_of(&r, "b").custom_dir.as_deref(), Some("/d"));
}

#[test]
fn join_follows_path_rules() {
    assert_eq!(join("/a", "b"), "/a/b");
    assert_eq!(join("/a/", "b"), "/a/b");
    assert_eq!(join("", "b"), "b");
    assert_eq!(join("/a", "/abs"), "/abs");
}

#[test]
fn install_paths() {
    assert_eq!(bundle_executable("/x/GPTK.app"), "/x/GPTK.app/Contents/Resources/wine/bin/wine64");
    assert_eq!(
        wine_executable("/app"),
        "/app/Game Porting Toolkit.app/Contents/Resources/wine/bin/wine64"
    );
    assert_eq!(install("/x".to_string(), "/app", true, false), Err(CiderError::InvalidBundle("/x".to_string())));
    assert_eq!(install("/x".to_string(), "/app", true, true), Ok("/app/Game Porting Toolkit.app".to_string()));
}

#[test]
fn key_value_pairs() {
    assert_eq!(parse_key_value_pair("hud=1"), Ok(("hud".to_string(), "1".to_string())));
    assert_eq!(parse_key_value_pair("dir="), Ok(("dir".to_string(), String::new())));
    assert_eq!(parse_key_value_pair("hud"), Err(CiderError::MalformedSetting("hud".to_string())));
    assert_eq!(parse_key_value_pair("a=b=c"), Err(CiderError::MalformedSetting("a=b=c".to_string())));
}
