use static_runtime::addon::manifest::{AddonKind, Manifest, Permissions};
use static_runtime::addon::registry::AddonRegistry;
use static_runtime::addon::schema::{ParamSpec, UiHints};
use static_runtime::addon::AddonError;
use std::collections::BTreeMap;

fn good_manifest(id: &str, api_min: u32, api_max: u32) -> Manifest {
    Manifest {
        manifest_version: 1,
        id: id.into(),
        name: id.into(),
        version: "1.0.0".into(),
        author: "A".into(),
        description: String::new(),
        license: None,
        homepage: None,
        tags: vec![],
        api_min,
        api_max,
        kind: AddonKind::Pipeline,
        runtime: None,
        permissions_v2: None,
        sandbox: None,
        runner: None,
        entry: None,
        permissions: Permissions::default(),
        shaders: vec![],
        assets: vec![],
        params: BTreeMap::new(),
        publish: vec![],
        consume: vec![],
    }
}


/// How each declared float default fares against its own range, in key
/// order (other declarations pass), as a caller hands it to validation.
fn range_checks(params: &BTreeMap<String, ParamSpec>) -> Vec<Result<(), String>> {
    params
        .values()
        .map(|spec| match spec {
            ParamSpec::F32 { default, min, max, .. } => {
                let d = f64::from_bits(*default);
                if min.map_or(false, |b| d < f64::from_bits(b)) || max.map_or(false, |b| d > f64::from_bits(b)) {
                    Err(format!("value {d} out of range"))
                } else {
                    Ok(())
                }
            }
            _ => Ok(()),
        })
        .collect()
}

#[test]
fn scan_empty_root_is_ok() {
    let reg = AddonRegistry::new();
    assert_eq!(reg.len(), 0);
    assert_eq!(reg.rejected().len(), 0);
    assert!(reg.is_empty());
}

#[test]
fn a_loaded_addon_is_found_by_id() {
    let mut reg = AddonRegistry::new();
    reg.take_scanned("/addons/crt".into(), Ok(good_manifest("io.test.crt", 1, 1))).unwrap();
    assert_eq!(reg.len(), 1);
    assert!(reg.contains("io.test.crt"));
    let e = reg.get("io.test.crt").unwrap();
    assert_eq!(e.root, "/addons/crt");
    assert!(!e.builtin);
    assert_eq!(reg.rejected().len(), 0);
}

#[test]
fn an_incompatible_addon_is_rejected_with_the_reason() {
    let mut reg = AddonRegistry::new();
    let r = reg.take_scanned("/addons/future".into(), Ok(good_manifest("io.test.future", 5, 9)));
    assert_eq!(r, Err(AddonError::IncompatibleApi { engine: 1, min: 5, max: 9 }));
    assert_eq!(reg.len(), 0);
    assert_eq!(reg.rejected().len(), 1);
    assert_eq!(reg.rejected()[0].reason, "incompatible API: engine=1, addon requires [5..=9]");
    assert!(reg.rejected()[0].reason.contains("incompatible API"));
}

#[test]
fn an_unreadable_manifest_is_rejected_as_read() {
    let mut reg = AddonRegistry::new();
    reg.take_scanned("/addons/bad".into(), Err("failed to parse manifest".into())).unwrap();
    assert_eq!(reg.len(), 0);
    assert_eq!(reg.rejected().len(), 1);
    assert_eq!(reg.rejected()[0].root, "/addons/bad");
}

#[test]
fn mixed_valid_and_invalid() {
    let mut reg = AddonRegistry::new();
    let _ = reg.take_scanned("ok".into(), Ok(good_manifest("io.test.ok", 1, 1)));
    let _ = reg.take_scanned("bad".into(), Ok(good_manifest("io.test.bad", 9, 9)));
    assert_eq!(reg.len(), 1);
    assert_eq!(reg.rejected().len(), 1);
}

#[test]
fn a_duplicate_id_keeps_the_first_registration() {
    let mut reg = AddonRegistry::new();
    reg.load_one("first".into(), good_manifest("io.test.dup", 1, 1)).unwrap();
    let r = reg.take_scanned("second".into(), Ok(good_manifest("io.test.dup", 1, 1)));
    assert_eq!(r, Err(AddonError::DuplicateAddon("io.test.dup".into())));
    assert_eq!(reg.get("io.test.dup").unwrap().root, "first");
    assert_eq!(reg.rejected()[0].reason, "duplicate addon id io.test.dup (already registered)");
}

#[test]
fn builtins_are_validated_like_scanned_addons() {
    let mut reg = AddonRegistry::with_engine_api(1);
    reg.register_builtin(good_manifest("io.static.crt", 1, 1), &[]).unwrap();
    let e = reg.get("io.static.crt").unwrap();
    assert!(e.builtin);
    assert_eq!(e.root, "");
    let bad = reg.register_builtin(good_manifest("Bad Id", 1, 1), &[]);
    assert!(matches!(bad, Err(AddonError::ManifestInvalid(_))));
    let mut with_bad_param = good_manifest("io.static.x", 1, 1);
    with_bad_param.params.insert("k".into(), ParamSpec::Bool { default: true, ui: UiHints::default() });
    let param = reg.register_builtin(with_bad_param, &[Err("unused".into())]);
    assert!(param.is_ok());
    let mut with_bad_enum = good_manifest("io.static.y", 1, 1);
    with_bad_enum.params.insert(
        "k".into(),
        ParamSpec::Enum { default: "z".into(), values: vec!["a".into()], ui: UiHints::default() },
    );
    let param = reg.register_builtin(with_bad_enum, &[]);
    assert_eq!(
        param,
        Err(AddonError::ManifestInvalid("param \"k\": default value invalid \u{2014} value \"z\" not in enum [\"a\"]".into()))
    );
    assert_eq!(reg.entries().len(), 2);
    reg.clear();
    assert!(reg.is_empty());
}

#[test]
fn error_messages_read_as_documented() {
    assert_eq!(AddonError::NotFound("a".into()).message(), "addon not found: a");
    assert_eq!(AddonError::NoImplementation("a".into()).message(), "addon \"a\" has no runtime implementation registered");
    assert_eq!(AddonError::Package("x".into()).message(), "package format error: x");
    assert_eq!(AddonError::ManifestInvalid("m".into()).message(), "invalid manifest: m");
}

#[test]
fn builtin_pipeline_addons_register_like_external_ones() {
    let crt = static_runtime::addons::crt_manifest();
    let dots = static_runtime::addons::dot_renderer_manifest();
    assert_eq!(crt.params.len(), 6);
    assert_eq!(dots.params.len(), 6);
    assert_eq!(crt.consume.len(), 1);
    assert!(crt.consume[0].optional);
    let mut reg = AddonRegistry::new();
    assert!(reg.register_builtin(crt.clone(), &range_checks(&crt.params)).is_ok());
    assert!(reg.register_builtin(dots.clone(), &range_checks(&dots.params)).is_ok());
    assert_eq!(reg.len(), 2);
    assert!(reg.contains("crt") && reg.contains("dot-renderer"));
    assert!(
        matches!(reg.register_builtin(static_runtime::addons::crt_manifest(), &range_checks(&static_runtime::addons::crt_manifest().params)), Err(AddonError::DuplicateAddon(id)) if id == "crt")
    );
}
