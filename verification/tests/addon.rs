use static_runtime::addon::compat::{check_compat, ENGINE_API_VERSION};
use static_runtime::engine::reload::humanize;
use static_runtime::addon::manifest::{
    check_unique_ids, default_asset_kind, default_shader_entry, default_shader_stage, is_valid_id, AddonKind,
    AssetDecl, GpuPerm, Manifest, Permissions, RuntimeSpec, ShaderDecl,
};
use static_runtime::addon::schema::{
    first_param_problem,
    check_enum, check_range, debug_list_text, param_default_problem, type_mismatch, validate_color, ParamSpec, ParamValue,
    UiHints,
};
use static_runtime::addon::AddonError;
use static_runtime::behavior::addons::face_tracking_lite;
use std::collections::BTreeMap;

fn manifest(min: u32, max: u32) -> Manifest {
    Manifest {
        manifest_version: 1,
        id: "x".into(),
        name: "X".into(),
        version: "1.0".into(),
        author: "A".into(),
        description: String::new(),
        license: None,
        homepage: None,
        tags: vec![],
        api_min: min,
        api_max: max,
        kind: AddonKind::Pipeline,
        runtime: None,
        permissions_v2: None,
        sandbox: None,
        runner: None,
        entry: None,
        permissions: Permissions::default(),
        shaders: vec![],
        assets: vec![],
        params: BTreeMap::new(),
        publish: vec![],
        consume: vec![],
    }
}

fn shader(id: &str) -> ShaderDecl {
    ShaderDecl { id: id.into(), path: format!("{id}.wgsl"), stage: default_shader_stage(), entry: default_shader_entry() }
}

fn invalid(r: Result<(), AddonError>) -> String {
    match r {
        Err(AddonError::ManifestInvalid(m)) => m,
        other => panic!("expected ManifestInvalid, got {other:?}"),
    }
}


/// How each declared float default fares against its own range, in key
/// order (other declarations pass), as a caller hands it to validation.
fn range_verdicts(params: &BTreeMap<String, ParamSpec>) -> Vec<Result<(), String>> {
    params
        .values()
        .map(|spec| match spec {
            ParamSpec::F32 { default, min, max, .. } => {
                let d = f64::from_bits(*default);
                if min.map_or(false, |b| d < f64::from_bits(b)) || max.map_or(false, |b| d > f64::from_bits(b)) {
                    Err(format!("value {d} out of range"))
                } else {
                    Ok(())
                }
            }
            _ => Ok(()),
        })
        .collect()
}

#[test]
fn accepts_in_range() {
    assert!(check_compat(&manifest(1, 2), 1).is_ok());
    assert!(check_compat(&manifest(1, 2), 2).is_ok());
}

#[test]
fn rejects_too_old_engine() {
    let err = check_compat(&manifest(3, 5), 1).unwrap_err();
    assert!(matches!(err, AddonError::IncompatibleApi { engine: 1, min: 3, max: 5 }));
}

#[test]
fn rejects_too_new_engine() {
    let err = check_compat(&manifest(1, 1), 2).unwrap_err();
    assert!(matches!(err, AddonError::IncompatibleApi { engine: 2, min: 1, max: 1 }));
}

#[test]
fn engine_api_is_one() {
    assert_eq!(ENGINE_API_VERSION, 1);
}

#[test]
fn sample_manifest_validates() {
    let mut m = manifest(1, 1);
    m.id = "io.static.crt".into();
    m.name = "CRT".into();
    m.version = "1.0.0".into();
    m.shaders = vec![shader("main")];
    m.assets = vec![AssetDecl { id: "preset_soft".into(), path: "assets/presets/soft.json".into(), kind: "preset".into() }];
    assert!(m.validate(&range_verdicts(&m.params)).is_ok());
    assert_eq!(m.shaders[0].stage, "fragment");
    assert_eq!(m.shaders[0].entry, "fs_main");
    assert_eq!(default_asset_kind(), "binary");
}

#[test]
fn rejects_bad_id() {
    let mut m = manifest(1, 1);
    m.id = "Has Space".into();
    assert_eq!(
        invalid(m.validate(&range_verdicts(&m.params))),
        "addon id \"Has Space\" contains invalid characters (allowed: a-z 0-9 . _ -, lowercase only)"
    );
}

#[test]
fn rejects_inverted_api_range() {
    let m = manifest(5, 2);
    assert_eq!(invalid(m.validate(&range_verdicts(&m.params))), "api_min (5) > api_max (2)");
}

#[test]
fn rejects_duplicate_shader_ids() {
    let mut m = manifest(1, 1);
    m.shaders = vec![shader("main"), shader("other"), shader("main")];
    assert_eq!(invalid(m.validate(&range_verdicts(&m.params))), "duplicate shader id \"main\"");
}

#[test]
fn rejects_duplicate_asset_ids_after_shaders_pass() {
    let mut m = manifest(1, 1);
    let a = AssetDecl { id: "p".into(), path: "p".into(), kind: default_asset_kind() };
    m.assets = vec![a.clone(), a];
    assert_eq!(invalid(m.validate(&range_verdicts(&m.params))), "duplicate asset id \"p\"");
}

#[test]
fn validation_reports_rules_in_order() {
    let mut m = manifest(1, 1);
    m.manifest_version = 7;
    m.id = String::new();
    assert_eq!(invalid(m.validate(&range_verdicts(&m.params))), "unsupported manifest_version 7 (this engine expects <= 2)");
    m.manifest_version = 1;
    assert_eq!(invalid(m.validate(&range_verdicts(&m.params))), "addon id is empty");
    m.id = "ok".into();
    m.name = " \t".into();
    assert_eq!(invalid(m.validate(&range_verdicts(&m.params))), "addon name is empty");
    m.name = "N".into();
    m.version = "\u{3000}".into();
    assert_eq!(invalid(m.validate(&range_verdicts(&m.params))), "addon version is empty");
    m.version = "1".into();
    m.params.insert("k".into(), ParamSpec::I32 { default: 9, min: Some(0), max: Some(5), ui: UiHints::default() });
    assert_eq!(invalid(m.validate(&range_verdicts(&m.params))), "param \"k\": default value invalid \u{2014} value 9 above max 5");
    assert_eq!(
        invalid(m.validate(&[Err("ignored for a non-float declaration".into())])),
        "param \"k\": default value invalid \u{2014} value 9 above max 5"
    );
    m.params.clear();
    m.params.insert("f".into(), ParamSpec::F32 { default: 0, min: None, max: None, ui: UiHints::default() });
    assert_eq!(invalid(m.validate(&[Err("out of range".into())])), "param \"f\": default value invalid \u{2014} out of range");
    assert!(m.validate(&range_verdicts(&m.params)).is_ok());
    m.params.clear();
    m.manifest_version = 2;
    assert_eq!(invalid(m.validate(&range_verdicts(&m.params))), "manifest v2 requires [runtime] section");
    m.runtime = Some(RuntimeSpec { runtime_type: "native".into(), entry: "lib.so".into(), env: BTreeMap::new() });
    assert!(m.validate(&range_verdicts(&m.params)).is_ok());
}

#[test]
fn migrate_moves_runner_and_entry_into_runtime() {
    let mut m = manifest(1, 1);
    m.runner = Some("native".into());
    m.entry = Some("libx.so".into());
    m.permissions.gpu = GpuPerm::Extended;
    m.migrate_to_v2();
    assert_eq!(m.manifest_version, 2);
    let rt = m.runtime.as_ref().unwrap();
    assert_eq!(rt.runtime_type, "native");
    assert_eq!(rt.entry, "libx.so");
    assert!(rt.env.is_empty());
    let p2 = m.permissions_v2.as_ref().unwrap();
    assert_eq!(p2.gpu, GpuPerm::Extended);
    assert!(!p2.camera && p2.network.is_empty());
    assert!(m.validate(&range_verdicts(&m.params)).is_ok());
}

#[test]
fn migrate_without_entry_leaves_runtime_unset() {
    let mut m = manifest(1, 1);
    m.runner = Some("native".into());
    m.migrate_to_v2();
    assert!(m.runtime.is_none());
    assert_eq!(m.manifest_version, 2);
    let mut again = m.clone();
    again.migrate_to_v2();
    assert!(again.runtime.is_none() && again.permissions_v2.is_some());
}

#[test]
fn id_characters() {
    assert!(is_valid_id("io.static_crt-2"));
    assert!(!is_valid_id(""));
    assert!(!is_valid_id("Upper"));
    assert!(!is_valid_id("sp ace"));
    assert!(!is_valid_id("é"));
}

#[test]
fn unique_ids_reports_first_repeat() {
    assert!(check_unique_ids("shader", &["a", "b", "c"]).is_ok());
    assert_eq!(invalid(check_unique_ids("asset", &["a", "b", "b", "a"])), "duplicate asset id \"b\"");
}

#[test]
fn color_validation() {
    assert!(validate_color("#abcdef").is_ok());
    assert!(validate_color("#abcdef12").is_ok());
    assert_eq!(validate_color("abcdef").unwrap_err(), "invalid color \"abcdef\" (expected #rrggbb or #rrggbbaa)");
    assert_eq!(validate_color("#zzzzzz").unwrap_err(), "invalid color \"#zzzzzz\" (non-hex digits)");
    assert!(validate_color("#ABCDEF").is_ok());
    assert!(validate_color("#abcd").is_err());
}

#[test]
fn integer_range_validation() {
    assert!(check_range(5, Some(0), Some(10)).is_ok());
    assert!(check_range(5, None, None).is_ok());
    assert_eq!(check_range(-3, Some(0), Some(10)).unwrap_err(), "value -3 below min 0");
    assert_eq!(check_range(11, Some(0), Some(10)).unwrap_err(), "value 11 above max 10");
    assert_eq!(check_range(i64::MIN, Some(-1), None).unwrap_err(), "value -9223372036854775808 below min -1");
}

#[test]
fn rejects_enum_default_outside_values() {
    let values = vec!["soft".to_string(), "hard".to_string()];
    let check = check_enum(&values, "elsewhere");
    let problem = param_default_problem("mode", &check, Some(("elsewhere", &values)));
    assert_eq!(
        problem.as_deref(),
        Some("param \"mode\": default value invalid \u{2014} value \"elsewhere\" not in enum [\"soft\", \"hard\"]")
    );
    let mut m = manifest(1, 1);
    m.params.insert("mode".into(), ParamSpec::Enum { default: "elsewhere".into(), values, ui: UiHints::default() });
    assert_eq!(m.validate(&range_verdicts(&m.params)), Err(AddonError::ManifestInvalid(problem.unwrap())));
}

#[test]
fn enum_membership_and_its_message() {
    let values = vec!["soft".to_string(), "hard".to_string(), "off".to_string()];
    assert_eq!(check_enum(&values, "hard"), Ok(()));
    assert_eq!(check_enum(&values, "nope"), Err("value \"nope\" not in enum [\"soft\", \"hard\", \"off\"]".to_string()));
    assert_eq!(check_enum(&[], "x"), Err("value \"x\" not in enum []".to_string()));
    assert_eq!(debug_list_text(&["a\"b".to_string()]), format!("{:?}", vec!["a\"b".to_string()]));
    assert_eq!(debug_list_text(&values), format!("{:?}", values));
}

#[test]
fn type_mismatch_names_both_types() {
    assert_eq!(type_mismatch("f32", &ParamValue::Bool(true)), "type mismatch: expected f32, got bool");
    assert_eq!(type_mismatch("enum", &ParamValue::I32(3)), "type mismatch: expected enum, got int");
    assert_eq!(type_mismatch("i32", &ParamValue::F32(0)), "type mismatch: expected i32, got float");
    assert_eq!(type_mismatch("bool", &ParamValue::Str("x".into())), "type mismatch: expected bool, got string");
}

#[test]
fn default_problems_in_order() {
    let values = vec!["soft".to_string(), "hard".to_string()];
    assert_eq!(param_default_problem("k", &Ok(()), None), None);
    assert_eq!(param_default_problem("k", &Ok(()), Some(("soft", &values))), None);
    assert_eq!(
        param_default_problem("k", &Ok(()), Some(("off", &values))),
        Some("param \"k\": enum default \"off\" not in values [\"soft\", \"hard\"]".to_string())
    );
    assert_eq!(
        param_default_problem("k", &Err("value 5 above max 3".to_string()), Some(("off", &values))),
        Some("param \"k\": default value invalid \u{2014} value 5 above max 3".to_string())
    );
}

fn f32_spec(min: f32, max: f32, default: f32) -> ParamSpec {
    ParamSpec::F32 {
        default: (default as f64).to_bits(),
        min: Some((min as f64).to_bits()),
        max: Some((max as f64).to_bits()),
        ui: UiHints::default(),
    }
}

#[test]
fn enum_validation() {
    let s = ParamSpec::Enum { default: "soft".into(), values: vec!["soft".into(), "hard".into()], ui: UiHints::default() };
    assert!(s.validate_non_float(&ParamValue::Str("soft".into())).unwrap().is_ok());
    assert!(s.validate_non_float(&ParamValue::Str("nope".into())).unwrap().is_err());
}

#[test]
fn type_mismatch_is_rejected() {
    let s = f32_spec(0.0, 1.0, 0.5);
    assert!(s.validate_non_float(&ParamValue::Bool(true)).unwrap().is_err());
    assert!(s.validate_non_float(&ParamValue::Str("x".into())).unwrap().is_err());
    assert_eq!(
        s.validate_non_float(&ParamValue::Bool(true)),
        Some(Err("type mismatch: expected f32, got bool".to_string()))
    );
}

#[test]
fn float_declarations_leave_numbers_to_the_float_check() {
    let s = f32_spec(0.0, 1.0, 0.5);
    assert_eq!(s.validate_non_float(&ParamValue::F32(0.5f64.to_bits())), None);
    assert_eq!(s.validate_non_float(&ParamValue::I32(1)), None);
    assert_eq!(s.default_value(), ParamValue::F32(0.5f64.to_bits()));
    assert_eq!(s.kind_name(), "f32");
}

#[test]
fn non_float_declarations_are_fully_checked() {
    let i = ParamSpec::I32 { default: 3, min: Some(0), max: Some(5), ui: UiHints::default() };
    assert_eq!(i.validate_non_float(&ParamValue::I32(4)), Some(Ok(())));
    assert_eq!(i.validate_non_float(&ParamValue::I32(9)), Some(Err("value 9 above max 5".to_string())));
    assert_eq!(i.default_value(), ParamValue::I32(3));
    let c = ParamSpec::Color { default: "#000000".into(), ui: UiHints::default() };
    assert_eq!(c.validate_non_float(&ParamValue::Str("#abcdef".into())), Some(Ok(())));
    assert!(c.validate_non_float(&ParamValue::Str("#zzzzzz".into())).unwrap().is_err());
    let t = ParamSpec::Text { default: "hi".into(), ui: UiHints::default() };
    assert_eq!(t.validate_non_float(&ParamValue::Str("anything".into())), Some(Ok(())));
    assert_eq!(
        t.validate_non_float(&ParamValue::I32(1)),
        Some(Err("type mismatch: expected text, got int".to_string()))
    );
    let b = ParamSpec::Bool { default: true, ui: UiHints { label: Some("On".into()), group: None, help: None } };
    assert_eq!(b.validate_non_float(&ParamValue::Bool(false)), Some(Ok(())));
    assert_eq!(b.ui().label.as_deref(), Some("On"));
    assert_eq!(b.kind_name(), "bool");
}

#[test]
fn manifest_is_a_valid_behavior() {
    let m = static_runtime::behavior::builtins::time::manifest();
    assert_eq!(m.kind, AddonKind::Behavior);
    assert!(m.validate(&range_verdicts(&m.params)).is_ok(), "time behavior manifest must validate");
}

#[test]
fn manifest_is_a_valid_behavior_publishing_three_signals() {
    let m = face_tracking_lite::manifest();
    assert_eq!(m.kind, AddonKind::Behavior);
    assert_eq!(m.publish.len(), 3);
    assert!(m.shaders.is_empty(), "a behavior ships no shader");
    // Every declared float default lies within its own bounds.
    for spec in m.params.values() {
        if let ParamSpec::F32 { default, min, max, .. } = spec {
            let d = f64::from_bits(*default);
            assert!(min.map_or(true, |b| d >= f64::from_bits(b)));
            assert!(max.map_or(true, |b| d <= f64::from_bits(b)));
        }
    }
    assert!(m.validate(&range_verdicts(&m.params)).is_ok(), "manifest must validate");
    assert_eq!(face_tracking_lite::published().len(), 3);
    assert_eq!(face_tracking_lite::params().len(), m.params.len());
    assert_eq!(
        m.params.get("smoothing").map(|p| p.default_value()),
        Some(ParamValue::F32((0.2f32 as f64).to_bits()))
    );
}

#[test]
fn errors_read_in_plain_language() {
    assert_eq!(humanize(&AddonError::PipelineRejected("x: bad".into())), "Some settings are invalid:\nx: bad");
    assert_eq!(humanize(&AddonError::UnsupportedSource("cam9".into())), "Unknown input source 'cam9'.");
    assert_eq!(humanize(&AddonError::UnsupportedSink("ndi".into())), "Unknown output 'ndi'.");
    assert_eq!(
        humanize(&AddonError::NoImplementation("io.x".into())),
        "Addon 'io.x' is installed but has no code to run."
    );
    assert_eq!(humanize(&AddonError::InvalidPipeline("loop".into())), "This setup can't be applied: loop");
    assert_eq!(humanize(&AddonError::NotFound("q".into())), "Couldn't apply changes: addon not found: q");
}

#[test]
fn first_param_problem_reports_the_first_bad_default_in_order() {
    let ui = UiHints::default();
    let ok = ParamSpec::Bool { default: true, ui: ui.clone() };
    let bad_enum = ParamSpec::Enum { default: "x".to_string(), values: vec!["a".to_string()], ui: ui.clone() };
    let bad_int = ParamSpec::I32 { default: 9, min: Some(0), max: Some(5), ui: ui.clone() };
    let params = vec![("a".to_string(), ok), ("b".to_string(), bad_enum), ("c".to_string(), bad_int)];
    let verdicts = vec![Ok(()), Ok(()), Ok(())];
    assert_eq!(
        first_param_problem(&params, &verdicts).as_deref(),
        Some("param \"b\": default value invalid \u{2014} value \"x\" not in enum [\"a\"]")
    );
    let float = ParamSpec::F32 { default: 0, min: None, max: None, ui };
    let only_float = vec![("f".to_string(), float)];
    assert_eq!(first_param_problem(&only_float, &[Ok(())]), None);
    assert!(first_param_problem(&only_float, &[Err("out of range".to_string())]).unwrap().contains("out of range"));
}

#[test]
fn a_float_default_nobody_checked_is_refused() {
    let m = face_tracking_lite::manifest();
    match m.validate(&[]) {
        Err(AddonError::ManifestInvalid(msg)) => assert!(msg.ends_with("float range not checked"), "{msg}"),
        other => panic!("expected a refusal, got {other:?}"),
    }
}
