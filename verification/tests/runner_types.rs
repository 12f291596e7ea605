use static_runtime::runner::execution::MockExecutionUnit;
use static_runtime::runner::native::{NativeRunnerBackend, TransportSpec};
use static_runtime::runner::sandbox::{LinuxLandlockSandbox, LinuxSandbox, MacSandbox, Sandbox, SandboxError, SandboxSpec, WindowsSandbox};
use static_runtime::runner::{Capabilities, Handshake};

#[test]
fn handshake_is_tiny_and_ids_only() {
    let h = Handshake::default();
    assert_eq!(h.version, 0);
    assert!(h.publish.is_empty() && h.consume.is_empty());
    assert_eq!(h.caps, Capabilities::default());
}

#[test]
fn capabilities_default_to_all_denied() {
    let c = Capabilities::default();
    assert!(!c.network && !c.filesystem && !c.camera);
    assert!(!c.frame_fullres && !c.gpu_compute && !c.spawn_worker);
}

#[test]
fn placeholders_report_platform_and_enforce_nothing() {
    let backends: [(&dyn Sandbox, &str); 3] = [(&LinuxSandbox, "linux"), (&MacSandbox, "macos"), (&WindowsSandbox, "windows")];
    let spec = SandboxSpec { camera: true, gpu_compute: true, ..SandboxSpec::default() };
    for (sb, name) in backends {
        assert_eq!(sb.platform(), name);
        assert_eq!(sb.apply(&spec), Err(SandboxError::NotImplemented));
    }
}

#[test]
fn spec_defaults_to_all_denied() {
    let s = SandboxSpec::default();
    assert!(!s.network && !s.filesystem && !s.camera);
    assert!(!s.frame_fullres && !s.gpu_compute && !s.spawn_worker);
}

#[test]
fn landlock_accepts_only_readonly_filesystem_profiles() {
    let l = LinuxLandlockSandbox;
    assert_eq!(l.platform(), "linux-landlock");
    assert_eq!(l.apply(&SandboxSpec { filesystem: true, ..SandboxSpec::default() }), Ok(()));
    assert_eq!(
        l.apply(&SandboxSpec { filesystem: true, network: true, ..SandboxSpec::default() }),
        Err(SandboxError::Unsupported("Complex sandbox profiles not yet fully implemented"))
    );
    assert!(l.apply(&SandboxSpec::default()).is_err());
}

#[test]
fn native_backend_builders_record_spec_and_names() {
    let b = NativeRunnerBackend::loopback_dying(&["x", "y"], 3);
    assert!(matches!(b.spec, TransportSpec::Loopback { die_after: Some(3), fail_start: false }));
    assert_eq!(b.publish_names, vec!["x".to_string(), "y".to_string()]);
    assert!(b.consume_names.is_empty());
    let f = NativeRunnerBackend::loopback_failing_start(&[]);
    assert!(matches!(f.spec, TransportSpec::Loopback { die_after: None, fail_start: true }));
    let p = NativeRunnerBackend::process("sh", &["-c", "true"], &["z"]);
    match p.spec {
        TransportSpec::Process { program, args } => {
            assert_eq!(program, "sh");
            assert_eq!(args, vec!["-c".to_string(), "true".to_string()]);
        }
        _ => panic!("expected a process spec"),
    }
    let l = NativeRunnerBackend::loopback(&["a"]);
    assert_eq!(l.caps, Capabilities::default());
}

#[test]
fn mock_unit_builders() {
    let caps = Capabilities { camera: true, ..Capabilities::default() };
    let u = MockExecutionUnit::new(vec!["s".into()]).faulting_after(2).with_caps(caps);
    assert_eq!(u.fault_after, Some(2));
    assert_eq!(u.caps, caps);
    assert_eq!(u.runs, 0);
    assert!(!u.started && !u.stopped);
}
