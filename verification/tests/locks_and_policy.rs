use rblx_godot::coordlock::{CoordinationLock, GlobalLock, LockResponse};
use rblx_godot::enums::RunContext;
use rblx_godot::errors::CoreError;
use rblx_godot::identity::{may_write_protected, SecurityContext, ThreadIdentity};
use rblx_godot::script::{compile_mode, current_run_context, should_start, wants_native, CompileMode};

#[test]
fn exclusive_mode_grants_without_counting() {
    let mut g = GlobalLock::new(true);
    let mut l = CoordinationLock::new();
    assert_eq!(l.acquire_read(&mut g), Ok(LockResponse::Granted));
    assert_eq!(l.acquire_write(&mut g), Ok(LockResponse::Granted));
    assert!(!l.is_held());
    // nothing counted: the flag may flip right away
    g.set_exclusive(false);
}

#[test]
fn parallel_mode_excludes_writers() {
    let mut g = GlobalLock::new(false);
    let mut l = CoordinationLock::new();
    assert_eq!(l.acquire_read(&mut g), Ok(LockResponse::Granted));
    assert_eq!(l.acquire_read(&mut g), Ok(LockResponse::Granted));
    // readers hold it: a writer must wait
    assert_eq!(l.acquire_write(&mut g), Ok(LockResponse::Blocked));
    l.release_read(&mut g);
    l.release_read(&mut g);
    assert_eq!(l.acquire_write(&mut g), Ok(LockResponse::Granted));
    // a writer holds it: readers must wait
    assert_eq!(l.acquire_read(&mut g), Ok(LockResponse::Blocked));
    l.release_write(&mut g);
    assert!(!l.is_held());
    // every grant was returned: the barrier is reachable again
    g.set_exclusive(true);
}

#[test]
fn poisoned_lock_fails_closed() {
    let mut g = GlobalLock::new(false);
    let mut l = CoordinationLock::new();
    l.poison();
    assert_eq!(l.acquire_read(&mut g), Err(CoreError::LockFailure));
    assert_eq!(l.acquire_write(&mut g), Err(CoreError::LockFailure));
    assert_eq!(CoreError::LockFailure.describe(), "lock poisoned");
}

#[test]
fn protected_write_needs_plugin_rights() {
    let anon: Option<ThreadIdentity> = None;
    assert!(!may_write_protected(&anon));
    let low = Some(ThreadIdentity {
        security_level: SecurityContext::NoSecurity,
        owning_unit: 1,
    });
    assert!(!may_write_protected(&low));
    let plugin = Some(ThreadIdentity {
        security_level: SecurityContext::PluginSecurity,
        owning_unit: 1,
    });
    assert!(may_write_protected(&plugin));
    let core = Some(ThreadIdentity {
        security_level: SecurityContext::RobloxScriptSecurity,
        owning_unit: 1,
    });
    assert!(may_write_protected(&core));
}

#[test]
fn run_context_defaults_to_legacy() {
    assert_eq!(RunContext::default(), RunContext::Legacy);
}

#[test]
fn current_context_prefers_studio_then_client() {
    assert_eq!(current_run_context(true, true), RunContext::Plugin);
    assert_eq!(current_run_context(false, true), RunContext::Client);
    assert_eq!(current_run_context(false, false), RunContext::Server);
}

#[test]
fn legacy_scripts_take_their_class_context() {
    // a plain server script enabled on a server starts
    assert!(should_start(RunContext::Legacy, RunContext::Server, false, false));
    // the same script on a client does not
    assert!(!should_start(RunContext::Legacy, RunContext::Server, false, true));
    // an explicit context overrides the implicit one
    assert!(should_start(RunContext::Client, RunContext::Server, false, true));
    assert!(!should_start(RunContext::Client, RunContext::Server, false, false));
}

#[test]
fn native_marker_detection() {
    assert!(wants_native("--!native\nprint(1)"));
    assert!(wants_native("print(1)\n--!native\nprint(2)"));
    assert!(wants_native("print(1)\n--!native"));
    assert!(wants_native("--!native\r\nprint(1)"));
    assert!(!wants_native("print(1)"));
    // the marker must be a whole line
    assert!(!wants_native("x = 1 --!native"));
    assert!(!wants_native("--!natives"));
    assert!(!wants_native(""));
}

#[test]
fn compile_mode_decision() {
    assert_eq!(compile_mode(true, "--!native"), CompileMode::Debug);
    assert_eq!(compile_mode(false, "--!native\nreturn 1"), CompileMode::Jit);
    assert_eq!(compile_mode(false, "return 1"), CompileMode::Release);
}
