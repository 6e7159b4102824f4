use jstime::bindings::{
    check_fetch, check_queue_microtask, plan_set_timeout, print_stream, ArgKind, BindingError,
    PrintStream, TimeoutPlan,
};
use jstime::host::{bootstrap_steps, native_bindings, Binding, BootstrapStep, Options, Polyfill};
use jstime::requests::HostFault;

#[test]
fn set_timeout_argument_rules() {
    assert_eq!(plan_set_timeout(&vec![]), Err(BindingError::CallbackNotFunction));
    assert_eq!(plan_set_timeout(&vec![ArgKind::Number, ArgKind::Number]), Err(BindingError::CallbackNotFunction));
    assert_eq!(plan_set_timeout(&vec![ArgKind::Function]), Ok(TimeoutPlan::Microtask));
    assert_eq!(plan_set_timeout(&vec![ArgKind::Function, ArgKind::String]), Err(BindingError::DelayNotNumber));
    assert_eq!(plan_set_timeout(&vec![ArgKind::Function, ArgKind::Number]), Ok(TimeoutPlan::Schedule));
    assert_eq!(plan_set_timeout(&vec![ArgKind::Function, ArgKind::Number, ArgKind::Other]), Ok(TimeoutPlan::Schedule));
}

#[test]
fn queue_microtask_needs_a_function() {
    assert_eq!(check_queue_microtask(&vec![ArgKind::Function]), Ok(()));
    assert_eq!(
        check_queue_microtask(&vec![ArgKind::Object]),
        Err(BindingError::CallbackNotFunction)
    );
    assert_eq!(check_queue_microtask(&vec![]), Err(BindingError::CallbackNotFunction));
}

#[test]
fn fetch_argument_rules() {
    assert_eq!(check_fetch(&vec![], ArgKind::Undefined), Err(BindingError::FetchMissingResource));
    assert_eq!(check_fetch(&vec![ArgKind::Number], ArgKind::Undefined), Err(BindingError::ResourceNotString));
    assert_eq!(check_fetch(&vec![ArgKind::String], ArgKind::Undefined), Ok(()));
    assert_eq!(check_fetch(&vec![ArgKind::String, ArgKind::Undefined], ArgKind::Undefined), Err(BindingError::InitNotObject));
    assert_eq!(check_fetch(&vec![ArgKind::String, ArgKind::Number], ArgKind::Undefined), Err(BindingError::InitNotObject));
    assert_eq!(check_fetch(&vec![ArgKind::String, ArgKind::Object], ArgKind::Undefined), Ok(()));
    assert_eq!(check_fetch(&vec![ArgKind::String, ArgKind::Object], ArgKind::Object), Ok(()));
    assert_eq!(check_fetch(&vec![ArgKind::String, ArgKind::Object], ArgKind::String), Err(BindingError::HeadersNotObject));
}

#[test]
fn binding_error_messages() {
    assert_eq!(BindingError::CallbackNotFunction.message(), "Callback must be a function");
    assert_eq!(BindingError::DelayNotNumber.message(), "Delay must be a number");
    assert_eq!(
        BindingError::FetchMissingResource.message(),
        "1 argument required, but only 0 present"
    );
    assert_eq!(
        BindingError::ResourceNotString.message(),
        "first argument to fetch must be a string"
    );
    assert_eq!(BindingError::InitNotObject.message(), "fetch init argument must be an object");
    assert_eq!(BindingError::HeadersNotObject.message(), "headers must be an object");
}

#[test]
fn print_goes_to_stderr_only_when_flagged() {
    assert_eq!(print_stream(1, None), PrintStream::Stdout);
    assert_eq!(print_stream(1, Some(1)), PrintStream::Stdout);
    assert_eq!(print_stream(2, Some(0)), PrintStream::Stdout);
    assert_eq!(print_stream(2, Some(1)), PrintStream::Stderr);
    assert_eq!(print_stream(2, Some(-3)), PrintStream::Stderr);
    assert_eq!(print_stream(2, None), PrintStream::Stdout);
}

#[test]
fn options_new_keeps_snapshot() {
    let o = Options::new(Some(&[1, 2, 3]));
    assert_eq!(o.snapshot, Some(&[1u8, 2, 3][..]));
    assert!(!o.taking_snapshot());
    assert!(o.owns_engine());
    let d = Options::default();
    assert!(d.snapshot.is_none());
    assert!(!d.taking_snapshot());
}

#[test]
fn snapshot_options() {
    let o = Options::new(None).for_snapshot().unwrap();
    assert!(o.taking_snapshot());
    assert!(!o.owns_engine());
    assert!(o.snapshot.is_none());
    assert_eq!(
        Options::new(Some(&[9])).for_snapshot().err(),
        Some(HostFault::SnapshotGiven)
    );
}

#[test]
fn fresh_bootstrap_runs_every_polyfill_once_in_order() {
    let steps = bootstrap_steps(&Options::new(None));
    assert_eq!(
        steps,
        vec![
            BootstrapStep::InstallBindings,
            BootstrapStep::Evaluate(Polyfill::Console),
            BootstrapStep::Evaluate(Polyfill::Crypto),
            BootstrapStep::Evaluate(Polyfill::Timers),
            BootstrapStep::Evaluate(Polyfill::Fetch),
            BootstrapStep::Evaluate(Polyfill::Performance),
            BootstrapStep::Evaluate(Polyfill::Encoders),
            BootstrapStep::Evaluate(Polyfill::QueueMicrotask),
            BootstrapStep::AttachState,
        ]
    );
    assert_eq!(Polyfill::QueueMicrotask.file_name(), "queue_microtask.js");
    assert_eq!(Polyfill::Console.file_name(), "console.js");
}

#[test]
fn restored_bootstrap_evaluates_no_polyfill() {
    let steps = bootstrap_steps(&Options::new(Some(&[0, 1])));
    assert_eq!(steps, vec![BootstrapStep::AttachState]);
}

#[test]
fn binding_registry() {
    let names: Vec<&str> = native_bindings().iter().map(|b| b.name()).collect();
    assert_eq!(
        names,
        vec!["printer", "perfNow", "fetch", "queueMicrotask", "randomFloat", "setTimeout"]
    );
    assert_eq!(Binding::SetTimeout.name(), "setTimeout");
}
