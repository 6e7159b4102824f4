use vstd::prelude::*;
use crate::requests::HostFault;

verus! {

/// How an engine host is built.
pub struct Options {
    /// A heap image from an earlier snapshot build; with it the bindings and
    /// polyfills are already present and are not installed again.
    pub snapshot: Option<&'static [u8]>,
    taking_snapshot: bool,
}

impl Options {
    pub closed spec fn spec_snapshot(&self) -> Option<&'static [u8]> {
        self.snapshot
    }

    /// Whether these options build the host of a snapshot run.
    pub closed spec fn spec_taking_snapshot(&self) -> bool {
        self.taking_snapshot
    }

    pub fn new(snapshot: Option<&'static [u8]>) -> (r: Options)
        ensures
            r.spec_snapshot() == snapshot,
            !r.spec_taking_snapshot(),
    {
        Options { snapshot, taking_snapshot: false }
    }

    /// The options of a snapshot build. Snapshot data cannot be passed to it.
    pub fn for_snapshot(self) -> (r: Result<Options, HostFault>)
        ensures
            self.spec_snapshot() is None <==> r is Ok,
            r matches Ok(o) ==> o.spec_snapshot() is None && o.spec_taking_snapshot(),
            r matches Err(e) ==> e == HostFault::SnapshotGiven,
    {
        match self.snapshot {
            Some(_) => Err(HostFault::SnapshotGiven),
            None => Ok(Options { snapshot: None, taking_snapshot: true }),
        }
    }

    pub fn taking_snapshot(&self) -> (r: bool)
        ensures
            r == self.spec_taking_snapshot(),
    {
        self.taking_snapshot
    }

    /// Whether the host releases its engine instance when it is dropped; in a
    /// snapshot build the instance belongs to the snapshot builder.
    pub fn owns_engine(&self) -> (r: bool)
        ensures
            r == !self.spec_taking_snapshot(),
    {
        !self.taking_snapshot
    }
}

impl Default for Options {
    fn default() -> (r: Options)
        ensures
            r.spec_snapshot() is None,
            !r.spec_taking_snapshot(),
    {
        Options { snapshot: None, taking_snapshot: false }
    }
}

/// The host-authored script units run once at bootstrap, each handed the
/// native bindings.
#[derive(Debug, Clone, Copy, PartialEq, Eq)]
pub enum Polyfill {
    Console,
    Crypto,
    Timers,
    Fetch,
    Performance,
    Encoders,
    QueueMicrotask,
}

pub open spec fn polyfill_file(p: Polyfill) -> Seq<char> {
    match p {
        Polyfill::Console => "console.js"@,
        Polyfill::Crypto => "crypto.js"@,
        Polyfill::Timers => "timers.js"@,
        Polyfill::Fetch => "fetch.js"@,
        Polyfill::Performance => "performance.js"@,
        Polyfill::Encoders => "encoders.js"@,
        Polyfill::QueueMicrotask => "queue_microtask.js"@,
    }
}

impl Polyfill {
    /// The file name of the unit's source.
    pub fn file_name(&self) -> (r: &'static str)
        ensures
            r@ == polyfill_file(*self),
    {
        match self {
            Polyfill::Console => {
                proof { reveal_strlit("console.js"); }
                "console.js"
            },
            Polyfill::Crypto => {
                proof { reveal_strlit("crypto.js"); }
                "crypto.js"
            },
            Polyfill::Timers => {
                proof { reveal_strlit("timers.js"); }
                "timers.js"
            },
            Polyfill::Fetch => {
                proof { reveal_strlit("fetch.js"); }
                "fetch.js"
            },
            Polyfill::Performance => {
                proof { reveal_strlit("performance.js"); }
                "performance.js"
            },
            Polyfill::Encoders => {
                proof { reveal_strlit("encoders.js"); }
                "encoders.js"
            },
            Polyfill::QueueMicrotask => {
                proof { reveal_strlit("queue_microtask.js"); }
                "queue_microtask.js"
            },
        }
    }
}

/// The host capabilities installed into the engine.
#[derive(Debug, Clone, Copy, PartialEq, Eq)]
pub enum Binding {
    Printer,
    PerfNow,
    Fetch,
    QueueMicrotask,
    RandomFloat,
    SetTimeout,
}

pub open spec fn binding_name(b: Binding) -> Seq<char> {
    match b {
        Binding::Printer => "printer"@,
        Binding::PerfNow => "perfNow"@,
        Binding::Fetch => "fetch"@,
        Binding::QueueMicrotask => "queueMicrotask"@,
        Binding::RandomFloat => "randomFloat"@,
        Binding::SetTimeout => "setTimeout"@,
    }
}

impl Binding {
    /// The property name under which the binding is installed.
    pub fn name(&self) -> (r: &'static str)
        ensures
            r@ == binding_name(*self),
    {
        match self {
            Binding::Printer => {
                proof { reveal_strlit("printer"); }
                "printer"
            },
            Binding::PerfNow => {
                proof { reveal_strlit("perfNow"); }
                "perfNow"
            },
            Binding::Fetch => {
                proof { reveal_strlit("fetch"); }
                "fetch"
            },
            Binding::QueueMicrotask => {
                proof { reveal_strlit("queueMicrotask"); }
                "queueMicrotask"
            },
            Binding::RandomFloat => {
                proof { reveal_strlit("randomFloat"); }
                "randomFloat"
            },
            Binding::SetTimeout => {
                proof { reveal_strlit("setTimeout"); }
                "setTimeout"
            },
        }
    }
}

/// The bindings of the registry, in installation order.
pub open spec fn registry() -> Seq<Binding> {
    seq![
        Binding::Printer,
        Binding::PerfNow,
        Binding::Fetch,
        Binding::QueueMicrotask,
        Binding::RandomFloat,
        Binding::SetTimeout,
    ]
}

pub fn native_bindings() -> (r: Vec<Binding>)
    ensures
        r@ == registry(),
{
    let r = vec![
        Binding::Printer,
        Binding::PerfNow,
        Binding::Fetch,
        Binding::QueueMicrotask,
        Binding::RandomFloat,
        Binding::SetTimeout,
    ];
    assert(r@ =~= registry());
    r
}

/// One step of bringing up an engine host.
#[derive(Debug, Clone, Copy, PartialEq, Eq)]
pub enum BootstrapStep {
    /// Create the binding object and install every native binding in it.
    InstallBindings,
    /// Evaluate a polyfill unit, handing it the binding object.
    Evaluate(Polyfill),
    /// Attach the per-engine state: time origin, timer queue, request table
    /// and the I/O worker.
    AttachState,
}

/// Later polyfills may use what earlier ones install, never the other way.
pub open spec fn fresh_bootstrap() -> Seq<BootstrapStep> {
    seq![
        BootstrapStep::InstallBindings,
        BootstrapStep::Evaluate(Polyfill::Console),
        BootstrapStep::Evaluate(Polyfill::Crypto),
        BootstrapStep::Evaluate(Polyfill::Timers),
        BootstrapStep::Evaluate(Polyfill::Fetch),
        BootstrapStep::Evaluate(Polyfill::Performance),
        BootstrapStep::Evaluate(Polyfill::Encoders),
        BootstrapStep::Evaluate(Polyfill::QueueMicrotask),
        BootstrapStep::AttachState,
    ]
}

/// The steps that bring up a host: a fresh one installs the bindings and runs
/// every polyfill once, in order; one restored from a snapshot has them in its
/// heap already and only attaches the per-engine state.
pub fn bootstrap_steps(options: &Options) -> (r: Vec<BootstrapStep>)
    ensures
        options.spec_snapshot() is None ==> r@ == fresh_bootstrap(),
        options.spec_snapshot() is Some ==> r@ == seq![BootstrapStep::AttachState],
{
    let mut r: Vec<BootstrapStep> = Vec::new();
    if options.snapshot.is_none() {
        r.push(BootstrapStep::InstallBindings);
        r.push(BootstrapStep::Evaluate(Polyfill::Console));
        r.push(BootstrapStep::Evaluate(Polyfill::Crypto));
        r.push(BootstrapStep::Evaluate(Polyfill::Timers));
        r.push(BootstrapStep::Evaluate(Polyfill::Fetch));
        r.push(BootstrapStep::Evaluate(Polyfill::Performance));
        r.push(BootstrapStep::Evaluate(Polyfill::Encoders));
        r.push(BootstrapStep::Evaluate(Polyfill::QueueMicrotask));
    }
    r.push(BootstrapStep::AttachState);
    assert(options.snapshot is None ==> r@ =~= fresh_bootstrap());
    assert(options.snapshot is Some ==> r@ =~= seq![BootstrapStep::AttachState]);
    r
}

} // verus!
