use vstd::prelude::*;

verus! {

/// The kind of a script value handed to a native binding, as far as the
/// bindings' argument rules look at it.
#[derive(Debug, Clone, Copy, PartialEq, Eq, Structural)]
pub enum ArgKind {
    Undefined,
    Function,
    Number,
    String,
    Object,
    Other,
}

/// Functions are objects too.
pub open spec fn is_object_kind(k: ArgKind) -> bool {
    k == ArgKind::Object || k == ArgKind::Function
}

/// Errors raised inside the engine when a binding is called wrongly.
#[derive(Debug, Clone, Copy, PartialEq, Eq)]
pub enum BindingError {
    CallbackNotFunction,
    DelayNotNumber,
    FetchMissingResource,
    ResourceNotString,
    InitNotObject,
    HeadersNotObject,
}

impl BindingError {
    /// The text of the script-level error.
    pub fn message(&self) -> (r: &'static str)
        ensures
            r@ == binding_error_text(*self),
    {
        match self {
            BindingError::CallbackNotFunction => {
                proof { reveal_strlit("Callback must be a function"); }
                "Callback must be a function"
            },
            BindingError::DelayNotNumber => {
                proof { reveal_strlit("Delay must be a number"); }
                "Delay must be a number"
            },
            BindingError::FetchMissingResource => {
                proof { reveal_strlit("1 argument required, but only 0 present"); }
                "1 argument required, but only 0 present"
            },
            BindingError::ResourceNotString => {
                proof { reveal_strlit("first argument to fetch must be a string"); }
                "first argument to fetch must be a string"
            },
            BindingError::InitNotObject => {
                proof { reveal_strlit("fetch init argument must be an object"); }
                "fetch init argument must be an object"
            },
            BindingError::HeadersNotObject => {
                proof { reveal_strlit("headers must be an object"); }
                "headers must be an object"
            },
        }
    }
}

pub open spec fn binding_error_text(e: BindingError) -> Seq<char> {
    match e {
        BindingError::CallbackNotFunction => "Callback must be a function"@,
        BindingError::DelayNotNumber => "Delay must be a number"@,
        BindingError::FetchMissingResource => "1 argument required, but only 0 present"@,
        BindingError::ResourceNotString => "first argument to fetch must be a string"@,
        BindingError::InitNotObject => "fetch init argument must be an object"@,
        BindingError::HeadersNotObject => "headers must be an object"@,
    }
}

/// Where a `setTimeout` callback goes.
#[derive(Debug, Clone, Copy, PartialEq, Eq)]
pub enum TimeoutPlan {
    /// No delay was given: run the callback as a microtask.
    Microtask,
    /// Queue a timer with the given numeric delay.
    Schedule,
}

/// The argument rule of `setTimeout(callback, delayMs?)`.
pub open spec fn set_timeout_rule(args: Seq<ArgKind>) -> Result<TimeoutPlan, BindingError> {
    if args.len() == 0 || args[0] != ArgKind::Function {
        Err(BindingError::CallbackNotFunction)
    } else if args.len() == 1 {
        Ok(TimeoutPlan::Microtask)
    } else if args[1] != ArgKind::Number {
        Err(BindingError::DelayNotNumber)
    } else {
        Ok(TimeoutPlan::Schedule)
    }
}

/// Checks the arguments of `setTimeout` and says where the callback goes.
pub fn plan_set_timeout(args: &Vec<ArgKind>) -> (r: Result<TimeoutPlan, BindingError>)
    ensures
        r == set_timeout_rule(args@),
{
    if args.len() == 0 || args[0] != ArgKind::Function {
        Err(BindingError::CallbackNotFunction)
    } else if args.len() == 1 {
        Ok(TimeoutPlan::Microtask)
    } else if args[1] != ArgKind::Number {
        Err(BindingError::DelayNotNumber)
    } else {
        Ok(TimeoutPlan::Schedule)
    }
}

/// Checks the argument of `queueMicrotask(callback)`.
pub fn check_queue_microtask(args: &Vec<ArgKind>) -> (r: Result<(), BindingError>)
    ensures
        r is Ok <==> (args@.len() > 0 && args@[0] == ArgKind::Function),
        r matches Err(e) ==> e == BindingError::CallbackNotFunction,
{
    if args.len() > 0 && args[0] == ArgKind::Function {
        Ok(())
    } else {
        Err(BindingError::CallbackNotFunction)
    }
}

/// The argument rule of `fetch(resource, init?)`, where `headers` is the
/// kind of `init.headers` (`Undefined` where it is absent).
pub open spec fn fetch_rule(args: Seq<ArgKind>, headers: ArgKind) -> Result<(), BindingError> {
    if args.len() == 0 {
        Err(BindingError::FetchMissingResource)
    } else if args[0] != ArgKind::String {
        Err(BindingError::ResourceNotString)
    } else if args.len() >= 2 && !is_object_kind(args[1]) {
        Err(BindingError::InitNotObject)
    } else if args.len() >= 2 && headers != ArgKind::Undefined && !is_object_kind(headers) {
        Err(BindingError::HeadersNotObject)
    } else {
        Ok(())
    }
}

fn is_object(k: ArgKind) -> (r: bool)
    ensures
        r == is_object_kind(k),
{
    k == ArgKind::Object || k == ArgKind::Function
}

/// Checks the arguments of `fetch`; the request is only made when this is `Ok`.
pub fn check_fetch(args: &Vec<ArgKind>, headers: ArgKind) -> (r: Result<(), BindingError>)
    ensures
        r == fetch_rule(args@, headers),
{
    if args.len() == 0 {
        return Err(BindingError::FetchMissingResource);
    }
    if args[0] != ArgKind::String {
        return Err(BindingError::ResourceNotString);
    }
    if args.len() >= 2 {
        if !is_object(args[1]) {
            return Err(BindingError::InitNotObject);
        }
        if headers != ArgKind::Undefined && !is_object(headers) {
            return Err(BindingError::HeadersNotObject);
        }
    }
    Ok(())
}

/// The stream that `print` writes to.
#[derive(Debug, Clone, Copy, PartialEq, Eq)]
pub enum PrintStream {
    Stdout,
    Stderr,
}

/// `print(value, isError)`: the error stream exactly when a second argument
/// was passed and its integer value is nonzero.
pub fn print_stream(arg_count: usize, is_error: Option<i64>) -> (r: PrintStream)
    ensures
        r == (if arg_count >= 2 && is_error is Some && is_error->0 != 0 {
            PrintStream::Stderr
        } else {
            PrintStream::Stdout
        }),
{
    if arg_count >= 2 {
        match is_error {
            Some(v) => if v != 0 { PrintStream::Stderr } else { PrintStream::Stdout },
            None => PrintStream::Stdout,
        }
    } else {
        PrintStream::Stdout
    }
}

} // verus!
