//! The JavaScript engine.
//!
//! A script can read the clock or draw random numbers, and an imported module comes
//! from wherever the context's loader finds it. So a run is not a function of its
//! source: the contract of each call into the engine says that what came back is an
//! outcome that such a call can have, and the names below stand for those sets of
//! outcomes. That a run ends at all is claimed of none.
//!
//! A run uses its context up, so nothing else is run in it before or after.
use vstd::prelude::*;

use std::cell::RefCell;
use std::rc::Rc;

use rquickjs::function::{Func, Opt};
use rquickjs::module::Declared;
use rquickjs::{Context, Ctx, Module, Promise, Runtime};

use crate::output::{call_views, record_call, BuildCall, BuildCallView};
use crate::text::texts;

verus! {

/// `rquickjs::Runtime`: a handle on an engine and its module loader.
#[verifier::external_type_specification]
#[verifier::external_body]
pub struct ExRuntime(Runtime);

/// `rquickjs::Context`: a handle on a global scope of an engine.
#[verifier::external_type_specification]
#[verifier::external_body]
pub struct ExContext(Context);

/// `rquickjs::Ctx`: a context that is being used.
#[verifier::external_type_specification]
#[verifier::external_body]
pub struct ExCtx<'js>(Ctx<'js>);

/// `rquickjs::Module`: a module of an engine.
#[verifier::external_type_specification]
#[verifier::external_body]
#[verifier::reject_recursive_types(T)]
pub struct ExModule<'js, T>(Module<'js, T>);

/// `rquickjs::module::Declared`: the mark of a module that was not run yet.
#[verifier::external_type_specification]
#[verifier::external_body]
pub struct ExDeclared(Declared);

/// `rquickjs::Promise`: what the evaluation of a module will come to.
#[verifier::external_type_specification]
#[verifier::external_body]
pub struct ExPromise<'js>(Promise<'js>);

/// `std::cell::RefCell`: a value that can be changed through a shared reference.
#[verifier::external_type_specification]
#[verifier::external_body]
#[verifier::reject_recursive_types(T)]
pub struct ExRefCell<T: ?Sized>(RefCell<T>);

/// `rquickjs::Error`: why the engine gave up.
#[verifier::external_type_specification]
#[verifier::external_body]
pub struct ExError(rquickjs::Error);

/// The text that an error of the engine displays.
pub uninterp spec fn error_text(error: rquickjs::Error) -> Seq<char>;

/// Whether `Runtime::new` can give this engine: one of its own, that starts without a
/// module loader and with nothing run. What is later done to the engine does not change
/// how it was made.
pub uninterp spec fn runtime_can_be_new(runtime: Runtime) -> bool;

/// Whether `Runtime::new` can fail with this text.
pub uninterp spec fn runtime_can_fail(text: Seq<char>) -> bool;

/// Whether `Context::full` can fail on this engine with this text.
pub uninterp spec fn context_can_fail(runtime: Runtime, text: Seq<char>) -> bool;

/// Whether `Context::full` can give this global scope on this engine: one of its own,
/// with all the standard objects, that starts with nothing run. What is later done in the
/// scope does not change how it was made.
pub uninterp spec fn context_can_be_new(runtime: Runtime, context: Context) -> bool;

/// The calls of the build function in the course of one run.
pub struct CallLog {
    calls: Rc<RefCell<Vec<BuildCall>>>,
}

/// The calls of a function of one text in the course of one run.
pub struct TextLog {
    calls: Rc<RefCell<Vec<String>>>,
}

/// The calls that `log` holds at the end of its run, first to last.
pub uninterp spec fn calls_of(log: CallLog) -> Seq<BuildCallView>;

/// The texts that `log` holds at the end of its run, first to last.
pub uninterp spec fn texts_of(log: TextLog) -> Seq<Seq<char>>;

/// How a run came to its end.
pub enum RunEnd {
    Finished,
    /// The host function could not be made known to the script.
    SetFunction(Seq<char>),
    /// The module could not be compiled or started.
    Module(Seq<char>),
    /// The script, or the module's evaluation, failed.
    Evaluation(Seq<char>),
}

/// What `Context::with` hands out for a use of `context`: a handle on the same scope,
/// whenever it is used.
pub uninterp spec fn ctx_of(context: Context) -> Ctx<'static>;

/// Whether setting a build function that notes its calls in `log` as the global
/// `function` can end so: with the context that then has it, and that nothing else was
/// done to, or with an error of this text.
pub uninterp spec fn build_function_can_be_set(
    ctx: Ctx<'_>,
    function: Seq<char>,
    log: CallLog,
    set: Result<Ctx<'_>, Seq<char>>,
) -> bool;

/// Whether setting a function of one text that notes its calls in `log` as the global
/// `function` can end so: with the context that then has it, and that nothing else was
/// done to, or with an error of this text.
pub uninterp spec fn text_function_can_be_set(
    ctx: Ctx<'_>,
    function: Seq<char>,
    log: TextLog,
    set: Result<Ctx<'_>, Seq<char>>,
) -> bool;

/// Whether running `code` as a script can end so: well, or with an error of this text.
pub uninterp spec fn script_can_end(
    ctx: Ctx<'_>,
    code: Seq<char>,
    failure: Option<Seq<char>>,
) -> bool;

/// Whether starting to evaluate `source` as the module `name` can end so: with a promise
/// of its end, or with an error of this text.
pub uninterp spec fn module_can_start(
    ctx: Ctx<'_>,
    name: Seq<char>,
    source: Seq<char>,
    started: Result<Promise<'_>, Seq<char>>,
) -> bool;

/// Whether waiting for `promise` can end so: well, or with an error of this text.
pub uninterp spec fn promise_can_end(promise: Promise<'_>, failure: Option<Seq<char>>) -> bool;

/// Whether a script can come to the end `end` in `ctx`, with the build function known as
/// `function`: the function is set, and the script is run if that went well.
pub open spec fn script_ends(
    ctx: Ctx<'_>,
    function: Seq<char>,
    code: Seq<char>,
    log: CallLog,
    end: RunEnd,
) -> bool {
    match end {
        RunEnd::SetFunction(text) => build_function_can_be_set(ctx, function, log, Err(text)),
        RunEnd::Module(_) => false,
        RunEnd::Evaluation(text) => exists|set: Ctx<'_>| #[trigger]
            build_function_can_be_set(ctx, function, log, Ok(set)) && script_can_end(
                set,
                code,
                Some(text),
            ),
        RunEnd::Finished => exists|set: Ctx<'_>| #[trigger]
            build_function_can_be_set(ctx, function, log, Ok(set)) && script_can_end(
                set,
                code,
                None,
            ),
    }
}

/// Whether a module can come to the end `end` in `ctx`: its evaluation is started, and
/// waited for if that went well.
pub open spec fn module_settles(
    ctx: Ctx<'_>,
    name: Seq<char>,
    source: Seq<char>,
    end: RunEnd,
) -> bool {
    match end {
        RunEnd::SetFunction(_) => false,
        RunEnd::Module(text) => module_can_start(ctx, name, source, Err(text)),
        RunEnd::Evaluation(text) => exists|promise: Promise<'_>| #[trigger]
            module_can_start(ctx, name, source, Ok(promise)) && promise_can_end(
                promise,
                Some(text),
            ),
        RunEnd::Finished => exists|promise: Promise<'_>| #[trigger]
            module_can_start(ctx, name, source, Ok(promise)) && promise_can_end(promise, None),
    }
}

/// Whether a module can come to the end `end` in `ctx`, with the build function known as
/// `function`: the function is set, and the module is evaluated if that went well.
pub open spec fn module_ends(
    ctx: Ctx<'_>,
    function: Seq<char>,
    name: Seq<char>,
    source: Seq<char>,
    log: CallLog,
    end: RunEnd,
) -> bool {
    match end {
        RunEnd::SetFunction(text) => build_function_can_be_set(ctx, function, log, Err(text)),
        _ => exists|set: Ctx<'_>| #[trigger]
            build_function_can_be_set(ctx, function, log, Ok(set)) && module_settles(
                set,
                name,
                source,
                end,
            ),
    }
}

/// Whether a module can come to the end `end` in `ctx`, with a function of one text known
/// as `function`: the function is set, and the module is evaluated if that went well.
pub open spec fn config_ends(
    ctx: Ctx<'_>,
    function: Seq<char>,
    name: Seq<char>,
    source: Seq<char>,
    log: TextLog,
    end: RunEnd,
) -> bool {
    match end {
        RunEnd::SetFunction(text) => text_function_can_be_set(ctx, function, log, Err(text)),
        _ => exists|set: Ctx<'_>| #[trigger]
            text_function_can_be_set(ctx, function, log, Ok(set)) && module_settles(
                set,
                name,
                source,
                end,
            ),
    }
}

/// Whether running `code` as a script in `context`, with the build function known as
/// `function`, can make the calls `calls` in this order and come to the end `end`.
pub open spec fn script_can_run(
    context: Context,
    function: Seq<char>,
    code: Seq<char>,
    calls: Seq<BuildCallView>,
    end: RunEnd,
) -> bool {
    exists|log: CallLog| #[trigger]
        calls_of(log) == calls && script_ends(
            ctx_of(context),
            function,
            code,
            log,
            end,
        )
}

/// Whether evaluating `source` as the module `name` in `context`, with the build
/// function known as `function`, can make the calls `calls` in this order and come to
/// the end `end`.
pub open spec fn module_can_run(
    context: Context,
    function: Seq<char>,
    name: Seq<char>,
    source: Seq<char>,
    calls: Seq<BuildCallView>,
    end: RunEnd,
) -> bool {
    exists|log: CallLog| #[trigger]
        calls_of(log) == calls && module_ends(
            ctx_of(context),
            function,
            name,
            source,
            log,
            end,
        )
}

/// Whether evaluating `source` as the module `name` in `context`, with a function of
/// one text known as `function`, can call it with `calls` in this order and come to
/// the end `end`.
pub open spec fn config_can_run(
    context: Context,
    function: Seq<char>,
    name: Seq<char>,
    source: Seq<char>,
    calls: Seq<Seq<char>>,
    end: RunEnd,
) -> bool {
    exists|log: TextLog| #[trigger]
        texts_of(log) == calls && config_ends(
            ctx_of(context),
            function,
            name,
            source,
            log,
            end,
        )
}

/// Whether declaring `source` as the module `name` in this context can end so: with this
/// module, or with an error of this text.
pub uninterp spec fn module_can_be_declared(
    ctx: Ctx<'_>,
    name: Seq<char>,
    source: Seq<char>,
    declared: Result<Module<'_, Declared>, Seq<char>>,
) -> bool;

/// Where a run failed, and why.
pub enum RunFailure {
    SetFunction(rquickjs::Error),
    Module(rquickjs::Error),
    Evaluation(rquickjs::Error),
}

/// The end of a run, with the error as a text.
pub open spec fn end_of(end: Result<(), RunFailure>) -> RunEnd {
    match end {
        Ok(()) => RunEnd::Finished,
        Err(RunFailure::SetFunction(error)) => RunEnd::SetFunction(error_text(error)),
        Err(RunFailure::Module(error)) => RunEnd::Module(error_text(error)),
        Err(RunFailure::Evaluation(error)) => RunEnd::Evaluation(error_text(error)),
    }
}

/// `Error::to_string`: what the error displays.
#[verifier::external_body]
pub(crate) fn error_message(error: &rquickjs::Error) -> (text: String)
    ensures
        text@ == error_text(*error),
{
    error.to_string()
}

/// `Error::new_resolving`: the error that `name` cannot be found from `base`.
#[verifier::external_body]
pub(crate) fn resolving_error(base: &str, name: &str) -> (error: rquickjs::Error)
    ensures
        error_text(error) == "Error resolving module '"@ + name@ + "' from '"@ + base@ + "'"@,
{
    rquickjs::Error::new_resolving(base, name)
}

/// `Error::new_loading_message`: the error that the module `name` cannot be loaded.
/// An empty message is not displayed.
#[verifier::external_body]
pub(crate) fn loading_error(name: &str, message: &str) -> (error: rquickjs::Error)
    ensures
        error_text(error) == if message@.len() == 0 {
            "Error loading module '"@ + name@ + "'"@
        } else {
            "Error loading module '"@ + name@ + "': "@ + message@
        },
{
    rquickjs::Error::new_loading_message(name, message)
}

/// `Runtime::new`: an engine of its own without a module loader, or an error. When it
/// fails depends on the memory there is, and is not stated.
#[verifier::external_body]
pub(crate) fn create_runtime() -> (runtime: Result<Runtime, rquickjs::Error>)
    ensures
        match runtime {
            Ok(runtime) => runtime_can_be_new(runtime),
            Err(error) => runtime_can_fail(error_text(error)),
        },
{
    Runtime::new()
}

/// `Context::full`: a new global scope of this engine with all the standard objects, or
/// an error.
#[verifier::external_body]
pub(crate) fn create_context(runtime: &Runtime) -> (context: Result<Context, rquickjs::Error>)
    ensures
        match context {
            Ok(context) => context_can_be_new(*runtime, context),
            Err(error) => context_can_fail(*runtime, error_text(error)),
        },
{
    Context::full(runtime)
}

/// The text of an error, if there was one.
pub open spec fn failure_of(outcome: Result<(), rquickjs::Error>) -> Option<Seq<char>> {
    match outcome {
        Ok(()) => None,
        Err(error) => Some(error_text(error)),
    }
}

/// `Object::set` on the global object, with a build function as its value. The function
/// notes each of its calls in `log`. The context is handed back.
#[verifier::external_body]
fn set_build_function<'js>(ctx: Ctx<'js>, function: &str, log: &CallLog) -> (set: Result<
    Ctx<'js>,
    rquickjs::Error,
>)
    ensures
        build_function_can_be_set(
            ctx,
            function@,
            *log,
            match set {
                Ok(set) => Ok(set),
                Err(error) => Err(error_text(error)),
            },
        ),
{
    let calls = log.calls.clone();
    let build = move |id: String, json: String, output_type: Opt<String>| {
        record_call(&mut calls.borrow_mut(), id, json, output_type.0)
    };
    ctx.globals().set(function, Func::from(build))?;
    Ok(ctx)
}

/// `Object::set` on the global object, with a function of one text as its value. The
/// function notes each of its calls in `log`. The context is handed back.
#[verifier::external_body]
fn set_text_function<'js>(ctx: Ctx<'js>, function: &str, log: &TextLog) -> (set: Result<
    Ctx<'js>,
    rquickjs::Error,
>)
    ensures
        text_function_can_be_set(
            ctx,
            function@,
            *log,
            match set {
                Ok(set) => Ok(set),
                Err(error) => Err(error_text(error)),
            },
        ),
{
    let calls = log.calls.clone();
    let record = move |text: String| record_text(&mut calls.borrow_mut(), text);
    ctx.globals().set(function, Func::from(record))?;
    Ok(ctx)
}

/// `Ctx::eval`: runs `code` as a script and drops its value. Code with a NUL character is
/// refused.
#[verifier::external_body]
fn eval_script(ctx: Ctx<'_>, code: &str) -> (outcome: Result<(), rquickjs::Error>)
    ensures
        script_can_end(ctx, code@, failure_of(outcome)),
        code@.contains('\0') ==> outcome is Err,
{
    ctx.eval::<(), _>(code)
}

/// `Module::evaluate`: compiles `source` as the module `name`, loads what it imports
/// through the context's loader, and starts to evaluate it. A name or source with a NUL
/// character is refused.
#[verifier::external_body]
fn start_module<'js>(ctx: Ctx<'js>, name: &str, source: &str) -> (started: Result<
    Promise<'js>,
    rquickjs::Error,
>)
    ensures
        module_can_start(
            ctx,
            name@,
            source@,
            match started {
                Ok(promise) => Ok(promise),
                Err(error) => Err(error_text(error)),
            },
        ),
        name@.contains('\0') || source@.contains('\0') ==> started is Err,
{
    Module::evaluate(ctx, name, source)
}

/// `Promise::finish`: works off what is to be done until the promise is settled, or
/// nothing is left to be done, and drops the value.
#[verifier::external_body]
fn finish_promise(promise: Promise<'_>) -> (outcome: Result<(), rquickjs::Error>)
    ensures
        promise_can_end(promise, failure_of(outcome)),
{
    promise.finish::<()>()
}

/// Makes the build function known and runs `code` as a script.
fn evaluate_script(ctx: Ctx<'_>, function: &str, code: &str, log: &CallLog) -> (end: Result<
    (),
    RunFailure,
>)
    ensures
        script_ends(ctx, function@, code@, *log, end_of(end)),
        code@.contains('\0') ==> end is Err,
{
    let set = match set_build_function(ctx, function, log) {
        Ok(set) => set,
        Err(error) => return Err(RunFailure::SetFunction(error)),
    };
    match eval_script(set, code) {
        Ok(()) => Ok(()),
        Err(error) => Err(RunFailure::Evaluation(error)),
    }
}

/// Evaluates `source` as the module `name` and waits for its end.
fn settle_module(ctx: Ctx<'_>, name: &str, source: &str) -> (end: Result<(), RunFailure>)
    ensures
        module_settles(ctx, name@, source@, end_of(end)),
        name@.contains('\0') || source@.contains('\0') ==> end is Err,
{
    let promise = match start_module(ctx, name, source) {
        Ok(promise) => promise,
        Err(error) => return Err(RunFailure::Module(error)),
    };
    match finish_promise(promise) {
        Ok(()) => Ok(()),
        Err(error) => Err(RunFailure::Evaluation(error)),
    }
}

/// Makes the build function known and evaluates `source` as the module `name`.
fn evaluate_module(
    ctx: Ctx<'_>,
    function: &str,
    name: &str,
    source: &str,
    log: &CallLog,
) -> (end: Result<(), RunFailure>)
    ensures
        module_ends(ctx, function@, name@, source@, *log, end_of(end)),
        name@.contains('\0') || source@.contains('\0') ==> end is Err,
{
    match set_build_function(ctx, function, log) {
        Ok(set) => settle_module(set, name, source),
        Err(error) => Err(RunFailure::SetFunction(error)),
    }
}

/// Makes a function of one text known and evaluates `source` as the module `name`.
fn evaluate_config(
    ctx: Ctx<'_>,
    function: &str,
    name: &str,
    source: &str,
    log: &TextLog,
) -> (end: Result<(), RunFailure>)
    ensures
        config_ends(ctx, function@, name@, source@, *log, end_of(end)),
        name@.contains('\0') || source@.contains('\0') ==> end is Err,
{
    match set_text_function(ctx, function, log) {
        Ok(set) => settle_module(set, name, source),
        Err(error) => Err(RunFailure::SetFunction(error)),
    }
}

/// `Context::with`, once: has [`evaluate_script`] do its work in `context`, with a log
/// that starts empty. Returned are what the log then holds, and the end of the run.
#[verifier::external_body]
pub(crate) fn run_script(context: Context, function: &str, code: &str) -> (run: (
    Vec<BuildCall>,
    Result<(), RunFailure>,
))
    ensures
        exists|log: CallLog| #[trigger]
            calls_of(log) == call_views(run.0@) && script_ends(
                ctx_of(context),
                function@,
                code@,
                log,
                end_of(run.1),
            ),
        code@.contains('\0') ==> run.1 is Err,
{
    let log = CallLog { calls: Rc::new(RefCell::new(Vec::new())) };
    let end = context.with(|ctx| evaluate_script(ctx, function, code, &log));
    (log.calls.take(), end)
}

/// `Context::with`, once: has [`evaluate_module`] do its work in `context`, with a log
/// that starts empty. Returned are what the log then holds, and the end of the run.
#[verifier::external_body]
pub(crate) fn run_module(context: Context, function: &str, name: &str, source: &str) -> (run: (
    Vec<BuildCall>,
    Result<(), RunFailure>,
))
    ensures
        exists|log: CallLog| #[trigger]
            calls_of(log) == call_views(run.0@) && module_ends(
                ctx_of(context),
                function@,
                name@,
                source@,
                log,
                end_of(run.1),
            ),
        name@.contains('\0') || source@.contains('\0') ==> run.1 is Err,
{
    let log = CallLog { calls: Rc::new(RefCell::new(Vec::new())) };
    let end = context.with(|ctx| evaluate_module(ctx, function, name, source, &log));
    (log.calls.take(), end)
}

/// Notes one call of a function of one text behind those noted before.
pub fn record_text(calls: &mut Vec<String>, text: String)
    ensures
        final(calls)@ == old(calls)@.push(text),
{
    calls.push(text);
}

/// `Context::with`, once: has [`evaluate_config`] do its work in `context`, with a log
/// that starts empty. Returned are what the log then holds, and the end of the run.
#[verifier::external_body]
pub(crate) fn run_config(context: Context, function: &str, name: &str, source: &str) -> (run: (
    Vec<String>,
    Result<(), RunFailure>,
))
    ensures
        exists|log: TextLog| #[trigger]
            texts_of(log) == texts(run.0@) && config_ends(
                ctx_of(context),
                function@,
                name@,
                source@,
                log,
                end_of(run.1),
            ),
        name@.contains('\0') || source@.contains('\0') ==> run.1 is Err,
{
    let log = TextLog { calls: Rc::new(RefCell::new(Vec::new())) };
    let end = context.with(|ctx| evaluate_config(ctx, function, name, source, &log));
    (log.calls.take(), end)
}

/// `Module::declare`: compiles `source` as the module `name`, loads what it imports
/// through the context's loader, and runs nothing. A name or source with a NUL
/// character is refused.
#[verifier::external_body]
pub(crate) fn declare_module<'js>(ctx: Ctx<'js>, name: &str, source: &str) -> (module: Result<
    Module<'js, Declared>,
    rquickjs::Error,
>)
    ensures
        module_can_be_declared(
            ctx,
            name@,
            source@,
            match module {
                Ok(module) => Ok(module),
                Err(error) => Err(error_text(error)),
            },
        ),
        name@.contains('\0') || source@.contains('\0') ==> module is Err,
{
    Module::declare(ctx, name, source)
}

/// Each failure of a run keeps its place and the text of its error.
pub proof fn law_end_of(error: rquickjs::Error)
    ensures
        end_of(Ok(())) is Finished,
        end_of(Err(RunFailure::SetFunction(error))) == RunEnd::SetFunction(error_text(error)),
        end_of(Err(RunFailure::Module(error))) == RunEnd::Module(error_text(error)),
        end_of(Err(RunFailure::Evaluation(error))) == RunEnd::Evaluation(error_text(error)),
        failure_of(Ok(())) is None,
        failure_of(Err(error)) == Some(error_text(error)),
{
}

/// A script runs once, in the context that it was given, with the build function set on it
/// and nothing else done to it. Its calls are those in the log of that function, and it
/// ends where the first of the two steps fails, with the error of that step.
pub proof fn law_script_run(
    context: Context,
    function: Seq<char>,
    code: Seq<char>,
    calls: Seq<BuildCallView>,
    end: RunEnd,
)
    requires
        script_can_run(context, function, code, calls, end),
    ensures
        exists|log: CallLog| #[trigger]
            calls_of(log) == calls && match end {
                RunEnd::SetFunction(text) => build_function_can_be_set(
                    ctx_of(context),
                    function,
                    log,
                    Err(text),
                ),
                RunEnd::Module(_) => false,
                RunEnd::Evaluation(text) => exists|set: Ctx<'_>| #[trigger]
                    build_function_can_be_set(ctx_of(context), function, log, Ok(set))
                        && script_can_end(set, code, Some(text)),
                RunEnd::Finished => exists|set: Ctx<'_>| #[trigger]
                    build_function_can_be_set(ctx_of(context), function, log, Ok(set))
                        && script_can_end(set, code, None),
            },
{
}

/// A module is evaluated once, in the context that it was given, with the build function
/// set on it and nothing else done to it. Its calls are those in the log of that function,
/// and it ends where the first of the three steps fails, with the error of that step.
pub proof fn law_module_run(
    context: Context,
    function: Seq<char>,
    name: Seq<char>,
    source: Seq<char>,
    calls: Seq<BuildCallView>,
    end: RunEnd,
)
    requires
        module_can_run(context, function, name, source, calls, end),
    ensures
        exists|log: CallLog| #[trigger]
            calls_of(log) == calls && match end {
                RunEnd::SetFunction(text) => build_function_can_be_set(
                    ctx_of(context),
                    function,
                    log,
                    Err(text),
                ),
                RunEnd::Module(text) => exists|set: Ctx<'_>| #[trigger]
                    build_function_can_be_set(ctx_of(context), function, log, Ok(set))
                        && module_can_start(set, name, source, Err(text)),
                RunEnd::Evaluation(text) => exists|set: Ctx<'_>, promise: Promise<'_>|
                    #[trigger] build_function_can_be_set(ctx_of(context), function, log, Ok(set))
                        && #[trigger] module_can_start(set, name, source, Ok(promise))
                        && promise_can_end(promise, Some(text)),
                RunEnd::Finished => exists|set: Ctx<'_>, promise: Promise<'_>|
                    #[trigger] build_function_can_be_set(ctx_of(context), function, log, Ok(set))
                        && #[trigger] module_can_start(set, name, source, Ok(promise))
                        && promise_can_end(promise, None),
            },
{
}

/// A config is evaluated once, in the context that it was given, with the function of one
/// text set on it and nothing else done to it. Its calls are those in the log of that
/// function, and it ends where the first of the three steps fails, with the error of that
/// step.
pub proof fn law_config_run(
    context: Context,
    function: Seq<char>,
    name: Seq<char>,
    source: Seq<char>,
    calls: Seq<Seq<char>>,
    end: RunEnd,
)
    requires
        config_can_run(context, function, name, source, calls, end),
    ensures
        exists|log: TextLog| #[trigger]
            texts_of(log) == calls && match end {
                RunEnd::SetFunction(text) => text_function_can_be_set(
                    ctx_of(context),
                    function,
                    log,
                    Err(text),
                ),
                RunEnd::Module(text) => exists|set: Ctx<'_>| #[trigger]
                    text_function_can_be_set(ctx_of(context), function, log, Ok(set))
                        && module_can_start(set, name, source, Err(text)),
                RunEnd::Evaluation(text) => exists|set: Ctx<'_>, promise: Promise<'_>|
                    #[trigger] text_function_can_be_set(ctx_of(context), function, log, Ok(set))
                        && #[trigger] module_can_start(set, name, source, Ok(promise))
                        && promise_can_end(promise, Some(text)),
                RunEnd::Finished => exists|set: Ctx<'_>, promise: Promise<'_>|
                    #[trigger] text_function_can_be_set(ctx_of(context), function, log, Ok(set))
                        && #[trigger] module_can_start(set, name, source, Ok(promise))
                        && promise_can_end(promise, None),
            },
{
}

} // verus!
