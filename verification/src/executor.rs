//! Running workflows, configs and scripts.
//!
//! A script runs from start to end here. A workflow or a config needs files and a
//! module loader, which are the host's part: each step names what is to be done
//! next, and the next step is told how that went.
use vstd::prelude::*;

use rquickjs::{Context, Runtime};

use crate::error::ExecuteError;
use crate::output::{
    all_typed, build_outputs, call_views, is_first_unknown, law_documents_in_place,
    law_first_unknown, law_first_unknown_exactly, law_output_types, law_typed, law_views,
    output_views, outputs_of, typed, BuildCall, BuildCallView, BuildOutput,
};
use crate::path::{components_of, extension_of, law_plain_parent};
use crate::quickjs::{
    config_can_run, context_can_be_new, context_can_fail, create_context, create_runtime, end_of,
    error_message, error_text, module_can_run, run_config, run_module, run_script,
    runtime_can_be_new, runtime_can_fail, script_can_run, RunEnd, RunFailure,
};
use crate::resolver::{
    cache_after, cache_after_all, import_path, known_source, law_loaded_once,
    law_only_ts_is_stripped, module_source, module_text, resolution,
};
use crate::text::texts;
use crate::typescript::{strip_message, stripped};

verus! {

/// The name that scripts and workflows call the build function by.
pub const BUILD_FUNCTION: &'static str = "__gha_build";

/// The name that a config's entry script hands the config over by.
pub const CONFIG_FUNCTION: &'static str = "__gha_set_config";

/// The name of a config's entry script.
pub const CONFIG_ENTRY: &'static str = "__gaji_config_entry__";

/// A config's entry script up to the path that it imports.
pub const ENTRY_START: &'static str =
    "globalThis.defineConfig = function(c) { return c; };\nconst mod = await import(";

/// A config's entry script behind the path that it imports.
pub const ENTRY_END: &'static str = ");\n__gha_set_config(JSON.stringify(mod.default));";

/// An engine of its own, without a module loader.
pub fn new_runtime() -> (runtime: Result<Runtime, ExecuteError>)
    ensures
        match runtime {
            Ok(runtime) => runtime_can_be_new(runtime),
            Err(error) => is_runtime_error(error),
        },
        runtime matches Err(error) ==> (error matches ExecuteError::CreateRuntime { cause }
            && runtime_can_fail(cause@)),
{
    match create_runtime() {
        Ok(runtime) => Ok(runtime),
        Err(error) => Err(ExecuteError::CreateRuntime { cause: error_message(&error) }),
    }
}

/// Whether this is the error that there is no engine.
pub open spec fn is_runtime_error(error: ExecuteError) -> bool {
    error matches ExecuteError::CreateRuntime { cause } && runtime_can_fail(cause@)
}

/// A new global scope of this engine with all the standard objects.
pub fn new_context(runtime: &Runtime) -> (context: Result<Context, ExecuteError>)
    ensures
        match context {
            Ok(context) => context_can_be_new(*runtime, context),
            Err(error) => is_context_error(*runtime, error),
        },
        context matches Err(error) ==> (error matches ExecuteError::CreateContext { cause }
            && context_can_fail(*runtime, cause@)),
{
    match create_context(runtime) {
        Ok(context) => Ok(context),
        Err(error) => Err(ExecuteError::CreateContext { cause: error_message(&error) }),
    }
}

/// Whether this is the error that the engine has no further global scope.
pub open spec fn is_context_error(runtime: Runtime, error: ExecuteError) -> bool {
    error matches ExecuteError::CreateContext { cause } && context_can_fail(runtime, cause@)
}

/// Whether `function` could not be made known, for the reason `cause`.
pub open spec fn is_set_error(error: ExecuteError, function: Seq<char>, cause: Seq<char>) -> bool {
    error matches ExecuteError::SetFunction { function: found, cause: why } && found@ == function
        && why@ == cause
}

/// Whether `result` is what a finished run gives that made these calls: a document for
/// each call, in their order, or the first type that is not known, if a call asked for
/// one.
pub open spec fn is_build_result(
    result: Result<Vec<BuildOutput>, ExecuteError>,
    calls: Seq<BuildCallView>,
) -> bool {
    match result {
        Ok(outputs) => typed(calls) && output_views(outputs@) == outputs_of(calls),
        Err(error) => {
            &&& !typed(calls)
            &&& error matches ExecuteError::UnknownOutputType { output_type }
            &&& is_first_unknown(calls, output_type@)
        },
    }
}

/// Whether `result` is what a script gives that made these calls and came to this
/// end: what it built, if it finished, and its error otherwise. A script is no module; a
/// failure to start one would be an error like any other.
pub open spec fn is_script_result(
    result: Result<Vec<BuildOutput>, ExecuteError>,
    calls: Seq<BuildCallView>,
    end: RunEnd,
) -> bool {
    match (end, result) {
        (RunEnd::Finished, _) => is_build_result(result, calls),
        (RunEnd::SetFunction(text), Err(error)) => is_set_error(error, BUILD_FUNCTION@, text),
        (RunEnd::Module(text), Err(error)) => error matches ExecuteError::Script { cause }
            && cause@ == text,
        (RunEnd::Evaluation(text), Err(error)) => error matches ExecuteError::Script { cause }
            && cause@ == text,
        _ => false,
    }
}

/// Whether `result` is what a workflow gives that made these calls and came to this
/// end: what it built, if it finished, and its error otherwise.
pub open spec fn is_workflow_result(
    result: Result<Vec<BuildOutput>, ExecuteError>,
    calls: Seq<BuildCallView>,
    end: RunEnd,
) -> bool {
    match (end, result) {
        (RunEnd::Finished, _) => is_build_result(result, calls),
        (RunEnd::SetFunction(text), Err(error)) => is_set_error(error, BUILD_FUNCTION@, text),
        (RunEnd::Module(text), Err(error)) => error matches ExecuteError::WorkflowModule { cause }
            && cause@ == text,
        (RunEnd::Evaluation(text), Err(error)) => {
            error matches ExecuteError::WorkflowEvaluation { cause } && cause@ == text
        },
        _ => false,
    }
}

/// Whether `result` is what a config gives that called the config function with
/// these texts and came to this end: the last of the texts, if it finished, and its
/// error otherwise. A config that finished without a call is an error.
pub open spec fn is_config_result(
    result: Result<String, ExecuteError>,
    calls: Seq<Seq<char>>,
    end: RunEnd,
) -> bool {
    match (end, result) {
        (RunEnd::Finished, Ok(json)) => calls.len() > 0 && json@ == calls.last(),
        (RunEnd::Finished, Err(error)) => calls.len() == 0 && error is ConfigNotSet,
        (RunEnd::SetFunction(text), Err(error)) => is_set_error(error, CONFIG_FUNCTION@, text),
        (RunEnd::Module(text), Err(error)) => error matches ExecuteError::ConfigModule { cause }
            && cause@ == text,
        (RunEnd::Evaluation(text), Err(error)) => {
            error matches ExecuteError::ConfigEvaluation { cause } && cause@ == text
        },
        _ => false,
    }
}

/// What a finished run gives that made these calls.
pub fn build_outcome(calls: Vec<BuildCall>) -> (result: Result<Vec<BuildOutput>, ExecuteError>)
    ensures
        is_build_result(result, call_views(calls@)),
        result matches Ok(outputs) ==> all_typed(outputs@),
{
    let ghost made = call_views(calls@);
    match build_outputs(calls) {
        Ok(outputs) => {
            proof {
                law_typed(outputs@, made);
            }
            Ok(outputs)
        },
        Err(output_type) => Err(ExecuteError::UnknownOutputType { output_type }),
    }
}

/// What a script gives that made these calls and came to this end.
pub fn script_outcome(calls: Vec<BuildCall>, end: Result<(), RunFailure>) -> (result: Result<
    Vec<BuildOutput>,
    ExecuteError,
>)
    ensures
        is_script_result(result, call_views(calls@), end_of(end)),
        result matches Ok(outputs) ==> all_typed(outputs@),
{
    match end {
        Ok(()) => build_outcome(calls),
        Err(RunFailure::SetFunction(error)) => Err(
            ExecuteError::SetFunction {
                function: BUILD_FUNCTION.to_owned(),
                cause: error_message(&error),
            },
        ),
        Err(RunFailure::Module(error)) | Err(RunFailure::Evaluation(error)) => Err(
            ExecuteError::Script { cause: error_message(&error) },
        ),
    }
}

/// What a workflow gives that made these calls and came to this end.
pub fn workflow_outcome(calls: Vec<BuildCall>, end: Result<(), RunFailure>) -> (result: Result<
    Vec<BuildOutput>,
    ExecuteError,
>)
    ensures
        is_workflow_result(result, call_views(calls@), end_of(end)),
        result matches Ok(outputs) ==> all_typed(outputs@),
{
    match end {
        Ok(()) => build_outcome(calls),
        Err(RunFailure::SetFunction(error)) => Err(
            ExecuteError::SetFunction {
                function: BUILD_FUNCTION.to_owned(),
                cause: error_message(&error),
            },
        ),
        Err(RunFailure::Module(error)) => Err(
            ExecuteError::WorkflowModule { cause: error_message(&error) },
        ),
        Err(RunFailure::Evaluation(error)) => Err(
            ExecuteError::WorkflowEvaluation { cause: error_message(&error) },
        ),
    }
}

/// What a config gives that called the config function with these texts and came to
/// this end.
pub fn config_outcome(calls: Vec<String>, end: Result<(), RunFailure>) -> (result: Result<
    String,
    ExecuteError,
>)
    ensures
        is_config_result(result, texts(calls@), end_of(end)),
{
    match end {
        Ok(()) => {
            let mut calls = calls;
            match calls.pop() {
                Some(json) => Ok(json),
                None => Err(ExecuteError::ConfigNotSet),
            }
        },
        Err(RunFailure::SetFunction(error)) => Err(
            ExecuteError::SetFunction {
                function: CONFIG_FUNCTION.to_owned(),
                cause: error_message(&error),
            },
        ),
        Err(RunFailure::Module(error)) => Err(
            ExecuteError::ConfigModule { cause: error_message(&error) },
        ),
        Err(RunFailure::Evaluation(error)) => Err(
            ExecuteError::ConfigEvaluation { cause: error_message(&error) },
        ),
    }
}

/// Runs `code` as a script, in a new global scope of a new engine, and collects what it
/// builds.
pub fn execute_js(code: &str) -> (result: Result<Vec<BuildOutput>, ExecuteError>)
    ensures
        ({
            ||| result matches Err(error) && is_runtime_error(error)
            ||| exists|runtime: Runtime, error: ExecuteError| #[trigger]
                is_context_error(runtime, error) && runtime_can_be_new(runtime) && result == Err::<
                    Vec<BuildOutput>,
                    _,
                >(error)
            ||| exists|runtime: Runtime, context: Context, calls: Seq<BuildCallView>, end: RunEnd|
                runtime_can_be_new(runtime) && #[trigger] context_can_be_new(runtime, context)
                    && #[trigger] script_can_run(context, BUILD_FUNCTION@, code@, calls, end)
                    && is_script_result(result, calls, end)
        }),
        result matches Ok(outputs) ==> all_typed(outputs@),
        code@.contains('\0') ==> result is Err,
{
    let runtime = match new_runtime() {
        Ok(runtime) => runtime,
        Err(error) => return Err(error),
    };
    let context = match new_context(&runtime) {
        Ok(context) => context,
        Err(error) => return Err(error),
    };
    let ghost used = context;
    let (calls, end) = run_script(context, BUILD_FUNCTION, code);
    assert(script_can_run(used, BUILD_FUNCTION@, code@, call_views(calls@), end_of(end)));
    script_outcome(calls, end)
}

/// What the host is to do next for a workflow.
pub enum WorkflowTask {
    /// Make the path of the workflow canonical.
    Canonicalize,
    /// Read the file at this canonical path.
    Read { path: String },
    /// Prepare a context whose loader finds the workflow's imports. The module that is
    /// then run has this path for its name, and this source.
    Prepare { path: String, source: String },
}

/// How a [`WorkflowTask`] went. Where it failed, a text says why.
pub enum WorkflowReply {
    Path(Result<String, String>),
    Text(Result<String, String>),
    Context(Result<Context, ExecuteError>),
}

/// What a workflow has come to.
pub enum WorkflowStep {
    Task(WorkflowTask),
    Finished(Result<Vec<BuildOutput>, ExecuteError>),
}

/// Whether `step` follows from `reply` to `task`. A reply to another task changes
/// nothing: the task is still to be done.
pub open spec fn follows_workflow(
    task: WorkflowTask,
    reply: WorkflowReply,
    step: WorkflowStep,
) -> bool {
    match (task, reply) {
        (WorkflowTask::Canonicalize, WorkflowReply::Path(Ok(canonical))) => {
            &&& step matches WorkflowStep::Task(WorkflowTask::Read { path })
            &&& path@ == canonical@
        },
        (WorkflowTask::Canonicalize, WorkflowReply::Path(Err(reason))) => {
            &&& step matches WorkflowStep::Finished(
                Err(ExecuteError::CanonicalizeWorkflow { cause }),
            )
            &&& cause@ == reason@
        },
        (WorkflowTask::Read { path: canonical }, WorkflowReply::Text(Ok(raw))) => {
            match module_text(canonical@, raw@) {
                Ok(text) => {
                    &&& step matches WorkflowStep::Task(WorkflowTask::Prepare { path, source })
                    &&& path@ == canonical@
                    &&& source@ == text
                },
                Err(errors) => {
                    &&& step matches WorkflowStep::Finished(
                        Err(ExecuteError::StripWorkflow { path, rejection }),
                    )
                    &&& path@ == canonical@
                    &&& texts(rejection.errors@) == errors
                },
            }
        },
        (WorkflowTask::Read { path: canonical }, WorkflowReply::Text(Err(reason))) => {
            &&& step matches WorkflowStep::Finished(
                Err(ExecuteError::ReadWorkflow { path, cause }),
            )
            &&& path@ == canonical@
            &&& cause@ == reason@
        },
        (WorkflowTask::Prepare { path, source }, WorkflowReply::Context(Ok(context))) => {
            &&& step matches WorkflowStep::Finished(result)
            &&& exists|calls: Seq<BuildCallView>, end: RunEnd| #[trigger]
                module_can_run(context, BUILD_FUNCTION@, path@, source@, calls, end)
                    && is_workflow_result(result, calls, end)
            &&& path@.contains('\0') || source@.contains('\0') ==> result is Err
            &&& result matches Ok(outputs) ==> all_typed(outputs@)
        },
        (WorkflowTask::Prepare { .. }, WorkflowReply::Context(Err(reason))) => {
            &&& step matches WorkflowStep::Finished(Err(error))
            &&& error == reason
        },
        _ => step == WorkflowStep::Task(task),
    }
}

/// Goes on with a workflow, now that the host has done `task` and had `reply`. A
/// workflow starts with [`WorkflowTask::Canonicalize`].
///
/// The file is read at its canonical path; a `.ts` file is stripped; what is left is
/// run as a module under that path; the calls of the build function are the result.
pub fn execute_workflow(task: WorkflowTask, reply: WorkflowReply) -> (step: WorkflowStep)
    ensures
        follows_workflow(task, reply, step),
{
    match (task, reply) {
        (WorkflowTask::Canonicalize, WorkflowReply::Path(canonical)) => match canonical {
            Ok(path) => WorkflowStep::Task(WorkflowTask::Read { path }),
            Err(cause) => WorkflowStep::Finished(
                Err(ExecuteError::CanonicalizeWorkflow { cause }),
            ),
        },
        (WorkflowTask::Read { path }, WorkflowReply::Text(raw)) => match raw {
            Ok(raw) => match module_source(path.as_str(), raw) {
                Ok(source) => WorkflowStep::Task(WorkflowTask::Prepare { path, source }),
                Err(rejection) => WorkflowStep::Finished(
                    Err(ExecuteError::StripWorkflow { path, rejection }),
                ),
            },
            Err(cause) => WorkflowStep::Finished(Err(ExecuteError::ReadWorkflow { path, cause })),
        },
        (WorkflowTask::Prepare { path, source }, WorkflowReply::Context(context)) => match context {
            Ok(context) => {
                let ghost used = context;
                let (calls, end) = run_module(
                    context,
                    BUILD_FUNCTION,
                    path.as_str(),
                    source.as_str(),
                );
                assert(module_can_run(
                    used,
                    BUILD_FUNCTION@,
                    path@,
                    source@,
                    call_views(calls@),
                    end_of(end),
                ));
                WorkflowStep::Finished(workflow_outcome(calls, end))
            },
            Err(error) => WorkflowStep::Finished(Err(error)),
        },
        (task, _) => WorkflowStep::Task(task),
    }
}

/// What `{:?}` prints for a text: the text as a string literal.
pub uninterp spec fn quoted_text(text: Seq<char>) -> Seq<char>;

/// Where the string literal ends that `text` is in at `from`: at the next quote that no
/// backslash stands for.
pub open spec fn closing_quote(text: Seq<char>, from: int) -> Option<int>
    decreases text.len() + 1 - from,
{
    if from < 0 || from >= text.len() {
        None
    } else if text[from] == '"' {
        Some(from)
    } else if text[from] == '\\' {
        closing_quote(text, from + 2)
    } else {
        closing_quote(text, from + 1)
    }
}

/// Whether `text` is one string literal, from its first character to its last, and all
/// on one line.
pub open spec fn is_string_literal(text: Seq<char>) -> bool {
    &&& text.len() >= 2
    &&& text[0] == '"'
    &&& closing_quote(text, 1) == Some(text.len() - 1)
    &&& !text.contains('\n') && !text.contains('\r')
}

/// Whether `text` holds nothing but printable ASCII without quotes and backslashes.
pub open spec fn needs_no_escape(text: Seq<char>) -> bool {
    forall|i: int|
        0 <= i < text.len() ==> ' ' <= #[trigger] text[i] <= '~' && text[i] != '"' && text[i] != '\''
            && text[i] != '\\'
}

/// `format!` with `{:?}`: the text as one string literal, with what cannot stand in one
/// escaped. A text without quotes, backslashes and characters beyond printable ASCII is
/// only put between quotes; how the others are escaped is not stated.
#[verifier::external_body]
fn quote(text: &str) -> (quoted: String)
    ensures
        quoted@ == quoted_text(text@),
        is_string_literal(quoted@),
        needs_no_escape(text@) ==> quoted@ == "\""@ + text@ + "\""@,
{
    format!("{:?}", text)
}

/// The entry script of a config, where `quoted` is the config's path as a string
/// literal. The global `defineConfig` is there before the config is imported.
pub open spec fn entry_text(quoted: Seq<char>) -> Seq<char> {
    ENTRY_START@ + quoted + ENTRY_END@
}

/// The entry script of a config, where `quoted` is the config's path as a string
/// literal.
pub fn config_entry(quoted: &str) -> (entry: String)
    ensures
        entry@ == entry_text(quoted@),
{
    let mut entry = ENTRY_START.to_owned();
    entry.append(quoted);
    entry.append(ENTRY_END);
    entry
}

/// What the host is to do next for a config.
pub enum ConfigTask {
    /// Make the path of the config canonical.
    Canonicalize,
    /// Prepare a context whose loader finds the config and its imports. The entry
    /// script that is then run has this source.
    Prepare { source: String },
}

/// How a [`ConfigTask`] went. Where it failed, a text says why.
pub enum ConfigReply {
    Path(Result<String, String>),
    Context(Result<Context, ExecuteError>),
}

/// What a config has come to.
pub enum ConfigStep {
    Task(ConfigTask),
    Finished(Result<String, ExecuteError>),
}

/// Whether `step` follows from `reply` to `task`. A reply to another task changes
/// nothing: the task is still to be done.
pub open spec fn follows_config(task: ConfigTask, reply: ConfigReply, step: ConfigStep) -> bool {
    match (task, reply) {
        (ConfigTask::Canonicalize, ConfigReply::Path(Ok(canonical))) => {
            &&& step matches ConfigStep::Task(ConfigTask::Prepare { source })
            &&& source@ == entry_text(quoted_text(canonical@))
            &&& is_string_literal(quoted_text(canonical@))
            &&& needs_no_escape(canonical@) ==> quoted_text(canonical@) == "\""@ + canonical@
                + "\""@
        },
        (ConfigTask::Canonicalize, ConfigReply::Path(Err(reason))) => {
            &&& step matches ConfigStep::Finished(
                Err(ExecuteError::CanonicalizeConfig { cause }),
            )
            &&& cause@ == reason@
        },
        (ConfigTask::Prepare { source }, ConfigReply::Context(Ok(context))) => {
            &&& step matches ConfigStep::Finished(result)
            &&& exists|calls: Seq<Seq<char>>, end: RunEnd| #[trigger]
                config_can_run(context, CONFIG_FUNCTION@, CONFIG_ENTRY@, source@, calls, end)
                    && is_config_result(result, calls, end)
            &&& source@.contains('\0') ==> result is Err
        },
        (ConfigTask::Prepare { .. }, ConfigReply::Context(Err(reason))) => {
            &&& step matches ConfigStep::Finished(Err(error))
            &&& error == reason
        },
        _ => step == ConfigStep::Task(task),
    }
}

/// Goes on with a config, now that the host has done `task` and had `reply`. A
/// config starts with [`ConfigTask::Canonicalize`].
///
/// An entry script sets the global `defineConfig`, imports the config by its
/// canonical path, and hands its default export over as JSON.
pub fn execute_config(task: ConfigTask, reply: ConfigReply) -> (step: ConfigStep)
    ensures
        follows_config(task, reply, step),
{
    match (task, reply) {
        (ConfigTask::Canonicalize, ConfigReply::Path(canonical)) => match canonical {
            Ok(path) => {
                let quoted = quote(path.as_str());
                ConfigStep::Task(ConfigTask::Prepare { source: config_entry(quoted.as_str()) })
            },
            Err(cause) => ConfigStep::Finished(Err(ExecuteError::CanonicalizeConfig { cause })),
        },
        (ConfigTask::Prepare { source }, ConfigReply::Context(context)) => match context {
            Ok(context) => {
                let ghost used = context;
                let (calls, end) = run_config(
                    context,
                    CONFIG_FUNCTION,
                    CONFIG_ENTRY,
                    source.as_str(),
                );
                assert(config_can_run(
                    used,
                    CONFIG_FUNCTION@,
                    CONFIG_ENTRY@,
                    source@,
                    texts(calls@),
                    end_of(end),
                ));
                ConfigStep::Finished(config_outcome(calls, end))
            },
            Err(error) => ConfigStep::Finished(Err(error)),
        },
        (task, _) => ConfigStep::Task(task),
    }
}

/// Whether two results say the same: the same documents, or the same error with the
/// same cause.
pub open spec fn same_outputs(
    a: Result<Vec<BuildOutput>, ExecuteError>,
    b: Result<Vec<BuildOutput>, ExecuteError>,
) -> bool {
    match (a, b) {
        (Ok(a), Ok(b)) => output_views(a@) == output_views(b@),
        (Err(a), Err(b)) => a.message_text() == b.message_text() && a.cause_text()
            == b.cause_text(),
        _ => false,
    }
}

/// Whether two results say the same: the same config, or the same error with the
/// same cause.
pub open spec fn same_config(
    a: Result<String, ExecuteError>,
    b: Result<String, ExecuteError>,
) -> bool {
    match (a, b) {
        (Ok(a), Ok(b)) => a@ == b@,
        (Err(a), Err(b)) => a.message_text() == b.message_text() && a.cause_text()
            == b.cause_text(),
        _ => false,
    }
}

/// The calls of the build function and the end of the run settle what a script or a
/// workflow gives.
pub proof fn law_calls_settle_outputs(
    a: Result<Vec<BuildOutput>, ExecuteError>,
    b: Result<Vec<BuildOutput>, ExecuteError>,
    calls: Seq<BuildCallView>,
    end: RunEnd,
)
    ensures
        is_script_result(a, calls, end) && is_script_result(b, calls, end) ==> same_outputs(a, b),
        is_workflow_result(a, calls, end) && is_workflow_result(b, calls, end) ==> same_outputs(
            a,
            b,
        ),
{
    if let (
        Err(ExecuteError::UnknownOutputType { output_type: first }),
        Err(ExecuteError::UnknownOutputType { output_type: second }),
    ) = (a, b) {
        law_first_unknown(calls, first@, second@);
    }
}

/// The calls of the config function and the end of the run settle what a config
/// gives; of the calls, the last alone counts.
pub proof fn law_last_call_settles_config(
    a: Result<String, ExecuteError>,
    b: Result<String, ExecuteError>,
    earlier: Seq<Seq<char>>,
    other: Seq<Seq<char>>,
    last: Seq<char>,
    end: RunEnd,
)
    ensures
        is_config_result(a, earlier.push(last), end) && is_config_result(b, other.push(last), end)
            ==> same_config(a, b),
        is_config_result(a, Seq::empty(), end) && is_config_result(b, Seq::empty(), end)
            ==> same_config(a, b),
        is_config_result(a, earlier.push(last), RunEnd::Finished) ==> (a matches Ok(json) && json@
            == last),
{
}

/// What a workflow runs is settled by its path and the text that was read of it just
/// then: no cache and no earlier run comes into it.
pub proof fn law_workflow_is_read_afresh(
    canonical: String,
    raw: String,
    a: WorkflowStep,
    b: WorkflowStep,
)
    requires
        follows_workflow(WorkflowTask::Read { path: canonical }, WorkflowReply::Text(Ok(raw)), a),
        follows_workflow(WorkflowTask::Read { path: canonical }, WorkflowReply::Text(Ok(raw)), b),
    ensures
        match (a, b) {
            (WorkflowStep::Task(first), WorkflowStep::Task(second)) => {
                &&& first matches WorkflowTask::Prepare { path, source }
                &&& second matches WorkflowTask::Prepare { path: same_path, source: same_source }
                &&& path@ == same_path@
                &&& source@ == same_source@
            },
            (WorkflowStep::Finished(first), WorkflowStep::Finished(second)) => {
                &&& first is Err
                &&& same_outputs(first, second)
            },
            _ => false,
        },
{
}

/// The entry script of a config imports it by its canonical path, which leads to that
/// file. So the config is loaded like any module: if it was loaded before, the source
/// that was kept is run, and not what its file holds by then.
pub proof fn law_config_is_kept(
    canonical: Seq<char>,
    disk: spec_fn(Seq<char>) -> Option<Seq<char>>,
    cache: Map<Seq<char>, Seq<char>>,
    raw: Seq<char>,
    loads: Seq<(Seq<char>, Option<Seq<char>>)>,
    later: Option<Seq<char>>,
)
    requires
        disk(canonical) == Some(canonical),
        known_source(cache, canonical) is None,
        module_text(canonical, raw) is Ok,
    ensures
        resolution(CONFIG_ENTRY@, canonical, disk) == Some(canonical),
        ({
            let kept = cache_after_all(cache_after(cache, canonical, Some(raw)), loads);
            &&& known_source(kept, canonical) == Some(module_text(canonical, raw)->Ok_0)
            &&& cache_after(kept, canonical, later) == kept
        }),
{
    reveal_strlit("__gaji_config_entry__");
    law_plain_parent(CONFIG_ENTRY@);
    assert(import_path(CONFIG_ENTRY@, canonical) == canonical);
    law_loaded_once(cache, canonical, raw, loads, later);
}

proof fn lemma_closing_quote(before: Seq<char>, text: Seq<char>, behind: Seq<char>, from: int)
    requires
        0 <= from,
        closing_quote(text, from) is Some,
    ensures
        closing_quote(before + text + behind, before.len() + from) == Some(
            before.len() + closing_quote(text, from)->0,
        ),
    decreases text.len() + 1 - from,
{
    let whole = before + text + behind;
    assert(from < text.len());
    assert(whole[before.len() + from] == text[from]);
    if text[from] == '"' {
    } else if text[from] == '\\' {
        lemma_closing_quote(before, text, behind, from + 2);
    } else {
        lemma_closing_quote(before, text, behind, from + 1);
    }
}

/// Whatever its path, a config cannot add to the entry script that imports it: the string
/// literal in the `import` ends where the quoted path ends.
pub proof fn law_entry_holds_one_literal(quoted: Seq<char>)
    requires
        is_string_literal(quoted),
    ensures
        ({
            let start = ENTRY_START@.len() as int;
            let end = start + quoted.len();
            &&& entry_text(quoted).subrange(start, end) == quoted
            &&& closing_quote(entry_text(quoted), start + 1) == Some(end - 1)
        }),
{
    lemma_closing_quote(ENTRY_START@, quoted, ENTRY_END@, 1);
}

/// What a finished run built is what its calls handed over: for each call, in its place,
/// the id and the JSON as they came and the type that was asked for. It is refused exactly
/// if a type is neither "workflow" nor "action", and the error names the first such type.
pub proof fn law_built_from_calls(
    result: Result<Vec<BuildOutput>, ExecuteError>,
    calls: Seq<BuildCallView>,
)
    ensures
        is_script_result(result, calls, RunEnd::Finished) <==> is_workflow_result(
            result,
            calls,
            RunEnd::Finished,
        ),
        is_script_result(result, calls, RunEnd::Finished) ==> match result {
            Ok(outputs) => {
                &&& outputs@.len() == calls.len()
                &&& forall|i: int|
                    0 <= i < calls.len() ==> {
                        &&& (#[trigger] outputs@[i]).id@ == calls[i].id
                        &&& outputs@[i].json@ == calls[i].json
                        &&& outputs@[i].output_type@ == match calls[i].output_type {
                            Some(output_type) => output_type,
                            None => "workflow"@,
                        }
                        &&& outputs@[i].output_type@ == "workflow"@ || outputs@[i].output_type@
                            == "action"@
                    }
            },
            Err(error) => {
                &&& error matches ExecuteError::UnknownOutputType { output_type }
                &&& exists|i: int|
                    {
                        &&& 0 <= i < calls.len()
                        &&& (#[trigger] calls[i]).output_type == Some(output_type@)
                        &&& output_type@ != "workflow"@ && output_type@ != "action"@
                        &&& forall|j: int|
                            0 <= j < i ==> ((#[trigger] calls[j]).output_type matches Some(asked)
                                ==> asked == "workflow"@ || asked == "action"@)
                    }
            },
        },
{
    if is_script_result(result, calls, RunEnd::Finished) {
        match result {
            Ok(outputs) => {
                law_typed(outputs@, calls);
                law_views(Seq::empty(), outputs@, 0);
                assert(outputs@.len() == calls.len()) by {
                    assert(outputs_of(calls).len() == calls.len());
                }
                assert forall|i: int| 0 <= i < calls.len() implies {
                    &&& (#[trigger] outputs@[i]).id@ == calls[i].id
                    &&& outputs@[i].json@ == calls[i].json
                    &&& outputs@[i].output_type@ == match calls[i].output_type {
                        Some(output_type) => output_type,
                        None => "workflow"@,
                    }
                    &&& outputs@[i].output_type@ == "workflow"@ || outputs@[i].output_type@
                        == "action"@
                } by {
                    law_views(Seq::empty(), outputs@, i);
                    law_documents_in_place(calls, i);
                    law_output_types(outputs@[i].output_type@, calls);
                }
            },
            Err(error) => {
                if let ExecuteError::UnknownOutputType { output_type } = error {
                    law_first_unknown_exactly(calls, output_type@);
                }
            },
        }
    }
}

/// A run that failed gives no documents: a script, a workflow and a config each report the
/// step that failed, and the engine's words in full. A script that failed to start reports
/// so like one that failed.
pub proof fn law_failures_are_reported(
    script: Result<Vec<BuildOutput>, ExecuteError>,
    workflow: Result<Vec<BuildOutput>, ExecuteError>,
    config: Result<String, ExecuteError>,
    calls: Seq<BuildCallView>,
    texts: Seq<Seq<char>>,
    text: Seq<char>,
)
    ensures
        is_script_result(script, calls, RunEnd::SetFunction(text)) ==> (script matches Err(error)
            && error.message_text() == "Failed to set "@ + "__gha_build"@ + ": "@ + text),
        is_script_result(script, calls, RunEnd::Module(text)) ==> (script matches Err(error)
            && error.message_text() == "QuickJS evaluation error: "@ + text),
        is_script_result(script, calls, RunEnd::Evaluation(text)) ==> (script matches Err(error)
            && error.message_text() == "QuickJS evaluation error: "@ + text),
        is_workflow_result(workflow, calls, RunEnd::SetFunction(text)) ==> (workflow matches Err(
            error,
        ) && error.message_text() == "Failed to set "@ + "__gha_build"@ + ": "@ + text),
        is_workflow_result(workflow, calls, RunEnd::Module(text)) ==> (workflow matches Err(error)
            && error.message_text() == "QuickJS workflow module error: "@ + text),
        is_workflow_result(workflow, calls, RunEnd::Evaluation(text)) ==> (workflow matches Err(
            error,
        ) && error.message_text() == "QuickJS workflow evaluation error: "@ + text),
        is_config_result(config, texts, RunEnd::SetFunction(text)) ==> (config matches Err(error)
            && error.message_text() == "Failed to set "@ + "__gha_set_config"@ + ": "@ + text),
        is_config_result(config, texts, RunEnd::Module(text)) ==> (config matches Err(error)
            && error.message_text() == "QuickJS config module error: "@ + text),
        is_config_result(config, texts, RunEnd::Evaluation(text)) ==> (config matches Err(error)
            && error.message_text() == "QuickJS config evaluation error: "@ + text),
{
}

/// A config that finished is the text that it handed over last, in full, and an error
/// exactly if it handed over none.
pub proof fn law_config_is_the_last_text(
    result: Result<String, ExecuteError>,
    texts: Seq<Seq<char>>,
)
    requires
        is_config_result(result, texts, RunEnd::Finished),
    ensures
        texts.len() > 0 ==> (result matches Ok(json) && json@ == texts[texts.len() - 1]),
        texts.len() == 0 ==> (result matches Err(error) && error.message_text()
            == "Config did not call __gha_set_config"@),
{
}

/// The entry script of a config sets the global `defineConfig` to the identity, imports the
/// config, and hands over its default export as JSON, in this order and nothing more.
pub proof fn law_entry_script(quoted: Seq<char>)
    ensures
        entry_text(quoted)
            == "globalThis.defineConfig = function(c) { return c; };\nconst mod = await import("@
            + quoted + ");\n__gha_set_config(JSON.stringify(mod.default));"@,
{
}

/// A workflow goes from its path to its text to its run. What is run is the text that was
/// read: stripped under the last component of the path if that has the extension `ts`, and
/// as it was read otherwise. It is run under its path. Where a step fails, the workflow
/// ends with an error that names the path and the reason in full.
pub proof fn law_workflow_steps(
    path: String,
    raw: String,
    source: String,
    reason: String,
    step: WorkflowStep,
)
    ensures
        follows_workflow(WorkflowTask::Canonicalize, WorkflowReply::Path(Ok(path)), step) ==> (step
            matches WorkflowStep::Task(WorkflowTask::Read { path: read }) && read@ == path@),
        follows_workflow(WorkflowTask::Canonicalize, WorkflowReply::Path(Err(reason)), step) ==> (
        step matches WorkflowStep::Finished(Err(error)) && error.message_text()
            == "Failed to canonicalize workflow path"@ && error.cause_text() == Some(reason@)),
        follows_workflow(WorkflowTask::Read { path }, WorkflowReply::Text(Err(reason)), step) ==> (
        step matches WorkflowStep::Finished(Err(error)) && error.message_text()
            == "Failed to read workflow: "@ + path@ && error.cause_text() == Some(reason@)),
        follows_workflow(WorkflowTask::Read { path }, WorkflowReply::Text(Ok(raw)), step) ==> {
            let text = if extension_of(path@) == Some("ts"@) {
                stripped(raw@, components_of(path@).last())
            } else {
                Ok(raw@)
            };
            match text {
                Ok(text) => {
                    &&& step matches WorkflowStep::Task(WorkflowTask::Prepare { path: name, source })
                    &&& name@ == path@
                    &&& source@ == text
                },
                Err(errors) => {
                    &&& step matches WorkflowStep::Finished(Err(error))
                    &&& error.message_text() == "Failed to strip TypeScript: "@ + path@
                    &&& error.cause_text() == Some(strip_message(errors))
                },
            }
        },
        forall|context: Context| #[trigger]
            follows_workflow(
                WorkflowTask::Prepare { path, source },
                WorkflowReply::Context(Ok(context)),
                step,
            ) ==> (step matches WorkflowStep::Finished(result) && exists|
                calls: Seq<BuildCallView>,
                end: RunEnd,
            | #[trigger]
                module_can_run(context, "__gha_build"@, path@, source@, calls, end)
                    && is_workflow_result(result, calls, end)),
        forall|error: ExecuteError| #[trigger]
            follows_workflow(
                WorkflowTask::Prepare { path, source },
                WorkflowReply::Context(Err(error)),
                step,
            ) ==> (step matches WorkflowStep::Finished(Err(given)) && given == error),
{
    law_only_ts_is_stripped(path@, raw@);
}

/// A config goes from its path to the run of its entry script, which imports that path, all
/// of it. Where the path cannot be found, the error gives the reason in full.
pub proof fn law_config_steps(path: String, source: String, reason: String, step: ConfigStep)
    ensures
        follows_config(ConfigTask::Canonicalize, ConfigReply::Path(Ok(path)), step) ==> (step
            matches ConfigStep::Task(ConfigTask::Prepare { source }) && source@ == entry_text(
            quoted_text(path@),
        )),
        follows_config(ConfigTask::Canonicalize, ConfigReply::Path(Err(reason)), step) ==> (step
            matches ConfigStep::Finished(Err(error)) && error.message_text()
            == "Failed to canonicalize config path"@ && error.cause_text() == Some(reason@)),
        forall|context: Context| #[trigger]
            follows_config(
                ConfigTask::Prepare { source },
                ConfigReply::Context(Ok(context)),
                step,
            ) ==> (step matches ConfigStep::Finished(result) && exists|
                calls: Seq<Seq<char>>,
                end: RunEnd,
            | #[trigger]
                config_can_run(
                    context,
                    "__gha_set_config"@,
                    "__gaji_config_entry__"@,
                    source@,
                    calls,
                    end,
                ) && is_config_result(result, calls, end)),
        forall|error: ExecuteError| #[trigger]
            follows_config(
                ConfigTask::Prepare { source },
                ConfigReply::Context(Err(error)),
                step,
            ) ==> (step matches ConfigStep::Finished(Err(given)) && given == error),
{
}

/// An engine or a global scope that could not be made is reported as such, with a reason
/// that the engine can give.
pub proof fn law_engine_errors(runtime: Runtime, error: ExecuteError)
    ensures
        is_runtime_error(error) <==> (error matches ExecuteError::CreateRuntime { cause }
            && runtime_can_fail(cause@)),
        is_context_error(runtime, error) <==> (error matches ExecuteError::CreateContext { cause }
            && context_can_fail(runtime, cause@)),
{
}

/// A reply to another task leaves the task to be done.
pub proof fn law_other_replies(
    task: WorkflowTask,
    reply: WorkflowReply,
    step: WorkflowStep,
    config_task: ConfigTask,
    config_reply: ConfigReply,
    config_step: ConfigStep,
)
    ensures
        follows_workflow(task, reply, step) && !(task is Canonicalize && reply is Path) && !(task
            is Read && reply is Text) && !(task is Prepare && reply is Context) ==> step
            == WorkflowStep::Task(task),
        follows_config(config_task, config_reply, config_step) && !(config_task is Canonicalize
            && config_reply is Path) && !(config_task is Prepare && config_reply is Context)
            ==> config_step == ConfigStep::Task(config_task),
{
}

} // verus!
