use gaji::executor::{config_entry, config_outcome, script_outcome, workflow_outcome};
use gaji::output::{build_output, build_outputs, record_call, BuildCall};
use gaji::quickjs::{record_text, RunFailure};
use gaji::{execute_js, strip_typescript, ExecuteError};

/// Classes as a project generates them for its workflows.
const JOB_WORKFLOW_RUNTIME_TEMPLATE: &str = r#"
function collect(fill) {
    var steps = [];
    var list = { add: function(step) { steps.push(step); return list; } };
    fill(list);
    return steps;
}
export class Job {
    constructor(runsOn) { this.runsOn = runsOn; this.list = []; }
    steps(fill) { this.list = collect(fill); return this; }
    toJSON() { return { "runs-on": this.runsOn, steps: this.list }; }
}
export class Workflow {
    constructor(config) { this.config = config; this.all = {}; }
    jobs(fill) {
        var all = this.all;
        var list = { add: function(id, job) { all[id] = job; return list; } };
        fill(list);
        return this;
    }
    build(id) {
        var document = { name: this.config.name, on: this.config.on, jobs: this.all };
        __gha_build(id, JSON.stringify(document), "workflow");
    }
}
export class Action {
    constructor(config) { this.config = config; this.list = []; }
    steps(fill) { this.list = collect(fill); return this; }
    build(id) {
        var document = {
            name: this.config.name,
            description: this.config.description,
            runs: { using: "composite", steps: this.list },
        };
        __gha_build(id, JSON.stringify(document), "action");
    }
}
"#;

fn strip_for_eval(source: &str) -> String {
    let mut result = Vec::new();
    for line in source.lines() {
        let trimmed = line.trim();
        if trimmed.starts_with("import ") || trimmed.starts_with("import{") {
            continue;
        }
        if trimmed.starts_with("export type ") || trimmed.starts_with("export {") {
            continue;
        }
        if trimmed.starts_with("export ") {
            result.push(trimmed.replacen("export ", "", 1));
            continue;
        }
        result.push(line.to_string());
    }
    result.join("\n")
}

#[test]
fn test_execute_js_basic() {
    let code = r#"
            function __test() {
                __gha_build("test-workflow", '{"name":"test","on":{"push":{}},"jobs":{}}', "workflow");
            }
            __test();
        "#;
    let outputs = execute_js(code).unwrap();
    assert_eq!(outputs.len(), 1);
    assert_eq!(outputs[0].id, "test-workflow");
    assert_eq!(outputs[0].output_type, "workflow");
}

#[test]
fn test_execute_js_multiple_outputs() {
    let code = r#"
            __gha_build("wf1", '{"name":"first"}', "workflow");
            __gha_build("wf2", '{"name":"second"}', "workflow");
            __gha_build("act1", '{"name":"action1"}', "action");
        "#;
    let outputs = execute_js(code).unwrap();
    assert_eq!(outputs.len(), 3);
    assert_eq!(outputs[0].output_type, "workflow");
    assert_eq!(outputs[2].output_type, "action");
}

#[test]
fn test_job_workflow_pipeline() {
    let runtime_js = format!(
        r#"function getAction(ref) {{
    return function(config) {{
        if (config === undefined) config = {{}};
        var step = {{ uses: ref }};
        if (config.name !== undefined) step.name = config.name;
        if (config.with !== undefined) step.with = config.with;
        return step;
    }};
}}
{}"#,
        JOB_WORKFLOW_RUNTIME_TEMPLATE
    );

    let workflow_js = r#"
var checkout = getAction("actions/checkout@v5");

new Workflow({
    name: "CI",
    on: { push: { branches: ["main"] } },
}).jobs(j => j
    .add("build",
        new Job("ubuntu-latest")
            .steps(s => s
                .add(checkout({ name: "Checkout", with: { "fetch-depth": 1 } }))
                .add({ name: "Test", run: "npm test" })
            )
    )
).build("ci");
"#;

    let runtime_stripped = strip_for_eval(&runtime_js);
    let bundled = format!("{}\n\n{}", runtime_stripped, workflow_js);

    let outputs = execute_js(&bundled).unwrap();
    assert_eq!(outputs.len(), 1);
    assert_eq!(outputs[0].id, "ci");
    assert_eq!(outputs[0].output_type, "workflow");

    let json: serde_json::Value = serde_json::from_str(&outputs[0].json).unwrap();
    assert_eq!(json["name"], "CI");
    assert!(json["on"]["push"]["branches"].is_array());
    assert_eq!(json["jobs"]["build"]["runs-on"], "ubuntu-latest");

    let steps = json["jobs"]["build"]["steps"].as_array().unwrap();
    assert_eq!(steps.len(), 2);
    assert_eq!(steps[0]["uses"], "actions/checkout@v5");
    assert_eq!(steps[0]["name"], "Checkout");
    assert_eq!(steps[1]["run"], "npm test");
}

#[test]
fn test_composite_action_pipeline() {
    let runtime_js = format!(
        "function getAction(ref) {{ return function(config) {{ return {{ uses: ref }}; }}; }}\n{}",
        JOB_WORKFLOW_RUNTIME_TEMPLATE
    );

    let workflow_js = r#"
new Action({
    name: "My Action",
    description: "A composite action",
})
    .steps(s => s
        .add({ name: "Step 1", run: "echo hello", shell: "bash" })
    )
    .build("my-action");
"#;

    let runtime_stripped = strip_for_eval(&runtime_js);
    let bundled = format!("{}\n\n{}", runtime_stripped, workflow_js);

    let outputs = execute_js(&bundled).unwrap();
    assert_eq!(outputs.len(), 1);
    assert_eq!(outputs[0].id, "my-action");
    assert_eq!(outputs[0].output_type, "action");

    let json: serde_json::Value = serde_json::from_str(&outputs[0].json).unwrap();
    assert_eq!(json["name"], "My Action");
    assert_eq!(json["runs"]["using"], "composite");
    assert_eq!(json["runs"]["steps"][0]["run"], "echo hello");
}

#[test]
fn test_strip_then_execute() {
    let runtime_js = format!(
        "function getAction(ref) {{ return function(config) {{ return {{ uses: ref }}; }}; }}\n{}",
        JOB_WORKFLOW_RUNTIME_TEMPLATE
    );

    let ts_source = r#"
const wf: Workflow = new Workflow({
    name: "Typed",
    on: { push: {} },
}).jobs(j => j
    .add("job1",
        new Job("ubuntu-latest")
            .steps(s => s
                .add({ name: "Hello", run: "echo hi" })
            )
    )
);

wf.build("typed-wf");
"#;

    let js = strip_typescript(ts_source, "test.ts").unwrap();

    let runtime_stripped = strip_for_eval(&runtime_js);
    let bundled = format!("{}\n\n{}", runtime_stripped, js);

    let outputs = execute_js(&bundled).unwrap();
    assert_eq!(outputs.len(), 1);
    assert_eq!(outputs[0].id, "typed-wf");

    let json: serde_json::Value = serde_json::from_str(&outputs[0].json).unwrap();
    assert_eq!(json["name"], "Typed");
    assert_eq!(json["jobs"]["job1"]["steps"][0]["run"], "echo hi");
}

#[test]
fn a_script_that_builds_nothing() {
    assert_eq!(execute_js("1 + 1").unwrap().len(), 0);
    assert_eq!(execute_js("").unwrap().len(), 0);
}

#[test]
fn the_type_of_an_output_may_be_left_out() {
    let outputs = execute_js("__gha_build('a', '{}');").unwrap();
    assert_eq!(outputs[0].output_type, "workflow");
    assert_eq!(outputs[0].json, "{}");
}

#[test]
fn a_script_that_throws_gives_no_outputs() {
    let error = execute_js("__gha_build('a', '{}'); throw 1;").unwrap_err();
    assert_eq!(error.message(), "QuickJS evaluation error: Exception generated by QuickJS");
    assert_eq!(error.cause(), None);
}

#[test]
fn a_script_with_the_wrong_arguments() {
    assert!(execute_js("__gha_build('a');").is_err());
    assert!(execute_js("__gha_build(1, 2);").is_err());
}

#[test]
fn a_script_that_does_not_compile() {
    assert!(matches!(execute_js("const = ;"), Err(ExecuteError::Script { .. })));
}

#[test]
fn a_script_with_a_nul_character() {
    let error = execute_js("__gha_build('a', '{}');\0").unwrap_err();
    assert!(error.message().starts_with("QuickJS evaluation error: String contained internal null bytes"));
}

#[test]
fn scripts_do_not_share_their_globals() {
    assert!(execute_js("globalThis.left = 1;").is_ok());
    let outputs = execute_js("__gha_build('a', typeof globalThis.left);").unwrap();
    assert_eq!(outputs[0].json, "undefined");
}

fn call(id: &str, output_type: Option<&str>) -> BuildCall {
    BuildCall {
        id: id.to_string(),
        json: format!("{{\"{id}\":1}}"),
        output_type: output_type.map(|text| text.to_string()),
    }
}

#[test]
fn outputs_follow_the_calls() {
    let calls = vec![call("a", Some("action")), call("b", None), call("a", Some("workflow"))];
    let outputs = build_outputs(calls).unwrap();
    let found: Vec<(&str, &str, &str)> = outputs
        .iter()
        .map(|output| (output.id.as_str(), output.json.as_str(), output.output_type.as_str()))
        .collect();
    assert_eq!(
        found,
        vec![("a", "{\"a\":1}", "action"), ("b", "{\"b\":1}", "workflow"), ("a", "{\"a\":1}", "workflow")]
    );
    assert_eq!(build_outputs(Vec::new()).unwrap().len(), 0);
    assert_eq!(build_output(call("x", None)).unwrap().output_type, "workflow");
}

#[test]
fn only_workflows_and_actions_are_built() {
    assert_eq!(build_output(call("x", Some("foo"))).unwrap_err(), "foo");
    assert_eq!(build_output(call("x", Some(""))).unwrap_err(), "");
    assert_eq!(build_output(call("x", Some("Workflow"))).unwrap_err(), "Workflow");
    let calls = vec![call("a", None), call("b", Some("first")), call("c", Some("second"))];
    assert_eq!(build_outputs(calls).unwrap_err(), "first");
    let error = execute_js("__gha_build('a', '{}'); __gha_build('b', '{}', 'foo');").unwrap_err();
    assert!(matches!(error, ExecuteError::UnknownOutputType { .. }));
    assert_eq!(error.message(), "Unknown output type: foo");
    assert_eq!(error.cause(), None);
    let error = workflow_outcome(vec![call("a", Some("foo"))], Ok(())).unwrap_err();
    assert_eq!(error.message(), "Unknown output type: foo");
    // A run that failed is judged by its failure.
    assert!(matches!(
        execute_js("__gha_build('b', '{}', 'foo'); throw 1;"),
        Err(ExecuteError::Script { .. })
    ));
}

#[test]
fn outputs_can_be_copied() {
    let output = build_output(call("x", Some("action"))).unwrap();
    let copy = output.clone();
    assert_eq!(format!("{output:?}"), format!("{copy:?}"));
}

#[test]
fn calls_are_noted_in_order() {
    let mut calls = Vec::new();
    record_call(&mut calls, "a".to_string(), "1".to_string(), None);
    record_call(&mut calls, "b".to_string(), "2".to_string(), Some("action".to_string()));
    assert_eq!(calls.len(), 2);
    assert_eq!(calls[0].id, "a");
    assert_eq!(calls[1].output_type, Some("action".to_string()));
    let mut texts = vec!["x".to_string()];
    record_text(&mut texts, "y".to_string());
    assert_eq!(texts, vec!["x", "y"]);
}

#[test]
fn the_outcome_of_a_script() {
    let outputs = script_outcome(vec![call("a", None)], Ok(())).unwrap();
    assert_eq!(outputs.len(), 1);
    let failure = RunFailure::SetFunction(rquickjs::Error::Allocation);
    let error = script_outcome(Vec::new(), Err(failure)).unwrap_err();
    assert_eq!(
        error.message(),
        "Failed to set __gha_build: Allocation failed while creating object"
    );
    let failure = RunFailure::Module(rquickjs::Error::Exception);
    let error = script_outcome(Vec::new(), Err(failure)).unwrap_err();
    assert_eq!(error.message(), "QuickJS evaluation error: Exception generated by QuickJS");
    let failure = RunFailure::Evaluation(rquickjs::Error::Unknown);
    let error = script_outcome(vec![call("a", None)], Err(failure)).unwrap_err();
    assert_eq!(
        error.message(),
        "QuickJS evaluation error: QuickJS library created a unknown error"
    );
}

#[test]
fn the_outcome_of_a_workflow() {
    assert_eq!(workflow_outcome(vec![call("a", None)], Ok(())).unwrap().len(), 1);
    let failure = RunFailure::SetFunction(rquickjs::Error::Exception);
    let error = workflow_outcome(Vec::new(), Err(failure)).unwrap_err();
    assert_eq!(error.message(), "Failed to set __gha_build: Exception generated by QuickJS");
    let failure = RunFailure::Module(rquickjs::Error::Exception);
    let error = workflow_outcome(Vec::new(), Err(failure)).unwrap_err();
    assert_eq!(error.message(), "QuickJS workflow module error: Exception generated by QuickJS");
    let failure = RunFailure::Evaluation(rquickjs::Error::Exception);
    let error = workflow_outcome(vec![call("a", None)], Err(failure)).unwrap_err();
    assert_eq!(
        error.message(),
        "QuickJS workflow evaluation error: Exception generated by QuickJS"
    );
}

#[test]
fn the_outcome_of_a_config() {
    let calls = vec!["1".to_string(), "2".to_string()];
    assert_eq!(config_outcome(calls, Ok(())).unwrap(), "2");
    let error = config_outcome(Vec::new(), Ok(())).unwrap_err();
    assert_eq!(error.message(), "Config did not call __gha_set_config");
    let failure = RunFailure::SetFunction(rquickjs::Error::Exception);
    let error = config_outcome(Vec::new(), Err(failure)).unwrap_err();
    assert_eq!(error.message(), "Failed to set __gha_set_config: Exception generated by QuickJS");
    let failure = RunFailure::Module(rquickjs::Error::Exception);
    let error = config_outcome(Vec::new(), Err(failure)).unwrap_err();
    assert_eq!(error.message(), "QuickJS config module error: Exception generated by QuickJS");
    let failure = RunFailure::Evaluation(rquickjs::Error::Exception);
    let error = config_outcome(vec!["1".to_string()], Err(failure)).unwrap_err();
    assert_eq!(error.message(), "QuickJS config evaluation error: Exception generated by QuickJS");
}

#[test]
fn errors_without_an_engine() {
    let error = ExecuteError::CreateContext { cause: "why".to_string() };
    assert_eq!(error.message(), "Failed to create QuickJS context");
    assert_eq!(error.cause(), Some("why".to_string()));
}

#[test]
fn the_entry_script_imports_the_quoted_path() {
    assert_eq!(
        config_entry("'x'"),
        "globalThis.defineConfig = function(c) { return c; };\nconst mod = await import('x');\n__gha_set_config(JSON.stringify(mod.default));"
    );
}
