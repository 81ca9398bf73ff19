use std::cell::RefCell;
use std::collections::BTreeMap;
use std::rc::Rc;

use rquickjs::loader::{Loader, Resolver};
use rquickjs::module::Declared;
use rquickjs::{Ctx, Module};

use gaji::executor::{new_context, new_runtime};
use gaji::resolver::{declare, STUB_NAME, STUB_SOURCE};
use gaji::{
    execute_config, execute_workflow, BuildOutput, ConfigReply, ConfigStep, ConfigTask,
    ExecuteError, LoadStep, Lookup, ModuleResolver, Resolution, WorkflowReply, WorkflowStep,
    WorkflowTask,
};

/// Files by their canonical paths, and a resolver that several runs share.
#[derive(Clone)]
struct Disk {
    files: Rc<BTreeMap<String, String>>,
    resolver: Rc<RefCell<ModuleResolver>>,
    reads: Rc<RefCell<Vec<String>>>,
}

impl Disk {
    fn new(files: &[(&str, &str)]) -> Disk {
        let files = files.iter().map(|(path, text)| (path.to_string(), text.to_string())).collect();
        Disk {
            files: Rc::new(files),
            resolver: Rc::new(RefCell::new(ModuleResolver::default())),
            reads: Rc::new(RefCell::new(Vec::new())),
        }
    }

    /// The same resolver before another set of files.
    fn later(&self, files: &[(&str, &str)]) -> Disk {
        Disk { resolver: self.resolver.clone(), ..Disk::new(files) }
    }

    fn find(&self, base: &str, name: &str) -> Option<String> {
        let resolver = self.resolver.borrow();
        let mut lookup = resolver.resolve(base, name);
        loop {
            let found = self.canonicalize(lookup.path());
            match resolver.resolve_next(base, name, lookup, found) {
                Ok(Resolution::Lookup(further)) => lookup = further,
                Ok(Resolution::Resolved(module)) => return Some(module),
                Err(_) => return None,
            }
        }
    }

    fn canonicalize(&self, path: &str) -> Option<String> {
        let mut parts: Vec<&str> = Vec::new();
        for part in path.split('/') {
            match part {
                "" | "." => {}
                ".." => {
                    parts.pop();
                }
                name => parts.push(name),
            }
        }
        let canonical = format!("/{}", parts.join("/"));
        if self.files.contains_key(&canonical) { Some(canonical) } else { None }
    }

    fn read(&self, path: &str) -> Result<String, String> {
        self.reads.borrow_mut().push(path.to_string());
        self.files.get(path).cloned().ok_or_else(|| "no such file".to_string())
    }

    fn context(&self) -> Result<rquickjs::Context, ExecuteError> {
        let runtime = new_runtime()?;
        runtime.set_loader(self.clone(), self.clone());
        new_context(&runtime)
    }

    fn run_workflow(&self, path: &str) -> Result<Vec<BuildOutput>, ExecuteError> {
        let canonical = self.canonicalize(path).ok_or_else(|| "not found".to_string());
        let mut step = execute_workflow(WorkflowTask::Canonicalize, WorkflowReply::Path(canonical));
        loop {
            step = match step {
                WorkflowStep::Finished(result) => return result,
                WorkflowStep::Task(task) => {
                    let reply = match &task {
                        WorkflowTask::Canonicalize => unreachable!(),
                        WorkflowTask::Read { path } => WorkflowReply::Text(self.read(path)),
                        WorkflowTask::Prepare { .. } => WorkflowReply::Context(self.context()),
                    };
                    execute_workflow(task, reply)
                }
            };
        }
    }

    fn run_config(&self, path: &str) -> Result<String, ExecuteError> {
        let canonical = self.canonicalize(path).ok_or_else(|| "not found".to_string());
        let mut step = execute_config(ConfigTask::Canonicalize, ConfigReply::Path(canonical));
        loop {
            step = match step {
                ConfigStep::Finished(result) => return result,
                ConfigStep::Task(task) => {
                    let reply = match &task {
                        ConfigTask::Canonicalize => unreachable!(),
                        ConfigTask::Prepare { .. } => ConfigReply::Context(self.context()),
                    };
                    execute_config(task, reply)
                }
            };
        }
    }
}

impl Resolver for Disk {
    fn resolve<'js>(&mut self, _ctx: &Ctx<'js>, base: &str, name: &str) -> rquickjs::Result<String> {
        let resolver = self.resolver.borrow();
        let mut lookup = resolver.resolve(base, name);
        loop {
            let found = self.canonicalize(lookup.path());
            match resolver.resolve_next(base, name, lookup, found)? {
                Resolution::Lookup(further) => lookup = further,
                Resolution::Resolved(module) => return Ok(module),
            }
        }
    }
}

impl Loader for Disk {
    fn load<'js>(&mut self, ctx: &Ctx<'js>, name: &str) -> rquickjs::Result<Module<'js, Declared>> {
        let step = self.resolver.borrow().load(name);
        let source = match step {
            LoadStep::Source(source) => source,
            LoadStep::Read => {
                let raw = self.read(name);
                self.resolver.borrow_mut().load_read(name, raw)?
            }
        };
        declare(ctx.clone(), name, &source)
    }
}

#[test]
fn test_module_exports_via_import() {
    let disk = Disk::new(&[
        (
            "/tmp/mod.js",
            "export const x = 42;\nexport function greet() { return \"hello\"; }\n",
        ),
        (
            "/tmp/main.js",
            "import { x, greet } from './mod.js';\n\
             __gha_build('test', JSON.stringify({x, greeting: greet()}), 'workflow');\n",
        ),
    ]);
    let outputs = disk.run_workflow("/tmp/main.js").unwrap();
    assert_eq!(outputs.len(), 1);
    let json: serde_json::Value = serde_json::from_str(&outputs[0].json).unwrap();
    assert_eq!(json["x"], 42);
    assert_eq!(json["greeting"], "hello");
}

#[test]
fn test_module_error_on_missing_dep() {
    let disk = Disk::new(&[(
        "/tmp/test.js",
        "import { X } from \"./nonexistent.js\";\nvar y = 1;\n",
    )]);
    assert!(disk.run_workflow("/tmp/test.js").is_err());
}

#[test]
fn test_module_dep_ordering() {
    let disk = Disk::new(&[
        ("/tmp/dep.js", "export const BASE = 10;\n"),
        (
            "/tmp/main.js",
            "import { BASE } from './dep.js';\n\
             __gha_build('test', JSON.stringify({value: BASE + 5}), 'workflow');\n",
        ),
    ]);
    let outputs = disk.run_workflow("/tmp/main.js").unwrap();
    assert_eq!(outputs.len(), 1);
    let json: serde_json::Value = serde_json::from_str(&outputs[0].json).unwrap();
    assert_eq!(json["value"], 15);
}

#[test]
fn a_typescript_workflow_is_stripped() {
    let disk = Disk::new(&[
        ("/w/lib/common.ts", "export const label: string = 'shared';\n"),
        (
            "/w/ci.ts",
            "import { label } from './lib/common.js';\n\
             const id: string = 'ci';\n\
             __gha_build(id, JSON.stringify({ label }));\n",
        ),
    ]);
    let outputs = disk.run_workflow("/w/./ci.ts").unwrap();
    assert_eq!(outputs.len(), 1);
    assert_eq!(outputs[0].id, "ci");
    assert_eq!(outputs[0].json, "{\"label\":\"shared\"}");
    assert_eq!(outputs[0].output_type, "workflow");
}

#[test]
fn a_shared_module_is_read_once() {
    let disk = Disk::new(&[
        ("/w/lib/common.ts", "export const n: number = 1;\n"),
        ("/w/a.js", "import { n } from './lib/common.js';\n__gha_build('a', String(n));\n"),
        ("/w/b.js", "import { n } from './lib/../lib/common.js';\n__gha_build('b', String(n));\n"),
    ]);
    assert_eq!(disk.run_workflow("/w/a.js").unwrap()[0].json, "1");
    assert_eq!(disk.run_workflow("/w/b.js").unwrap()[0].json, "1");
    let reads = disk.reads.borrow();
    assert_eq!(reads.iter().filter(|path| path.as_str() == "/w/lib/common.ts").count(), 1);
}

#[test]
fn modules_may_import_modules() {
    let disk = Disk::new(&[
        ("/w/c.ts", "export const c: number = 3;\n"),
        ("/w/b.ts", "import { c } from './c.js';\nexport const b: number = c + 1;\n"),
        ("/w/a.ts", "import { b } from './b.js';\nimport { c } from './c.js';\n__gha_build('a', String(b * c));\n"),
    ]);
    assert_eq!(disk.run_workflow("/w/a.ts").unwrap()[0].json, "12");
}

#[test]
fn a_workflow_that_cannot_be_found() {
    let error = Disk::new(&[]).run_workflow("/w/a.ts").unwrap_err();
    assert_eq!(error.message(), "Failed to canonicalize workflow path");
    assert_eq!(error.cause(), Some("not found".to_string()));
}

#[test]
fn a_workflow_that_cannot_be_read() {
    let task = WorkflowTask::Read { path: "/w/a.ts".to_string() };
    match execute_workflow(task, WorkflowReply::Text(Err("denied".to_string()))) {
        WorkflowStep::Finished(Err(error)) => {
            assert_eq!(error.message(), "Failed to read workflow: /w/a.ts");
            assert_eq!(error.cause(), Some("denied".to_string()));
        }
        _ => panic!("expected an error"),
    }
}

#[test]
fn a_workflow_that_does_not_parse() {
    let disk = Disk::new(&[("/w/a.ts", "const = ;")]);
    let error = disk.run_workflow("/w/a.ts").unwrap_err();
    assert_eq!(error.message(), "Failed to strip TypeScript: /w/a.ts");
    assert!(error.cause().unwrap().starts_with("Parse errors:\n"));
}

#[test]
fn a_workflow_without_an_engine() {
    let task = WorkflowTask::Prepare { path: "/w/a.js".to_string(), source: String::new() };
    let none = ExecuteError::CreateRuntime { cause: "out of memory".to_string() };
    match execute_workflow(task, WorkflowReply::Context(Err(none))) {
        WorkflowStep::Finished(Err(error)) => {
            assert_eq!(error.message(), "Failed to create QuickJS runtime");
            assert_eq!(error.cause(), Some("out of memory".to_string()));
        }
        _ => panic!("expected an error"),
    }
}

#[test]
fn a_workflow_that_cannot_be_compiled() {
    let disk = Disk::new(&[("/w/a.js", "import {} from './missing.js';")]);
    let error = disk.run_workflow("/w/a.js").unwrap_err();
    assert_eq!(
        error.message(),
        "QuickJS workflow module error: Exception generated by QuickJS"
    );
    assert_eq!(error.cause(), None);
}

#[test]
fn a_workflow_that_throws() {
    let disk = Disk::new(&[("/w/a.js", "__gha_build('a', '1');\nthrow new Error('no');")]);
    let error = disk.run_workflow("/w/a.js").unwrap_err();
    assert_eq!(
        error.message(),
        "QuickJS workflow evaluation error: Exception generated by QuickJS"
    );
}

#[test]
fn a_workflow_that_never_settles() {
    let disk = Disk::new(&[("/w/a.js", "await new Promise(() => {});")]);
    let error = disk.run_workflow("/w/a.js").unwrap_err();
    assert_eq!(
        error.message(),
        "QuickJS workflow evaluation error: Error blocking on a promise resulted in a dead lock"
    );
}

#[test]
fn a_workflow_with_a_nul_character() {
    let disk = Disk::new(&[("/w/a.js", "__gha_build('a', '1');\0")]);
    assert!(matches!(
        disk.run_workflow("/w/a.js"),
        Err(ExecuteError::WorkflowModule { .. })
    ));
}

#[test]
fn a_reply_to_another_task_changes_nothing() {
    let task = WorkflowTask::Read { path: "/w/a.js".to_string() };
    match execute_workflow(task, WorkflowReply::Path(Ok("/x".to_string()))) {
        WorkflowStep::Task(WorkflowTask::Read { path }) => assert_eq!(path, "/w/a.js"),
        _ => panic!("the file is still to be read"),
    }
    let task = ConfigTask::Prepare { source: "1".to_string() };
    match execute_config(task, ConfigReply::Path(Ok("/x".to_string()))) {
        ConfigStep::Task(ConfigTask::Prepare { source }) => assert_eq!(source, "1"),
        _ => panic!("the context is still to be prepared"),
    }
}

#[test]
fn a_workflow_that_builds_an_unknown_type() {
    let disk = Disk::new(&[("/w/a.js", "__gha_build('a', '{}', 'foo');")]);
    let error = disk.run_workflow("/w/a.js").unwrap_err();
    assert_eq!(error.message(), "Unknown output type: foo");
}

#[test]
fn a_config_with_the_global_define_config() {
    let disk = Disk::new(&[("/p/gaji.config.ts", "export default defineConfig({ a: 1 as number });\n")]);
    assert_eq!(disk.run_config("/p/gaji.config.ts").unwrap(), "{\"a\":1}");
}

#[test]
fn a_config_with_the_generated_stub() {
    let disk = Disk::new(&[(
        "/p/gaji.config.ts",
        "import { defineConfig } from './generated/index.js';\nexport default defineConfig({ b: [true] });\n",
    )]);
    assert_eq!(disk.run_config("/p/gaji.config.ts").unwrap(), "{\"b\":[true]}");
}

#[test]
fn a_config_with_generated_code() {
    let disk = Disk::new(&[
        ("/p/generated/index.js", "export const defineConfig = (c) => ({ wrapped: c });\n"),
        (
            "/p/gaji.config.ts",
            "import { defineConfig } from './generated/index.js';\nexport default defineConfig(1);\n",
        ),
    ]);
    assert_eq!(disk.run_config("/p/gaji.config.ts").unwrap(), "{\"wrapped\":1}");
}

#[test]
fn a_config_whose_path_needs_quoting() {
    let disk = Disk::new(&[("/p/a \"b\"\\.js", "export default 7;\n")]);
    assert_eq!(disk.run_config("/p/a \"b\"\\.js").unwrap(), "7");
}

#[test]
fn the_entry_script_of_a_config() {
    let step = execute_config(ConfigTask::Canonicalize, ConfigReply::Path(Ok("/p/c.ts".to_string())));
    match step {
        ConfigStep::Task(ConfigTask::Prepare { source }) => assert_eq!(
            source,
            "globalThis.defineConfig = function(c) { return c; };\n\
             const mod = await import(\"/p/c.ts\");\n\
             __gha_set_config(JSON.stringify(mod.default));"
        ),
        _ => panic!("expected a script"),
    }
}

#[test]
fn a_config_that_cannot_be_found() {
    let error = Disk::new(&[]).run_config("/p/c.ts").unwrap_err();
    assert_eq!(error.message(), "Failed to canonicalize config path");
    assert_eq!(error.cause(), Some("not found".to_string()));
}

#[test]
fn a_config_that_throws() {
    let disk = Disk::new(&[("/p/c.js", "throw new Error('no');")]);
    let error = disk.run_config("/p/c.js").unwrap_err();
    assert_eq!(
        error.message(),
        "QuickJS config evaluation error: Exception generated by QuickJS"
    );
}

#[test]
fn a_config_that_hands_over_nothing() {
    let source = "1 + 1;".to_string();
    let context = Disk::new(&[]).context();
    match execute_config(ConfigTask::Prepare { source }, ConfigReply::Context(context)) {
        ConfigStep::Finished(Err(error)) => {
            assert_eq!(error.message(), "Config did not call __gha_set_config");
            assert_eq!(error.cause(), None);
        }
        _ => panic!("expected an error"),
    }
}

#[test]
fn the_last_config_counts() {
    let source = "__gha_set_config('1');\n__gha_set_config('2');".to_string();
    let context = Disk::new(&[]).context();
    match execute_config(ConfigTask::Prepare { source }, ConfigReply::Context(context)) {
        ConfigStep::Finished(result) => assert_eq!(result.unwrap(), "2"),
        _ => panic!("expected a result"),
    }
}

#[test]
fn a_config_script_that_does_not_compile() {
    let context = Disk::new(&[]).context();
    let task = ConfigTask::Prepare { source: "const = ;".to_string() };
    match execute_config(task, ConfigReply::Context(context)) {
        ConfigStep::Finished(Err(error)) => assert_eq!(
            error.message(),
            "QuickJS config module error: Exception generated by QuickJS"
        ),
        _ => panic!("expected an error"),
    }
}

#[test]
fn imports_are_joined_to_the_directory_of_the_importer() {
    let resolver = ModuleResolver::default();
    assert_eq!(resolver.resolve("/w/a.ts", "./lib/b.js").path(), "/w/./lib/b.js");
    assert_eq!(resolver.resolve("/w/a.ts", "/lib/b.js").path(), "/lib/b.js");
    assert_eq!(resolver.resolve("a.ts", "./b.js").path(), "./b.js");
    assert_eq!(resolver.resolve("/", "b.js").path(), "./b.js");
    assert_eq!(resolver.resolve("__gaji_config_entry__", "/p/c.ts").path(), "/p/c.ts");
}

#[test]
fn a_missing_js_file_is_looked_up_as_ts() {
    let resolver = ModuleResolver::default();
    let first = resolver.resolve("/w/a.ts", "./b.js");
    match resolver.resolve_next("/w/a.ts", "./b.js", first, None) {
        Ok(Resolution::Lookup(second)) => {
            assert_eq!(second.path(), "/w/./b.ts");
            match resolver.resolve_next("/w/a.ts", "./b.js", second, Some("/w/b.ts".to_string())) {
                Ok(Resolution::Resolved(module)) => assert_eq!(module, "/w/b.ts"),
                _ => panic!("expected a module"),
            }
        }
        _ => panic!("expected a second lookup"),
    }
}

#[test]
fn an_import_that_leads_nowhere() {
    let resolver = ModuleResolver::default();
    let first = resolver.resolve("/w/a.ts", "./b.mjs");
    let error = resolver.resolve_next("/w/a.ts", "./b.mjs", first, None).err().unwrap();
    assert_eq!(error.to_string(), "Error resolving module './b.mjs' from '/w/a.ts'");
    let second = Lookup::TypeScript { joined: "/w/b.js".to_string(), path: "/w/b.ts".to_string() };
    assert!(resolver.resolve_next("/w/a.ts", "./b.js", second, None).is_err());
}

#[test]
fn generated_code_that_is_missing_becomes_the_stub() {
    let resolver = ModuleResolver::default();
    let lookup = Lookup::TypeScript {
        joined: "/w/../generated/index.js".to_string(),
        path: "/w/../generated/index.ts".to_string(),
    };
    match resolver.resolve_next("/w/a.ts", "../generated/index.js", lookup, None) {
        Ok(Resolution::Resolved(module)) => assert_eq!(module, STUB_NAME),
        _ => panic!("expected the stub"),
    }
    match resolver.load(STUB_NAME) {
        LoadStep::Source(source) => assert_eq!(source, STUB_SOURCE),
        LoadStep::Read => panic!("expected the stub's source"),
    }
}

#[test]
fn a_loaded_module_is_known_under_every_spelling() {
    let mut resolver = ModuleResolver::default();
    assert!(matches!(resolver.load("/w/a.ts"), LoadStep::Read));
    let source = resolver.load_read("/w/a.ts", Ok("const a: number = 1;".to_string())).unwrap();
    assert_eq!(source, "const a = 1;\n");
    for name in ["/w/a.ts", "/w//a.ts", "/w/./a.ts/"] {
        match resolver.load(name) {
            LoadStep::Source(known) => assert_eq!(known, source),
            LoadStep::Read => panic!("expected a known source"),
        }
    }
    assert!(matches!(resolver.load("/w/b/../a.ts"), LoadStep::Read));
    assert!(resolver.load_read("/w/b.js", Ok("const b: number = 1;".to_string())).is_ok());
    match resolver.load("/w/b.js") {
        LoadStep::Source(known) => assert_eq!(known, "const b: number = 1;"),
        LoadStep::Read => panic!("expected a known source"),
    }
}

#[test]
fn a_module_that_cannot_be_loaded_stays_unknown() {
    let mut resolver = ModuleResolver::default();
    let error = resolver.load_read("/w/a.ts", Err("denied".to_string())).unwrap_err();
    assert_eq!(error.to_string(), "Error loading module '/w/a.ts': denied");
    let error = resolver.load_read("/w/a.ts", Err(String::new())).unwrap_err();
    assert_eq!(error.to_string(), "Error loading module '/w/a.ts'");
    let error = resolver.load_read("/w/a.ts", Ok("const = ;".to_string())).unwrap_err();
    assert!(error.to_string().starts_with("Error loading module '/w/a.ts': Parse errors:\n"));
    assert!(matches!(resolver.load("/w/a.ts"), LoadStep::Read));
}

#[test]
fn modules_are_declared_to_the_engine() {
    let context = Disk::new(&[]).context().unwrap();
    context.with(|ctx| {
        let module = declare(ctx.clone(), "m", "export const a = 1;").unwrap();
        assert_eq!(module.name::<String>().unwrap(), "m");
        assert!(declare(ctx.clone(), "m", "export const = 1;").is_err());
        assert!(declare(ctx.clone(), "m\0", "").is_err());
        assert!(declare(ctx.clone(), "m", "\0").is_err());
    });
}

#[test]
fn a_resolved_path_leads_to_itself() {
    let disk = Disk::new(&[("/p/a.ts", ""), ("/p/lib/b.js", "")]);
    for (base, name) in [("/p/main.ts", "./a.js"), ("/p/x/main.ts", "../lib/b.js")] {
        let module = disk.find(base, name).unwrap();
        assert!(module.starts_with('/'));
        for other in ["/p/main.ts", "/elsewhere/x.js", "x.js", ""] {
            assert_eq!(disk.find(other, &module), Some(module.clone()));
        }
    }
}

#[test]
fn bare_names_are_looked_up_beside_the_importer() {
    let disk = Disk::new(&[("/p/a.ts", ""), ("/p/lib/b.js", ""), ("/lodash", "")]);
    let names = ["a.js", "a.ts", "lib/b.js", "lodash", "..js", ".", "../lodash", "generated/index.js"];
    for base in ["/p/main.ts", "/p/x/main.ts", "main.ts", "/p/x.js/main.ts"] {
        for name in names {
            assert_eq!(disk.find(base, name), disk.find(base, &format!("./{name}")), "{base} {name}");
        }
    }
    assert_eq!(disk.find("/p/main.ts", "a.js"), Some("/p/a.ts".to_string()));
    assert_eq!(disk.find("/p/main.ts", "lodash"), None);
}

#[test]
fn a_changed_import_is_not_seen_again() {
    let main = "import { x } from './d.js'; __gha_build('a', x);";
    let first = Disk::new(&[("/w/main.js", main), ("/w/d.js", "export const x = 'old';")]);
    assert_eq!(first.run_workflow("/w/main.js").unwrap()[0].json, "old");
    let changed = [("/w/main.js", main), ("/w/d.js", "export const x = 'new';")];
    let later = first.later(&changed);
    assert_eq!(later.run_workflow("/w/main.js").unwrap()[0].json, "old");
    assert_eq!(*later.reads.borrow(), vec!["/w/main.js"]);
    assert_eq!(Disk::new(&changed).run_workflow("/w/main.js").unwrap()[0].json, "new");
}

#[test]
fn a_changed_workflow_is_read_again() {
    let first = Disk::new(&[("/w/main.js", "globalThis.left = 1; __gha_build('a', 'old');")]);
    assert_eq!(first.run_workflow("/w/main.js").unwrap()[0].json, "old");
    let later = first.later(&[("/w/main.js", "__gha_build('a', typeof globalThis.left);")]);
    let outputs = later.run_workflow("/w/main.js").unwrap();
    assert_eq!(outputs.len(), 1);
    assert_eq!(outputs[0].json, "undefined");
    assert!(matches!(later.resolver.borrow().load("/w/main.js"), LoadStep::Read));
}

#[test]
fn a_changed_config_is_not_seen_again() {
    let first = Disk::new(&[("/p/c.js", "export default 1;")]);
    assert_eq!(first.run_config("/p/c.js").unwrap(), "1");
    let later = first.later(&[("/p/c.js", "export default 2;")]);
    assert_eq!(later.run_config("/p/c.js").unwrap(), "1");
    assert!(later.reads.borrow().is_empty());
}

#[test]
fn the_stub_gives_way_to_generated_code() {
    let config = "import { defineConfig } from './generated/index.js';\nexport default defineConfig({ a: 1 });\n";
    let first = Disk::new(&[("/p/c.js", config)]);
    assert_eq!(first.run_config("/p/c.js").unwrap(), "{\"a\":1}");
    let later = first.later(&[
        ("/p/c.js", config),
        ("/p/generated/index.js", "export const defineConfig = c => ({ ...c, real: true });"),
    ]);
    assert_eq!(later.run_config("/p/c.js").unwrap(), "{\"a\":1,\"real\":true}");
    assert_eq!(*later.reads.borrow(), vec!["/p/generated/index.js"]);
}

#[test]
fn a_config_has_no_build_function() {
    let disk = Disk::new(&[(
        "/p/c.js",
        "__gha_build('a', '{}', 'workflow');\nexport default { a: 1 };\n",
    )]);
    assert!(matches!(disk.run_config("/p/c.js"), Err(ExecuteError::ConfigEvaluation { .. })));
    let disk = Disk::new(&[("/p/c.js", "export default typeof __gha_build;")]);
    assert_eq!(disk.run_config("/p/c.js").unwrap(), "\"undefined\"");
}

#[test]
fn a_workflow_has_its_standard_objects() {
    let disk = Disk::new(&[("/w/a.js", "__gha_build('a', JSON.stringify({ b: [1] }));")]);
    assert_eq!(disk.run_workflow("/w/a.js").unwrap()[0].json, "{\"b\":[1]}");
    let disk = Disk::new(&[("/w/a.js", "__gha_build('a', typeof __gha_set_config);")]);
    assert_eq!(disk.run_workflow("/w/a.js").unwrap()[0].json, "undefined");
}

#[test]
fn a_known_source_comes_before_a_text() {
    let mut resolver = ModuleResolver::default();
    assert_eq!(resolver.load_read("/w/a.js", Ok("1".to_string())).unwrap(), "1");
    assert_eq!(resolver.load_read("/w/a.js", Ok("2".to_string())).unwrap(), "1");
    assert_eq!(resolver.load_read("/w//a.js", Err("gone".to_string())).unwrap(), "1");
    assert_eq!(resolver.load_read(STUB_NAME, Ok("3".to_string())).unwrap(), STUB_SOURCE);
    match resolver.load("/w/a.js") {
        LoadStep::Source(source) => assert_eq!(source, "1"),
        LoadStep::Read => panic!("the source is known"),
    }
    assert!(matches!(resolver.load("/w/b.js"), LoadStep::Read));
}

#[test]
fn a_path_stays_within_its_literal() {
    for (path, literal) in [
        ("/p/gaji.config.ts", "\"/p/gaji.config.ts\""),
        ("/p/a\"); x(\"b.js", "\"/p/a\\\"); x(\\\"b.js\""),
        ("/p/a\\", "\"/p/a\\\\\""),
        ("/p/a\nb", "\"/p/a\\nb\""),
    ] {
        match execute_config(ConfigTask::Canonicalize, ConfigReply::Path(Ok(path.to_string()))) {
            ConfigStep::Task(ConfigTask::Prepare { source }) => {
                assert!(source.contains(&format!("await import({literal});\n")), "{source}");
            }
            _ => panic!("a context is to be prepared"),
        }
    }
}

#[test]
fn imports_on_windows_know_drives() {
    let resolver = ModuleResolver::default();
    for (base, name, path) in [
        ("C:/b/main.ts", "C:/d/a.ts", "C:/d/a.ts"),
        ("C:/b/main.ts", "d:\\d\\a.ts", "d:/d/a.ts"),
        ("C:/b/main.ts", "./dep.js", "C:/b/./dep.js"),
        ("C:/b/main.ts", ".\\dep.js", "C:/b/./dep.js"),
        ("C:/b/main.ts", "/d/a.ts", "C:/d/a.ts"),
        ("C:/b/main.ts", "\\\\host\\share\\a.ts", "//host/share/a.ts"),
        ("__gaji_config_entry__", "C:/p/c.ts", "C:/p/c.ts"),
        ("//host/share/main.ts", "/d/a.ts", "/d/a.ts"),
    ] {
        assert_eq!(resolver.resolve_windows(base, name).path(), path);
    }
    assert_eq!(resolver.resolve("C:/b/main.ts", "C:/d/a.ts").path(), "C:/b/C:/d/a.ts");
}

#[test]
fn each_module_is_declared_from_its_own_source() {
    let disk = Disk::new(&[
        ("/w/a.js", "import { x } from './x.js'; import { y } from './y.js'; __gha_build(x, y);"),
        ("/w/x.js", "export const x = 'first';"),
        ("/w/y.js", "export const y = 'second';"),
    ]);
    let outputs = disk.run_workflow("/w/a.js").unwrap();
    assert_eq!((outputs[0].id.as_str(), outputs[0].json.as_str()), ("first", "second"));
}
