//! Where an import leads, and what the module there holds.
//!
//! Looking at the disk is the host's part. A resolution names the path to look up
//! and is told what was found; a load asks for a file's text once and keeps the
//! JavaScript that it became.
use vstd::hash_map::StringHashMap;
use vstd::prelude::*;

use rquickjs::module::Declared;
use rquickjs::{Ctx, Module};

use crate::path::{
    components_of, differ_by_here, ends_with, ends_with_path, extension_is, extension_of, file_name,
    file_name_of, from_windows, has_drive, has_extension, join, joined, law_components,
    law_extension_exactly, law_file_name_exactly, law_first_component, law_here, law_joined,
    law_joined_end, law_joined_text, law_named_file, law_normal_form, law_parent_text, law_portable,
    law_replaced_text, normal_form, normalize, parent, parent_of, portable, replaced_extension,
    same_path, starts_with_drive, with_extension,
};
use crate::quickjs::{
    declare_module, error_text, loading_error, module_can_be_declared, resolving_error,
};
use crate::text::same_text;
use crate::typescript::{
    names_dialect, strip_message, strip_typescript, strip_view, stripped, StripError,
};

verus! {

/// The name of the module that stands in for generated code that is not there yet.
pub const STUB_NAME: &'static str = "__gaji_generated_stub__";

/// The source of that module: a `defineConfig` that hands back what it is given.
pub const STUB_SOURCE: &'static str = "export const defineConfig = function(c) { return c; };";

/// The end of the path of generated code.
pub const GENERATED_INDEX: &'static str = "generated/index.js";

/// The path that `name` stands for when it is imported by the module `base`.
pub open spec fn import_path(base: Seq<char>, name: Seq<char>) -> Seq<char> {
    joined(
        match parent_of(base) {
            Some(dir) => dir,
            None => "."@,
        },
        name,
    )
}

/// The path that `name` stands for on Windows when it is imported by the module `base`. A
/// name with a drive stands for itself, and one that starts at the root takes the drive
/// of the importer.
pub open spec fn windows_import_path(base: Seq<char>, name: Seq<char>) -> Seq<char> {
    let name = portable(name);
    if has_drive(name) {
        name
    } else if has_drive(base) && name.len() > 0 && name[0] == '/' && !(name.len() > 1 && name[1]
        == '/') {
        base.take(2) + name
    } else {
        import_path(base, name)
    }
}

/// On Windows, too, a full path leads to itself, whoever imports it.
pub proof fn law_windows_full_path(base: Seq<char>, path: Seq<char>)
    requires
        has_drive(path),
        !path.contains('\\'),
    ensures
        windows_import_path(base, path) == path,
{
    law_portable(path);
}

/// A path that is to be looked up on disk.
pub enum Lookup {
    /// The import itself.
    Joined { path: String },
    /// The TypeScript file that an import of a missing `.js` file may stand for.
    TypeScript { joined: String, path: String },
}

/// The texts in a [`Lookup`].
pub enum LookupView {
    Joined { path: Seq<char> },
    TypeScript { joined: Seq<char>, path: Seq<char> },
}

impl View for Lookup {
    type V = LookupView;

    open spec fn view(&self) -> LookupView {
        match self {
            Lookup::Joined { path } => LookupView::Joined { path: path@ },
            Lookup::TypeScript { joined, path } => LookupView::TypeScript {
                joined: joined@,
                path: path@,
            },
        }
    }
}

impl LookupView {
    /// The path to look up.
    pub open spec fn path(self) -> Seq<char> {
        match self {
            LookupView::Joined { path } => path,
            LookupView::TypeScript { path, .. } => path,
        }
    }
}

impl Lookup {
    /// The path to look up.
    pub fn path(&self) -> (path: &str)
        ensures
            path@ == self@.path(),
    {
        match self {
            Lookup::Joined { path } => path.as_str(),
            Lookup::TypeScript { path, .. } => path.as_str(),
        }
    }
}

/// What a resolution has come to.
pub enum Resolution {
    /// Another path has to be looked up.
    Lookup(Lookup),
    /// The import is the module of this name.
    Resolved(String),
}

/// What a resolution can come to; without a module it has failed.
pub enum ResolutionView {
    Lookup(LookupView),
    Resolved(Seq<char>),
    Unresolved,
}

/// What a path stands for that no file was found for.
pub open spec fn without_file(path: Seq<char>) -> ResolutionView {
    if ends_with_path(path, GENERATED_INDEX@) {
        ResolutionView::Resolved(STUB_NAME@)
    } else {
        ResolutionView::Unresolved
    }
}

/// What follows once `lookup` has found `found`.
pub open spec fn after_lookup(lookup: LookupView, found: Option<Seq<char>>) -> ResolutionView {
    match (found, lookup) {
        (Some(canonical), _) => ResolutionView::Resolved(canonical),
        (None, LookupView::Joined { path }) => if has_extension(path, "js"@) {
            ResolutionView::Lookup(
                LookupView::TypeScript { joined: path, path: replaced_extension(path, "ts"@) },
            )
        } else {
            without_file(path)
        },
        (None, LookupView::TypeScript { joined, .. }) => without_file(joined),
    }
}

/// The text of the error that `name` cannot be found from `base`.
pub open spec fn resolving_text(base: Seq<char>, name: Seq<char>) -> Seq<char> {
    "Error resolving module '"@ + name + "' from '"@ + base + "'"@
}

/// The text of the error that the module `name` cannot be loaded.
pub open spec fn loading_text(name: Seq<char>, message: Seq<char>) -> Seq<char> {
    if message.len() == 0 {
        "Error loading module '"@ + name + "'"@
    } else {
        "Error loading module '"@ + name + "': "@ + message
    }
}

/// The file name that a source is stripped under.
pub open spec fn source_name(path: Seq<char>) -> Seq<char> {
    match file_name_of(path) {
        Some(name) => name,
        None => Seq::empty(),
    }
}

/// The JavaScript for the text `raw` of the file at `path`: stripped, if it is a
/// `.ts` file, and as it is otherwise. For a `.ts` file that does not parse, the
/// parser's messages.
pub open spec fn module_text(path: Seq<char>, raw: Seq<char>) -> Result<Seq<char>, Seq<Seq<char>>> {
    if has_extension(path, "ts"@) {
        stripped(raw, source_name(path))
    } else {
        Ok(raw)
    }
}

/// The JavaScript for the text `raw` of the file at `path`.
pub fn module_source(path: &str, raw: String) -> (source: Result<String, StripError>)
    ensures
        strip_view(source) == module_text(path@, raw@),
        has_extension(path@, "ts"@) ==> file_name_of(path@) is Some && strip_view(source)
            == stripped(raw@, file_name_of(path@)->0),
        !has_extension(path@, "ts"@) ==> (source matches Ok(source) && source@ == raw@),
{
    if !extension_is(path, "ts") {
        return Ok(raw);
    }
    let name = match file_name(path) {
        Some(name) => name,
        None => String::new(),
    };
    strip_typescript(raw.as_str(), name.as_str())
}

/// The sources of the modules loaded so far, kept for every later run.
pub struct ModuleResolver {
    cache: StringHashMap<String>,
}

impl View for ModuleResolver {
    type V = Map<Seq<char>, Seq<char>>;

    /// The sources, each under the normal form of its path.
    closed spec fn view(&self) -> Map<Seq<char>, Seq<char>> {
        Map::new(|path: Seq<char>| self.cache@.contains_key(path), |path: Seq<char>| self.cache@[path]@)
    }
}

/// The source of the module `name` as far as it is known without reading a file.
pub open spec fn known_source(
    cache: Map<Seq<char>, Seq<char>>,
    name: Seq<char>,
) -> Option<Seq<char>> {
    if name == STUB_NAME@ {
        Some(STUB_SOURCE@)
    } else if cache.contains_key(normal_form(name)) {
        Some(cache[normal_form(name)])
    } else {
        None
    }
}

/// The cache once the module `name` was loaded, where `raw` is the text of its file
/// if that can be read.
pub open spec fn cache_after(
    cache: Map<Seq<char>, Seq<char>>,
    name: Seq<char>,
    raw: Option<Seq<char>>,
) -> Map<Seq<char>, Seq<char>> {
    match (known_source(cache, name), raw) {
        (None, Some(raw)) => match module_text(name, raw) {
            Ok(source) => cache.insert(normal_form(name), source),
            Err(_) => cache,
        },
        _ => cache,
    }
}

/// What a load has come to.
pub enum LoadStep {
    /// The module has this source.
    Source(String),
    /// The text of the file has to be read.
    Read,
}

/// The text that a reading gave, if it gave one.
pub open spec fn text_read(raw: Result<String, String>) -> Option<Seq<char>> {
    match raw {
        Ok(raw) => Some(raw@),
        Err(_) => None,
    }
}

impl Default for ModuleResolver {
    fn default() -> (resolver: Self)
        ensures
            resolver@ == Map::<Seq<char>, Seq<char>>::empty(),
    {
        let resolver = ModuleResolver { cache: StringHashMap::new() };
        assert(resolver@ == Map::<Seq<char>, Seq<char>>::empty());
        resolver
    }
}

impl ModuleResolver {
    /// Starts to resolve the import of `name` by the module `base`: the first path
    /// to look up.
    pub fn resolve(&self, base: &str, name: &str) -> (lookup: Lookup)
        ensures
            lookup@ == (LookupView::Joined { path: import_path(base@, name@) }),
            ({
                &&& lookup matches Lookup::Joined { path }
                &&& name@.len() > 0 && name@[0] == '/' ==> path@ == name@
                &&& !(name@.len() > 0 && name@[0] == '/') ==> {
                    let own = components_of(name@);
                    let from = components_of(base@);
                    let added = if own.len() > 0 && own[0] == seq!['.'] {
                        own.skip(1)
                    } else {
                        own
                    };
                    components_of(path@) == if from.len() == 0 || from == seq![seq!['/']] {
                        seq![seq!['.']] + added
                    } else if from.len() == 1 {
                        own
                    } else {
                        from.drop_last() + added
                    }
                }
            }),
    {
        proof {
            law_import_components(base@, name@);
        }
        let path = match parent(base) {
            Some(dir) => join(dir.as_str(), name),
            None => join(".", name),
        };
        Lookup::Joined { path }
    }

    /// Starts to resolve the import of `name` by the module `base` on Windows: the first
    /// path to look up.
    pub fn resolve_windows(&self, base: &str, name: &str) -> (lookup: Lookup)
        ensures
            lookup@ == (LookupView::Joined { path: windows_import_path(base@, name@) }),
            lookup matches Lookup::Joined { path } && path@ == windows_import_path(base@, name@),
    {
        let name = from_windows(name);
        if starts_with_drive(name.as_str()) {
            return Lookup::Joined { path: name };
        }
        let len = name.as_str().unicode_len();
        if starts_with_drive(base) && len > 0 && name.as_str().get_char(0) == '/' && !(len > 1
            && name.as_str().get_char(1) == '/') {
            let drive = base.substring_char(0, 2);
            assert(drive@ == base@.take(2));
            return Lookup::Joined { path: drive.to_owned().concat(name.as_str()) };
        }
        self.resolve(base, name.as_str())
    }

    /// Goes on with the import of `name` by the module `base`, now that `lookup` has
    /// found the canonical path `found`, or nothing.
    ///
    /// What was found is the answer. Failing that, an import of a `.js` file is
    /// looked up as a `.ts` file, generated code becomes the stub, and anything else
    /// is an error.
    pub fn resolve_next(
        &self,
        base: &str,
        name: &str,
        lookup: Lookup,
        found: Option<String>,
    ) -> (next: Result<Resolution, rquickjs::Error>)
        ensures
            match after_lookup(
                lookup@,
                match found {
                    Some(found) => Some(found@),
                    None => None,
                },
            ) {
                ResolutionView::Lookup(expected) => {
                    &&& next matches Ok(Resolution::Lookup(further))
                    &&& further@ == expected
                },
                ResolutionView::Resolved(expected) => {
                    &&& next matches Ok(Resolution::Resolved(module))
                    &&& module@ == expected
                },
                ResolutionView::Unresolved => {
                    &&& next matches Err(error)
                    &&& error_text(error) == resolving_text(base@, name@)
                },
            },
            found matches Some(canonical) ==> (next matches Ok(Resolution::Resolved(module))
                && module@ == canonical@),
            found is None ==> match lookup {
                Lookup::Joined { path } => {
                    &&& has_extension(path@, "js"@) ==> {
                        &&& next matches Ok(Resolution::Lookup(further))
                        &&& further matches Lookup::TypeScript { joined, path: typescript }
                        &&& joined@ == path@
                        &&& typescript@ == replaced_extension(path@, "ts"@)
                    }
                    &&& !has_extension(path@, "js"@) && ends_with_path(
                        path@,
                        "generated/index.js"@,
                    ) ==> (next matches Ok(Resolution::Resolved(module)) && module@
                        == "__gaji_generated_stub__"@)
                    &&& !has_extension(path@, "js"@) && !ends_with_path(
                        path@,
                        "generated/index.js"@,
                    ) ==> (next matches Err(error) && error_text(error)
                        == "Error resolving module '"@ + name@ + "' from '"@ + base@ + "'"@)
                },
                Lookup::TypeScript { joined, path: _ } => {
                    &&& ends_with_path(joined@, "generated/index.js"@) ==> (next matches Ok(
                        Resolution::Resolved(module),
                    ) && module@ == "__gaji_generated_stub__"@)
                    &&& !ends_with_path(joined@, "generated/index.js"@) ==> (next matches Err(error)
                        && error_text(error) == "Error resolving module '"@ + name@ + "' from '"@
                        + base@ + "'"@)
                },
            },
    {
        if let Some(canonical) = found {
            return Ok(Resolution::Resolved(canonical));
        }
        let joined = match lookup {
            Lookup::Joined { path } => {
                if extension_is(path.as_str(), "js") {
                    let typescript = with_extension(path.as_str(), "ts");
                    return Ok(
                        Resolution::Lookup(Lookup::TypeScript { joined: path, path: typescript }),
                    );
                }
                path
            },
            Lookup::TypeScript { joined, .. } => joined,
        };
        if ends_with(joined.as_str(), GENERATED_INDEX) {
            return Ok(Resolution::Resolved(STUB_NAME.to_owned()));
        }
        Err(resolving_error(base, name))
    }

    /// Starts to load the module `name`: gives its source if that is known, and asks
    /// for the text of its file otherwise.
    pub fn load(&self, name: &str) -> (step: LoadStep)
        ensures
            match known_source(self@, name@) {
                Some(expected) => step matches LoadStep::Source(source) && source@ == expected,
                None => step is Read,
            },
    {
        if same_text(name, STUB_NAME) {
            return LoadStep::Source(STUB_SOURCE.to_owned());
        }
        match self.cache.get(normalize(name).as_str()) {
            Some(source) => LoadStep::Source(source.clone()),
            None => LoadStep::Read,
        }
    }

    /// Goes on to load the module `name`, now that the text `raw` of its file was
    /// read, or a message says why it could not be: gives the source of the module,
    /// or the error that it cannot be loaded. Only a source that is given is kept, and a
    /// source that is known by now comes before any text.
    pub fn load_read(&mut self, name: &str, raw: Result<String, String>) -> (source: Result<
        String,
        rquickjs::Error,
    >)
        ensures
            final(self)@ == cache_after(old(self)@, name@, text_read(raw)),
            match raw {
                Ok(text) => final(self)@ == cache_after(old(self)@, name@, Some(text@)),
                Err(_) => final(self)@ == old(self)@,
            },
            match (known_source(old(self)@, name@), raw) {
                (Some(expected), _) => source matches Ok(source) && source@ == expected,
                (None, Ok(raw)) => match module_text(name@, raw@) {
                    Ok(expected) => source matches Ok(source) && source@ == expected,
                    Err(errors) => source matches Err(error) && error_text(error) == loading_text(
                        name@,
                        strip_message(errors),
                    ),
                },
                (None, Err(reason)) => source matches Err(error) && error_text(error)
                    == loading_text(name@, reason@),
            },
    {
        match self.load(name) {
            LoadStep::Source(source) => return Ok(source),
            LoadStep::Read => {},
        }
        let raw = match raw {
            Ok(raw) => raw,
            Err(reason) => return Err(loading_error(name, reason.as_str())),
        };
        match module_source(name, raw) {
            Ok(source) => {
                let ghost before = self@;
                self.cache.insert(normalize(name), source.clone());
                assert(self@ == before.insert(normal_form(name@), source@));
                Ok(source)
            },
            Err(rejection) => Err(loading_error(name, rejection.message().as_str())),
        }
    }
}

/// Ends the load of the module `name` with the source that was found: declares it to
/// the engine, which loads what it imports in turn.
pub fn declare<'js>(ctx: Ctx<'js>, name: &str, source: &str) -> (module: Result<
    Module<'js, Declared>,
    rquickjs::Error,
>)
    ensures
        module_can_be_declared(
            ctx,
            name@,
            source@,
            match module {
                Ok(module) => Ok(module),
                Err(error) => Err(error_text(error)),
            },
        ),
        name@.contains('\0') || source@.contains('\0') ==> module is Err,
{
    declare_module(ctx, name, source)
}

/// Where the import of `name` by `base` leads on a disk that gives each path its
/// canonical form, if there is a file.
pub open spec fn resolution(
    base: Seq<char>,
    name: Seq<char>,
    disk: spec_fn(Seq<char>) -> Option<Seq<char>>,
) -> Option<Seq<char>> {
    let path = import_path(base, name);
    if disk(path) is Some {
        disk(path)
    } else if has_extension(path, "js"@) && disk(replaced_extension(path, "ts"@)) is Some {
        disk(replaced_extension(path, "ts"@))
    } else if ends_with_path(path, GENERATED_INDEX@) {
        Some(STUB_NAME@)
    } else {
        None
    }
}

/// Where a resolution leads that goes on from `lookup`, every lookup being answered
/// by `disk`.
pub open spec fn answered(
    lookup: LookupView,
    disk: spec_fn(Seq<char>) -> Option<Seq<char>>,
) -> Option<Seq<char>>
    decreases
            (if lookup is Joined {
                1int
            } else {
                0
            }),
{
    match after_lookup(lookup, disk(lookup.path())) {
        ResolutionView::Lookup(further) => if further is TypeScript && lookup is Joined {
            answered(further, disk)
        } else {
            None
        },
        ResolutionView::Resolved(module) => Some(module),
        ResolutionView::Unresolved => None,
    }
}

/// Whatever the disk holds, a resolution driven to its end leads where `resolution`
/// says: to the file itself, else from `.js` to `.ts`, else from generated code to
/// the stub, and else nowhere.
pub proof fn law_resolution(
    base: Seq<char>,
    name: Seq<char>,
    disk: spec_fn(Seq<char>) -> Option<Seq<char>>,
)
    ensures
        answered(LookupView::Joined { path: import_path(base, name) }, disk) == resolution(
            base,
            name,
            disk,
        ),
{
    reveal_with_fuel(answered, 2);
}

/// An import of generated code that is not there, in either language, is the stub,
/// whoever imports it and whatever was loaded before. So a config works on a fresh
/// project.
pub proof fn law_generated_stub(
    base: Seq<char>,
    name: Seq<char>,
    disk: spec_fn(Seq<char>) -> Option<Seq<char>>,
    cache: Map<Seq<char>, Seq<char>>,
)
    requires
        ends_with_path(name, GENERATED_INDEX@),
        disk(import_path(base, name)) is None,
        disk(replaced_extension(import_path(base, name), "ts"@)) is None,
    ensures
        resolution(base, name, disk) == Some(STUB_NAME@),
        known_source(cache, STUB_NAME@) == Some(STUB_SOURCE@),
{
    let index = GENERATED_INDEX@;
    reveal_strlit("generated/index.js");
    law_first_component(index);
    match parent_of(base) {
        Some(dir) => law_joined_end(dir, name, index),
        None => law_joined_end("."@, name, index),
    }
}

/// Whether what `disk` finds is an absolute path that leads to itself.
pub open spec fn finds_canonical_paths(disk: spec_fn(Seq<char>) -> Option<Seq<char>>) -> bool {
    forall|path: Seq<char>|
        match #[trigger] disk(path) {
            Some(file) => file.len() > 0 && file[0] == '/' && disk(file) == Some(file),
            None => true,
        }
}

/// On a disk of canonical paths, an import that leads to a file gives an absolute path,
/// and that path leads to itself, whoever imports it.
pub proof fn law_resolved_again(
    base: Seq<char>,
    name: Seq<char>,
    other: Seq<char>,
    disk: spec_fn(Seq<char>) -> Option<Seq<char>>,
    module: Seq<char>,
)
    requires
        finds_canonical_paths(disk),
        resolution(base, name, disk) == Some(module),
        module != STUB_NAME@,
    ensures
        module.len() > 0 && module[0] == '/',
        disk(module) == Some(module),
        resolution(other, module, disk) == Some(module),
{
    let path = import_path(base, name);
    if disk(path) is None {
        assert(disk(replaced_extension(path, "ts"@)) == Some(module));
    }
    assert(import_path(other, module) == module);
}

/// Whether a `.` part within a path makes no difference to `disk`.
pub open spec fn skips_here(disk: spec_fn(Seq<char>) -> Option<Seq<char>>) -> bool {
    forall|path: Seq<char>, here: Seq<char>| #[trigger]
        differ_by_here(path, here) ==> disk(path) == disk(here)
}

/// A relative name and the same name behind `./` lead to the same place: a bare name is
/// looked up beside the importer.
pub proof fn law_bare_name(
    base: Seq<char>,
    name: Seq<char>,
    disk: spec_fn(Seq<char>) -> Option<Seq<char>>,
)
    requires
        name.len() > 0,
        name[0] != '/',
        skips_here(disk),
    ensures
        resolution(base, name, disk) == resolution(base, seq!['.', '/'] + name, disk),
{
    reveal_strlit("generated/index.js");
    law_first_component(GENERATED_INDEX@);
    let dir = match parent_of(base) {
        Some(dir) => dir,
        None => "."@,
    };
    law_here(dir, name, "ts"@, GENERATED_INDEX@);
}

/// Two names of one path, neither of them the stub's, share one cached source.
pub proof fn law_shared_source(
    cache: Map<Seq<char>, Seq<char>>,
    name: Seq<char>,
    other: Seq<char>,
)
    requires
        same_path(name, other),
        name != STUB_NAME@,
        other != STUB_NAME@,
    ensures
        known_source(cache, name) == known_source(cache, other),
{
    law_normal_form(name, other);
}

/// Once the text of its file was read, a module is known by the source that it had
/// before, or else by the source that the text became; a text that could not be
/// stripped leaves it unknown.
pub proof fn law_loaded_is_known(
    cache: Map<Seq<char>, Seq<char>>,
    name: Seq<char>,
    raw: Seq<char>,
)
    ensures
        known_source(cache_after(cache, name, Some(raw)), name) == match known_source(cache, name) {
            Some(source) => Some(source),
            None => match module_text(name, raw) {
                Ok(source) => Some(source),
                Err(_) => None,
            },
        },
{
}

/// The cache once each of `loads` was loaded, first to last: names, each with the
/// text of its file if that can be read.
pub open spec fn cache_after_all(
    cache: Map<Seq<char>, Seq<char>>,
    loads: Seq<(Seq<char>, Option<Seq<char>>)>,
) -> Map<Seq<char>, Seq<char>>
    decreases loads.len(),
{
    if loads.len() == 0 {
        cache
    } else {
        let (name, raw) = loads.last();
        cache_after(cache_after_all(cache, loads.drop_last()), name, raw)
    }
}

/// A source that is known stays known and unchanged through every later load, so no
/// file is read or stripped a second time.
pub proof fn law_known_for_good(
    cache: Map<Seq<char>, Seq<char>>,
    name: Seq<char>,
    loads: Seq<(Seq<char>, Option<Seq<char>>)>,
)
    requires
        known_source(cache, name) is Some,
    ensures
        known_source(cache_after_all(cache, loads), name) == known_source(cache, name),
    decreases loads.len(),
{
    if loads.len() > 0 {
        law_known_for_good(cache, name, loads.drop_last());
    }
}

/// Once a module was loaded, every later load gives the same source, whatever was loaded
/// in between and whatever its file holds by then; a resolver of its own reads the file.
pub proof fn law_loaded_once(
    cache: Map<Seq<char>, Seq<char>>,
    name: Seq<char>,
    raw: Seq<char>,
    loads: Seq<(Seq<char>, Option<Seq<char>>)>,
    later: Option<Seq<char>>,
)
    requires
        known_source(cache, name) is None,
        module_text(name, raw) is Ok,
    ensures
        ({
            let kept = cache_after_all(cache_after(cache, name, Some(raw)), loads);
            &&& known_source(kept, name) == Some(module_text(name, raw)->Ok_0)
            &&& cache_after(kept, name, later) == kept
        }),
        known_source(Map::empty(), name) is None,
{
    law_known_for_good(cache_after(cache, name, Some(raw)), name, loads);
}

/// What is in the cache after some loads and was not before is the source of a module
/// that was loaded by then, under its path. Nothing else is ever kept: not the stub, not
/// a text that could not be stripped, and no file that was only run.
pub proof fn law_new_keys(
    cache: Map<Seq<char>, Seq<char>>,
    loads: Seq<(Seq<char>, Option<Seq<char>>)>,
    key: Seq<char>,
)
    requires
        cache_after_all(cache, loads).contains_key(key),
        !cache.contains_key(key),
    ensures
        exists|i: int|
            0 <= i < loads.len() && key == normal_form((#[trigger] loads[i]).0) && loads[i].0
                != STUB_NAME@ && loads[i].1 is Some && module_text(loads[i].0, loads[i].1->0) == Ok::<
                _,
                Seq<Seq<char>>,
            >(cache_after_all(cache, loads)[key]),
    decreases loads.len(),
{
    let front = loads.drop_last();
    let before = cache_after_all(cache, front);
    if before.contains_key(key) {
        law_new_keys(cache, front, key);
        let i = choose|i: int|
            0 <= i < front.len() && key == normal_form((#[trigger] front[i]).0) && front[i].0
                != STUB_NAME@ && front[i].1 is Some && module_text(front[i].0, front[i].1->0) == Ok::<
                _,
                Seq<Seq<char>>,
            >(before[key]);
        assert(loads[i] == front[i]);
    } else {
        assert(loads[loads.len() - 1] == loads.last());
    }
}

/// The stub is there only as long as generated code is not: once its file is found, the
/// import is that file. The stub is never kept, so a file that was not known is then
/// read, unless one of the loads in between was its own.
pub proof fn law_stub_gives_way(
    base: Seq<char>,
    name: Seq<char>,
    later: spec_fn(Seq<char>) -> Option<Seq<char>>,
    cache: Map<Seq<char>, Seq<char>>,
    loads: Seq<(Seq<char>, Option<Seq<char>>)>,
    file: Seq<char>,
)
    requires
        later(import_path(base, name)) == Some(file),
        file != STUB_NAME@,
        known_source(cache, file) is None,
        forall|i: int|
            0 <= i < loads.len() ==> (#[trigger] loads[i]).0 == STUB_NAME@ || !same_path(
                loads[i].0,
                file,
            ),
    ensures
        resolution(base, name, later) == Some(file),
        forall|raw: Option<Seq<char>>| #[trigger] cache_after(cache, STUB_NAME@, raw) == cache,
        known_source(cache_after_all(cache, loads), file) is None,
{
    let key = normal_form(file);
    if cache_after_all(cache, loads).contains_key(key) {
        law_new_keys(cache, loads, key);
        let i = choose|i: int|
            0 <= i < loads.len() && key == normal_form((#[trigger] loads[i]).0) && loads[i].0
                != STUB_NAME@;
        law_normal_form(loads[i].0, file);
    }
}

/// A path that none of the loads is of, such as that of a workflow that is only run, is
/// in the cache after them exactly if it was before, and with the same source.
pub proof fn law_unloaded_stays(
    cache: Map<Seq<char>, Seq<char>>,
    loads: Seq<(Seq<char>, Option<Seq<char>>)>,
    path: Seq<char>,
)
    requires
        forall|i: int| 0 <= i < loads.len() ==> !same_path((#[trigger] loads[i]).0, path),
    ensures
        known_source(cache_after_all(cache, loads), path) == known_source(cache, path),
        cache_after_all(cache, loads).contains_key(normal_form(path)) == cache.contains_key(
            normal_form(path),
        ),
    decreases loads.len(),
{
    if loads.len() > 0 {
        let front = loads.drop_last();
        assert forall|i: int| 0 <= i < front.len() implies !same_path(
            (#[trigger] front[i]).0,
            path,
        ) by {
            assert(front[i] == loads[i]);
        }
        law_unloaded_stays(cache, front, path);
        assert(!same_path(loads[loads.len() - 1].0, path));
        law_normal_form(loads.last().0, path);
    }
}

/// An import is looked up beside its importer: the path has the components of the importer
/// but the last, and behind them those of the name, of which a leading `.` adds nothing. An
/// importer that lies in no directory of its own leaves the name as it is. The empty path
/// and the root stand for the current directory, and an absolute name for itself.
pub proof fn law_import_components(base: Seq<char>, name: Seq<char>)
    ensures
        name.len() > 0 && name[0] == '/' ==> import_path(base, name) == name,
        !(name.len() > 0 && name[0] == '/') ==> {
            let own = components_of(name);
            let from = components_of(base);
            let added = if own.len() > 0 && own[0] == seq!['.'] {
                own.skip(1)
            } else {
                own
            };
            components_of(import_path(base, name)) == if from.len() == 0 || from == seq![
                seq!['/'],
            ] {
                seq![seq!['.']] + added
            } else if from.len() == 1 {
                own
            } else {
                from.drop_last() + added
            }
        },
{
    law_parent_text(base);
    law_components(base, seq!['.']);
    reveal_strlit(".");
    assert("."@ == seq!['.']);
    if !(name.len() > 0 && name[0] == '/') {
        match parent_of(base) {
            Some(dir) => {
                if dir.len() > 0 {
                    law_joined(dir, name);
                    law_first_component(dir);
                } else {
                    assert(joined(dir, name) == name);
                    assert(components_of(dir).len() == 0);
                }
            },
            None => {
                law_joined("."@, name);
            },
        }
    }
}

/// The path of an import is spelled as the parent of its importer, one separator unless
/// the parent is empty or ends in one, and the name as it was written.
pub proof fn law_import_text(base: Seq<char>, name: Seq<char>, dir: Seq<char>)
    requires
        parent_of(base) == Some(dir),
        name.len() > 0 ==> name[0] != '/',
    ensures
        dir.len() == 0 || dir.last() == '/' ==> import_path(base, name) == dir + name,
        dir.len() > 0 && dir.last() != '/' ==> import_path(base, name) == dir + seq!['/'] + name,
{
    law_joined_text(dir, name);
}

/// On Windows a name with a drive stands for itself, one from the root takes the drive of
/// its importer, and any other is looked up beside its importer.
pub proof fn law_windows_import(base: Seq<char>, name: Seq<char>)
    requires
        !name.contains('\\'),
    ensures
        name.len() >= 2 && ('a' <= name[0] <= 'z' || 'A' <= name[0] <= 'Z') && name[1] == ':'
            ==> windows_import_path(base, name) == name,
        name.len() > 0 && name[0] == '/' && !(name.len() > 1 && name[1] == '/') && base.len() >= 2
            && ('a' <= base[0] <= 'z' || 'A' <= base[0] <= 'Z') && base[1] == ':'
            ==> windows_import_path(base, name) == base.take(2) + name,
        name.len() > 1 && name[0] == '/' && name[1] == '/' ==> windows_import_path(base, name)
            == name,
        (name.len() == 0 || name[0] != '/') && !(name.len() >= 2 && name[1] == ':')
            ==> windows_import_path(base, name) == import_path(base, name),
{
    law_portable(name);
}

/// A lookup and what it names are seen as they are.
pub proof fn law_lookup_view(lookup: Lookup)
    ensures
        match lookup {
            Lookup::Joined { path } => {
                &&& lookup@ == (LookupView::Joined { path: path@ })
                &&& lookup@.path() == path@
            },
            Lookup::TypeScript { joined, path } => {
                &&& lookup@ == (LookupView::TypeScript { joined: joined@, path: path@ })
                &&& lookup@.path() == path@
            },
        },
{
}

/// A file that is there is what the import leads to, whatever it is called.
pub proof fn law_found_file_wins(
    path: Seq<char>,
    disk: spec_fn(Seq<char>) -> Option<Seq<char>>,
    file: Seq<char>,
)
    requires
        disk(path) == Some(file),
    ensures
        after_lookup(LookupView::Joined { path }, disk(path)) == ResolutionView::Resolved(file),
        answered(LookupView::Joined { path }, disk) == Some(file),
{
}

/// A `.js` file that is not there leads to the `.ts` file of the same directory and stem,
/// if that is there, whatever the two are called.
pub proof fn law_js_leads_to_ts(
    front: Seq<char>,
    stem: Seq<char>,
    disk: spec_fn(Seq<char>) -> Option<Seq<char>>,
    file: Seq<char>,
)
    requires
        front.len() > 0 ==> front.last() == '/',
        stem.len() > 0,
        !stem.contains('/'),
        stem != seq!['.'],
        disk(front + (stem.push('.') + "js"@)) is None,
        disk(front + (stem.push('.') + "ts"@)) == Some(file),
    ensures
        ({
            let js = front + (stem.push('.') + "js"@);
            let ts = front + (stem.push('.') + "ts"@);
            &&& after_lookup(LookupView::Joined { path: js }, None) == ResolutionView::Lookup(
                LookupView::TypeScript { joined: js, path: ts },
            )
            &&& after_lookup(LookupView::TypeScript { joined: js, path: ts }, disk(ts))
                == ResolutionView::Resolved(file)
            &&& answered(LookupView::Joined { path: js }, disk) == Some(file)
        }),
{
    reveal_strlit("js");
    reveal_strlit("ts");
    let js = front + (stem.push('.') + "js"@);
    let none = Seq::<char>::empty();
    law_replaced_text(front, stem, "js"@, none, "ts"@);
    assert(js + none == js);
    reveal_with_fuel(answered, 2);
}

/// Whatever is imported by whom: if the path has the extension `js` and is not there, and
/// the path with the extension `ts` is, that is where the import leads.
pub proof fn law_import_falls_back(
    base: Seq<char>,
    name: Seq<char>,
    disk: spec_fn(Seq<char>) -> Option<Seq<char>>,
)
    requires
        extension_of(import_path(base, name)) == Some("js"@),
        disk(import_path(base, name)) is None,
        disk(replaced_extension(import_path(base, name), "ts"@)) is Some,
    ensures
        answered(LookupView::Joined { path: import_path(base, name) }, disk) == disk(
            replaced_extension(import_path(base, name), "ts"@),
        ),
        resolution(base, name, disk) == disk(replaced_extension(import_path(base, name), "ts"@)),
{
    reveal_with_fuel(answered, 2);
}

/// Only a `.js` file that is not there is looked up again. Where nothing is found, an
/// import that ends with `generated/index.js` leads to the stub, and any other nowhere.
pub proof fn law_nothing_found(
    path: Seq<char>,
    disk: spec_fn(Seq<char>) -> Option<Seq<char>>,
)
    requires
        disk(path) is None,
        extension_of(path) == Some("js"@) ==> disk(replaced_extension(path, "ts"@)) is None,
    ensures
        extension_of(path) != Some("js"@) ==> !(after_lookup(LookupView::Joined { path }, None)
            is Lookup),
        ends_with_path(path, "generated/index.js"@) ==> answered(
            LookupView::Joined { path },
            disk,
        ) == Some("__gaji_generated_stub__"@),
        !ends_with_path(path, "generated/index.js"@) ==> answered(
            LookupView::Joined { path },
            disk,
        ) is None,
{
    reveal_with_fuel(answered, 2);
}

/// A `.ts` file is stripped under its own name, with its extension, whatever it is called
/// and wherever it lies. So it is never read as the dialect of a name without extension.
pub proof fn law_ts_is_stripped_by_name(front: Seq<char>, stem: Seq<char>, raw: Seq<char>)
    requires
        front.len() > 0 ==> front.last() == '/',
        stem.len() > 0,
        !stem.contains('/'),
    ensures
        module_text(front + (stem.push('.') + "ts"@), raw) == stripped(raw, stem.push('.') + "ts"@),
        extension_of(stem.push('.') + "ts"@) == Some("ts"@),
        names_dialect(stem.push('.') + "ts"@),
{
    reveal_strlit("ts");
    let name = stem.push('.') + "ts"@;
    assert forall|i: int| 0 <= i < name.len() implies name[i] != '/' by {
        if i < stem.len() && name[i] == '/' {
            assert(stem[i] == '/');
        }
    }
    assert(!"ts"@.contains('.'));
    law_named_file(front, name);
    law_named_file(Seq::empty(), name);
    assert(Seq::<char>::empty() + name == name);
    law_extension_exactly(front + name, "ts"@);
    law_extension_exactly(name, "ts"@);
    assert(stem.push('.') + "ts"@ == name);
}

/// Exactly the files with the extension `ts` are stripped, each under the last component
/// of its path. Any other is run as it was read.
pub proof fn law_only_ts_is_stripped(path: Seq<char>, raw: Seq<char>)
    ensures
        extension_of(path) == Some("ts"@) ==> components_of(path).len() > 0 && module_text(path, raw)
            == stripped(raw, components_of(path).last()),
        extension_of(path) != Some("ts"@) ==> module_text(path, raw) == Ok::<_, Seq<Seq<char>>>(raw),
{
    law_file_name_exactly(path);
}

/// The texts of the errors of resolving and loading.
pub proof fn law_error_texts(base: Seq<char>, name: Seq<char>, message: Seq<char>)
    ensures
        resolving_text(base, name) == "Error resolving module '"@ + name + "' from '"@ + base
            + "'"@,
        message.len() > 0 ==> loading_text(name, message) == "Error loading module '"@ + name
            + "': "@ + message,
        loading_text(name, Seq::empty()) == "Error loading module '"@ + name + "'"@,
{
}

/// The stub is known to every resolver, and has the same source in each. Any other module
/// is unknown to a resolver that nothing was loaded with.
pub proof fn law_stub_is_known(cache: Map<Seq<char>, Seq<char>>, name: Seq<char>)
    ensures
        known_source(cache, "__gaji_generated_stub__"@) == Some(
            "export const defineConfig = function(c) { return c; };"@,
        ),
        name != "__gaji_generated_stub__"@ ==> known_source(Map::empty(), name) is None,
{
}

/// A load keeps the source of its own module and leaves every other as it was. A text that
/// could not be read or stripped leaves them all.
pub proof fn law_load_is_local(
    cache: Map<Seq<char>, Seq<char>>,
    name: Seq<char>,
    raw: Option<Seq<char>>,
    other: Seq<char>,
)
    ensures
        components_of(name) != components_of(other) ==> known_source(
            cache_after(cache, name, raw),
            other,
        ) == known_source(cache, other),
        raw is None ==> cache_after(cache, name, raw) == cache,
        raw matches Some(text) && module_text(name, text) is Err ==> cache_after(cache, name, raw)
            == cache,
        known_source(cache, name) is Some ==> cache_after(cache, name, raw) == cache,
        known_source(cache, name) is None ==> (raw matches Some(text) ==> (module_text(name, text)
            matches Ok(source) ==> known_source(cache_after(cache, name, raw), name) == Some(
            source,
        ))),
{
    law_normal_form(name, other);
}

/// Loads are made one after the other.
pub proof fn law_loads_in_order(
    cache: Map<Seq<char>, Seq<char>>,
    loads: Seq<(Seq<char>, Option<Seq<char>>)>,
    name: Seq<char>,
    raw: Option<Seq<char>>,
)
    ensures
        cache_after_all(cache, Seq::empty()) == cache,
        cache_after_all(cache, loads.push((name, raw))) == cache_after(
            cache_after_all(cache, loads),
            name,
            raw,
        ),
{
    assert(loads.push((name, raw)).drop_last() == loads);
}

} // verus!
