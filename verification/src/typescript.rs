//! TypeScript to JavaScript.
//!
//! The work is done by the oxc crates: parse, resolve the scopes, transform,
//! print. Their syntax trees and scope tables stay opaque here; a contract speaks
//! of one by a number, and equal numbers stand for equal trees or tables.
use vstd::prelude::*;

use std::path::Path;

use oxc_allocator::Allocator;
use oxc_codegen::Codegen;
use oxc_parser::{Parser, ParserReturn};
use oxc_semantic::{Scoping, SemanticBuilder};
use oxc_span::SourceType;
use oxc_transformer::{TransformOptions, Transformer};

use crate::path::extension_of;
use crate::text::{join_lines, joined_lines, law_joined_lines, texts};

verus! {

/// `oxc_allocator::Allocator`: the arena that a syntax tree lives in.
#[verifier::external_type_specification]
#[verifier::external_body]
pub struct ExAllocator(Allocator);

/// `oxc_span::SourceType`: the dialect that a source is written in.
#[verifier::external_type_specification]
#[verifier::external_body]
pub struct ExSourceType(SourceType);

/// `oxc_parser::ParserReturn`: a syntax tree with the diagnostics of its parse.
#[verifier::external_type_specification]
#[verifier::external_body]
pub struct ExParserReturn<'a>(ParserReturn<'a>);

/// `oxc_semantic::Scoping`: the scope table of a syntax tree.
#[verifier::external_type_specification]
#[verifier::external_body]
pub struct ExScoping(Scoping);

/// What `SourceType::from_path` returns for `path`, with `None` for its error.
pub uninterp spec fn source_type_of(path: Seq<char>) -> Option<SourceType>;

/// Whether `kind` is what `SourceType::tsx` returns.
pub uninterp spec fn is_tsx(kind: SourceType) -> bool;

/// The messages of the diagnostics in `parsed`, in order.
pub uninterp spec fn messages_in(parsed: ParserReturn<'_>) -> Seq<Seq<char>>;

/// The number of the syntax tree in `parsed`.
pub uninterp spec fn tree_in(parsed: ParserReturn<'_>) -> int;

/// The number of a scope table.
pub uninterp spec fn table_in(scoping: Scoping) -> int;

/// The messages that parsing `source` as `kind` gives, in order.
pub uninterp spec fn parse_messages(source: Seq<char>, kind: SourceType) -> Seq<Seq<char>>;

/// The tree that parsing `source` as `kind` gives.
pub uninterp spec fn parsed_tree(source: Seq<char>, kind: SourceType) -> int;

/// The scope table that `SemanticBuilder` makes for `tree`.
pub uninterp spec fn scopes_of(tree: int) -> int;

/// `tree` once its nodes point into the table that `scopes_of` gives.
pub uninterp spec fn bound_tree(tree: int) -> int;

/// The tree that `Transformer`, with default options, makes of `tree` under
/// `path`, given the scope table `scopes`.
pub uninterp spec fn transformed_tree(path: Seq<char>, scopes: int, tree: int) -> int;

/// What `Codegen`, with default options, prints for `tree`.
pub uninterp spec fn printed(tree: int) -> Seq<char>;

/// The dialect TypeScript with JSX.
pub open spec fn tsx() -> SourceType {
    choose|kind: SourceType| is_tsx(kind)
}

/// The dialect that a file of this name is read in: what its extension says, or
/// TypeScript with JSX.
pub open spec fn dialect(filename: Seq<char>) -> SourceType {
    match source_type_of(filename) {
        Some(kind) => kind,
        None => tsx(),
    }
}

/// The JavaScript for `source`, read as `kind`, as the contents of `filename`: parsed,
/// bound to its scopes, transformed and printed.
pub open spec fn emitted(source: Seq<char>, filename: Seq<char>, kind: SourceType) -> Seq<char> {
    let tree = parsed_tree(source, kind);
    printed(transformed_tree(filename, scopes_of(tree), bound_tree(tree)))
}

/// What stripping `source`, read as `kind`, as the contents of `filename` gives: its
/// JavaScript, or the parser's messages if there is one.
pub open spec fn stripped_as(source: Seq<char>, filename: Seq<char>, kind: SourceType) -> Result<
    Seq<char>,
    Seq<Seq<char>>,
> {
    if parse_messages(source, kind).len() == 0 {
        Ok(emitted(source, filename, kind))
    } else {
        Err(parse_messages(source, kind))
    }
}

/// What stripping `source` as the contents of `filename` gives: its JavaScript, or the
/// parser's messages if there is one.
pub open spec fn stripped(source: Seq<char>, filename: Seq<char>) -> Result<
    Seq<char>,
    Seq<Seq<char>>,
> {
    stripped_as(source, filename, dialect(filename))
}

/// The texts in a result of stripping.
pub open spec fn strip_view(code: Result<String, StripError>) -> Result<Seq<char>, Seq<Seq<char>>> {
    match code {
        Ok(code) => Ok(code@),
        Err(rejection) => Err(texts(rejection.errors@)),
    }
}

/// The file extensions that name a dialect.
pub open spec fn is_source_extension(extension: Seq<char>) -> bool {
    ||| extension == "js"@
    ||| extension == "mjs"@
    ||| extension == "cjs"@
    ||| extension == "jsx"@
    ||| extension == "ts"@
    ||| extension == "mts"@
    ||| extension == "cts"@
    ||| extension == "tsx"@
}

/// Whether the extension of `path` names a dialect.
pub open spec fn names_dialect(path: Seq<char>) -> bool {
    extension_of(path) is Some && is_source_extension(extension_of(path)->0)
}

/// Whether every platform finds the same file name in `path`: there is no `\` and no
/// `:` in it, and it does not start with two separators.
pub open spec fn is_portable(path: Seq<char>) -> bool {
    &&& !path.contains('\\')
    &&& !path.contains(':')
    &&& !(path.len() > 1 && path[0] == '/' && path[1] == '/')
}

/// `Allocator::default`: a new, empty arena. Nothing is claimed of it.
#[verifier::external_body]
fn new_allocator() -> (allocator: Allocator) {
    Allocator::default()
}

/// `SourceType::from_path`: the dialect that goes with the extension of `path`.
/// There is one exactly for the listed extensions. That is claimed of paths in which
/// every platform finds the same file name; of others, only that the platform settles it.
#[verifier::external_body]
fn source_type(path: &str) -> (kind: Option<SourceType>)
    ensures
        kind == source_type_of(path@),
        is_portable(path@) ==> (kind is Some <==> names_dialect(path@)),
{
    SourceType::from_path(Path::new(path)).ok()
}

/// `SourceType::tsx`: always the same dialect, TypeScript with JSX.
#[verifier::external_body]
fn tsx_type() -> (kind: SourceType)
    ensures
        is_tsx(kind),
        kind == tsx(),
{
    SourceType::tsx()
}

/// `Parser::parse`: the tree, and the messages with their order, depend on the source
/// text and the dialect alone.
#[verifier::external_body]
fn parse<'a>(allocator: &'a Allocator, source: &'a str, kind: SourceType) -> (parsed: ParserReturn<
    'a,
>)
    ensures
        tree_in(parsed) == parsed_tree(source@, kind),
        messages_in(parsed) == parse_messages(source@, kind),
{
    Parser::new(allocator, source, kind).parse()
}

/// `OxcDiagnostic::to_string` of each diagnostic, in the order they have.
#[verifier::external_body]
fn error_messages(parsed: &ParserReturn<'_>) -> (messages: Vec<String>)
    ensures
        texts(messages@) == messages_in(*parsed),
{
    parsed.errors.iter().map(|error| error.to_string()).collect()
}

/// `SemanticBuilder::build`: makes the scope table of the tree and notes in the
/// tree's nodes where they stand in it. The parse diagnostics stay.
#[verifier::external_body]
fn bind(parsed: &mut ParserReturn<'_>) -> (scoping: Scoping)
    ensures
        table_in(scoping) == scopes_of(tree_in(*old(parsed))),
        tree_in(*final(parsed)) == bound_tree(tree_in(*old(parsed))),
        messages_in(*final(parsed)) == messages_in(*old(parsed)),
{
    SemanticBuilder::new().build(&parsed.program).semantic.into_scoping()
}

/// `Transformer::build_with_scoping`, with default options: rewrites the tree. It
/// looks the tree's nodes up in the table, so the two must belong together. The
/// diagnostics of the transformation are dropped.
#[verifier::external_body]
fn transform<'a>(
    allocator: &'a Allocator,
    path: &str,
    scoping: Scoping,
    parsed: &mut ParserReturn<'a>,
)
    requires
        exists|tree: int|
            table_in(scoping) == scopes_of(tree) && tree_in(*old(parsed)) == #[trigger] bound_tree(
                tree,
            ),
    ensures
        tree_in(*final(parsed)) == transformed_tree(
            path@,
            table_in(scoping),
            tree_in(*old(parsed)),
        ),
        messages_in(*final(parsed)) == messages_in(*old(parsed)),
{
    let options = TransformOptions::default();
    Transformer::new(allocator, Path::new(path), &options).build_with_scoping(
        scoping,
        &mut parsed.program,
    );
}

/// `Codegen::build`, with default options: the text depends on the tree alone.
#[verifier::external_body]
fn print(parsed: &ParserReturn<'_>) -> (code: String)
    ensures
        code@ == printed(tree_in(*parsed)),
{
    Codegen::new().build(&parsed.program).code
}

/// Why a source could not be stripped: the parser's messages, at least one.
#[derive(Debug)]
pub struct StripError {
    pub errors: Vec<String>,
}

/// The text of a rejection with these messages.
pub open spec fn strip_message(errors: Seq<Seq<char>>) -> Seq<char> {
    "Parse errors:\n"@ + joined_lines(errors)
}

impl StripError {
    /// The rejection as a text: a heading, and a line for each message.
    pub fn message(&self) -> (text: String)
        ensures
            text@ == strip_message(texts(self.errors@)),
    {
        let mut text = "Parse errors:\n".to_owned();
        text.append(join_lines(&self.errors).as_str());
        text
    }
}

/// Lets a parse through that left no message, and rejects any other with all its
/// messages, as they came.
pub fn check_parse(errors: Vec<String>) -> (checked: Result<(), StripError>)
    ensures
        checked is Ok <==> errors@.len() == 0,
        checked matches Err(rejection) ==> rejection.errors@ == errors@,
{
    if errors.len() > 0 {
        return Err(StripError { errors });
    }
    Ok(())
}

/// The JavaScript for the TypeScript `source`, read as the contents of a file that
/// is called `filename`. A name without an extension, or with one that names no
/// dialect, stands for TypeScript with JSX.
///
/// A source that does not parse is rejected with every message of the parser, in the
/// parser's order, and only such a source is.
pub fn strip_typescript(source: &str, filename: &str) -> (code: Result<String, StripError>)
    ensures
        strip_view(code) == stripped(source@, filename@),
        ({
            let kind = match source_type_of(filename@) {
                Some(kind) => kind,
                None => tsx(),
            };
            let tree = parsed_tree(source@, kind);
            let messages = parse_messages(source@, kind);
            match code {
                Ok(code) => messages.len() == 0 && code@ == printed(
                    transformed_tree(filename@, scopes_of(tree), bound_tree(tree)),
                ),
                Err(rejection) => {
                    &&& messages.len() > 0
                    &&& rejection.errors@.len() == messages.len()
                    &&& forall|i: int|
                        0 <= i < messages.len() ==> (#[trigger] rejection.errors@[i])@
                            == messages[i]
                },
            }
        }),
        is_portable(filename@) && !names_dialect(filename@) ==> strip_view(code) == stripped_as(
            source@,
            filename@,
            tsx(),
        ),
{
    let allocator = new_allocator();
    let kind = match source_type(filename) {
        Some(kind) => kind,
        None => tsx_type(),
    };
    let mut parsed = parse(&allocator, source, kind);
    let errors = error_messages(&parsed);
    assert(forall|i: int|
        0 <= i < errors@.len() ==> (#[trigger] errors@[i])@ == texts(errors@)[i]);
    match check_parse(errors) {
        Ok(()) => {},
        Err(rejection) => return Err(rejection),
    }
    let scoping = bind(&mut parsed);
    transform(&allocator, filename, scoping, &mut parsed);
    Ok(print(&parsed))
}

/// Whatever the source, one that the parser has no message for is bound, transformed and
/// printed, and one that it has a message for is refused with all of them, as they came.
/// The dialect is what the file's name stands for, and TypeScript with JSX where it stands
/// for none.
pub proof fn law_every_source_is_printed(source: Seq<char>, filename: Seq<char>, kind: SourceType)
    ensures
        source_type_of(filename) == Some(kind) ==> stripped(source, filename) == stripped_as(
            source,
            filename,
            kind,
        ),
        source_type_of(filename) is None ==> stripped(source, filename) == stripped_as(
            source,
            filename,
            choose|kind: SourceType| is_tsx(kind),
        ),
        parse_messages(source, kind).len() == 0 ==> stripped_as(source, filename, kind) == Ok::<
            _,
            Seq<Seq<char>>,
        >(
            printed(
                transformed_tree(
                    filename,
                    scopes_of(parsed_tree(source, kind)),
                    bound_tree(parsed_tree(source, kind)),
                ),
            ),
        ),
        parse_messages(source, kind).len() > 0 ==> stripped_as(source, filename, kind) == Err::<
            Seq<char>,
            _,
        >(parse_messages(source, kind)),
{
}

/// A result of stripping is seen as it is: the whole code, or every message in its place.
pub proof fn law_strip_view(code: Result<String, StripError>, i: int)
    ensures
        match code {
            Ok(code) => strip_view(Ok(code)) == Ok::<_, Seq<Seq<char>>>(code@),
            Err(rejection) => {
                &&& strip_view(Err(rejection)) matches Err(errors)
                &&& errors.len() == rejection.errors@.len()
                &&& 0 <= i < errors.len() ==> errors[i] == rejection.errors@[i]@
            },
        },
{
}

/// A rejection names all its messages under one heading, in their order and with one line
/// break between each two.
pub proof fn law_strip_message(
    message: Seq<char>,
    front: Seq<Seq<char>>,
    back: Seq<Seq<char>>,
)
    ensures
        strip_message(seq![message]) == "Parse errors:\n"@ + message,
        front.len() > 0 && back.len() > 0 ==> strip_message(front + back) == strip_message(front)
            + seq!['\n'] + joined_lines(back),
{
    law_joined_lines(message, front, back);
    let heading = "Parse errors:\n"@;
    assert(heading + (joined_lines(front) + seq!['\n'] + joined_lines(back)) == heading
        + joined_lines(front) + seq!['\n'] + joined_lines(back));
}

/// Eight extensions name a dialect, and a path names one exactly if it has one of these.
pub proof fn law_names_dialect(path: Seq<char>)
    ensures
        names_dialect(path) <==> {
            ||| extension_of(path) == Some("js"@)
            ||| extension_of(path) == Some("mjs"@)
            ||| extension_of(path) == Some("cjs"@)
            ||| extension_of(path) == Some("jsx"@)
            ||| extension_of(path) == Some("ts"@)
            ||| extension_of(path) == Some("mts"@)
            ||| extension_of(path) == Some("cts"@)
            ||| extension_of(path) == Some("tsx"@)
        },
{
}

} // verus!
