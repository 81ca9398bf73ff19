//! Paths as text, with `/` between the parts.
//!
//! Nothing here looks at a disk. Two spellings name the same path when their
//! components agree: repeated separators, a trailing separator and every `.`
//! but a leading one carry no meaning. A host on Windows hands its paths over as
//! [`from_windows`] spells them.
use vstd::prelude::*;

use crate::text::{same_text, texts};

verus! {

/// `path` without the separators and `.` parts at its end.
pub open spec fn trimmed(path: Seq<char>) -> Seq<char>
    decreases path.len(),
{
    if path.len() > 1 && path.last() == '/' {
        trimmed(path.drop_last())
    } else if path.len() > 1 && path.last() == '.' && path[path.len() - 2] == '/' {
        trimmed(path.drop_last())
    } else {
        path
    }
}

/// Where the text behind the last separator of `path` starts.
pub open spec fn last_start(path: Seq<char>) -> nat
    decreases path.len(),
{
    if path.len() == 0 || path.last() == '/' {
        path.len()
    } else {
        last_start(path.drop_last())
    }
}

/// The text behind the last separator of `path`.
pub open spec fn last_part(path: Seq<char>) -> Seq<char> {
    path.skip(last_start(path) as int)
}

/// `path` up to and with its last separator.
pub open spec fn before_last(path: Seq<char>) -> Seq<char> {
    path.take(last_start(path) as int)
}

/// The root directory.
pub open spec fn root() -> Seq<char> {
    seq!['/']
}

/// The parts of `path`, front to back: `/` for the root, `.` for a leading
/// current directory, `..` for each step up, and the names.
pub open spec fn components_of(path: Seq<char>) -> Seq<Seq<char>>
    decreases path.len(),
    via components_of_terminates
{
    let t = trimmed(path);
    if t.len() == 0 {
        Seq::empty()
    } else if t == root() {
        seq![root()]
    } else {
        components_of(before_last(t)).push(last_part(t))
    }
}

#[via_fn]
proof fn components_of_terminates(path: Seq<char>) {
    lemma_trimmed(path);
    lemma_last_start(trimmed(path));
}

/// Whether two spellings name the same path.
pub open spec fn same_path(a: Seq<char>, b: Seq<char>) -> bool {
    components_of(a) == components_of(b)
}

/// The directory that `path` lies in: `path` without its last component.
/// The root and the empty path have none.
pub open spec fn parent_of(path: Seq<char>) -> Option<Seq<char>> {
    let t = trimmed(path);
    if t.len() == 0 || t == root() {
        None
    } else {
        Some(trimmed(before_last(t)))
    }
}

/// `name` as seen from the directory `dir`; an absolute `name` stands for itself.
pub open spec fn joined(dir: Seq<char>, name: Seq<char>) -> Seq<char> {
    if name.len() > 0 && name[0] == '/' {
        name
    } else if dir.len() == 0 || dir.last() == '/' {
        dir + name
    } else {
        dir.push('/') + name
    }
}

/// The last component of `path`, if it is a name.
pub open spec fn file_name_of(path: Seq<char>) -> Option<Seq<char>> {
    let name = last_part(trimmed(path));
    if name.len() == 0 || name == seq!['.'] || name == seq!['.', '.'] {
        None
    } else {
        Some(name)
    }
}

/// Where the last `.` of `name` stands, or -1.
pub open spec fn last_dot(name: Seq<char>) -> int
    decreases name.len(),
{
    if name.len() == 0 {
        -1
    } else if name.last() == '.' {
        name.len() - 1
    } else {
        last_dot(name.drop_last())
    }
}

/// What follows the last `.` of the file name, unless the name starts with its
/// only `.`.
pub open spec fn extension_of(path: Seq<char>) -> Option<Seq<char>> {
    match file_name_of(path) {
        Some(name) => if last_dot(name) > 0 {
            Some(name.skip(last_dot(name) + 1))
        } else {
            None
        },
        None => None,
    }
}

/// Whether `path` has exactly the extension `extension`.
pub open spec fn has_extension(path: Seq<char>, extension: Seq<char>) -> bool {
    extension_of(path) == Some(extension)
}

/// `path` up to the end of its file stem: the trimmed path without its extension and
/// the `.` before that.
pub open spec fn stem_path(path: Seq<char>) -> Seq<char> {
    let t = trimmed(path);
    match extension_of(path) {
        Some(previous) => t.take(t.len() - previous.len() - 1),
        None => t,
    }
}

/// `path` with `extension` behind its file stem. A path that ends in no file name
/// stays as it is, and an empty extension leaves the bare stem.
pub open spec fn set_extension(path: Seq<char>, extension: Seq<char>) -> Seq<char> {
    if file_name_of(path) is None {
        path
    } else if extension.len() == 0 {
        stem_path(path)
    } else {
        stem_path(path).push('.') + extension
    }
}

/// `path` without as many characters at its end as its extension has.
pub open spec fn cut(path: Seq<char>) -> Seq<char> {
    match extension_of(path) {
        Some(previous) => path.take(path.len() - previous.len()),
        None => path,
    }
}

/// `path` with its extension replaced by `extension`: the old one is cut off, and the
/// new one is set on what is left. A name such as `..js` is left as `..`, which is no
/// file name and takes no extension.
pub open spec fn replaced_extension(path: Seq<char>, extension: Seq<char>) -> Seq<char> {
    set_extension(cut(path), extension)
}

/// Whether the last components of `path` are those of `tail`.
pub open spec fn ends_with_path(path: Seq<char>, tail: Seq<char>) -> bool {
    components_of(tail).is_suffix_of(components_of(path))
}

/// The shortest spelling of a list of components.
pub open spec fn spelled(components: Seq<Seq<char>>) -> Seq<char>
    decreases components.len(),
{
    if components.len() == 0 {
        Seq::empty()
    } else {
        joined(spelled(components.drop_last()), components.last())
    }
}

/// One spelling for all the spellings of a path.
pub open spec fn normal_form(path: Seq<char>) -> Seq<char> {
    spelled(components_of(path))
}

proof fn lemma_trimmed(path: Seq<char>)
    ensures
        trimmed(path).len() <= path.len(),
        trimmed(path) == path.take(trimmed(path).len() as int),
        trimmed(trimmed(path)) == trimmed(path),
        path.len() > 0 ==> trimmed(path).len() > 0,
        trimmed(path).len() > 1 ==> trimmed(path).last() != '/',
        trimmed(path).len() > 1 && trimmed(path).last() == '.' ==> trimmed(path)[trimmed(path).len()
            - 2] != '/',
    decreases path.len(),
{
    if path.len() > 1 && (path.last() == '/' || (path.last() == '.' && path[path.len() - 2]
        == '/')) {
        lemma_trimmed(path.drop_last());
        assert(trimmed(path) == path.take(trimmed(path).len() as int));
    } else {
        assert(path == path.take(path.len() as int));
    }
}

proof fn lemma_last_start(path: Seq<char>)
    ensures
        last_start(path) <= path.len(),
        last_start(path) > 0 ==> path[last_start(path) - 1] == '/',
        forall|i: int| last_start(path) <= i < path.len() ==> path[i] != '/',
        path.len() > 0 && path.last() != '/' ==> last_start(path) < path.len(),
        path.len() > 1 && trimmed(path) == path ==> last_start(path) < path.len(),
        path.len() == 1 && path != root() ==> last_start(path) == 0,
    decreases path.len(),
{
    if path.len() > 0 && path.last() != '/' {
        let front = path.drop_last();
        lemma_last_start(front);
        assert forall|i: int| last_start(path) <= i < path.len() implies path[i] != '/' by {
            if i < front.len() {
                assert(front[i] == path[i]);
            }
        }
    } else if path.len() > 1 {
        lemma_trimmed(path.drop_last());
        assert(trimmed(path) == trimmed(path.drop_last()));
    } else if path.len() == 1 {
        assert(path == root());
    }
}

proof fn lemma_last_dot(name: Seq<char>)
    ensures
        -1 <= last_dot(name) < name.len(),
        last_dot(name) >= 0 ==> name[last_dot(name)] == '.',
        forall|i: int| last_dot(name) < i < name.len() ==> name[i] != '.',
    decreases name.len(),
{
    if name.len() > 0 && name.last() != '.' {
        let front = name.drop_last();
        lemma_last_dot(front);
        assert forall|i: int| last_dot(name) < i < name.len() implies name[i] != '.' by {
            if i < front.len() {
                assert(front[i] == name[i]);
            }
        }
    }
}

/// The last separator of `front + part`, where only `front` has separators and
/// ends in one, is the last of `front`.
proof fn lemma_last_start_of_part(front: Seq<char>, part: Seq<char>)
    requires
        front.len() > 0 ==> front.last() == '/',
        forall|i: int| 0 <= i < part.len() ==> part[i] != '/',
    ensures
        last_start(front + part) == front.len(),
        before_last(front + part) == front,
        last_part(front + part) == part,
{
    let whole = front + part;
    lemma_last_start(whole);
    let start = last_start(whole) as int;
    if front.len() > 0 {
        assert(whole[front.len() - 1] == '/');
    }
    if start > front.len() {
        assert(whole[start - 1] == part[start - 1 - front.len()]);
    }
    assert(before_last(whole) == front);
    assert(last_part(whole) == part);
}

/// What the last part of a trimmed path looks like.
proof fn lemma_last_part(path: Seq<char>)
    requires
        trimmed(path) == path,
        path.len() > 0,
        path != root(),
    ensures
        last_part(path).len() > 0,
        forall|i: int| 0 <= i < last_part(path).len() ==> last_part(path)[i] != '/',
        path == before_last(path) + last_part(path),
        before_last(path).len() < path.len(),
        before_last(path).len() > 0 ==> before_last(path).last() == '/',
        before_last(path).len() > 0 ==> last_part(path) != seq!['.'],
{
    lemma_last_start(path);
    lemma_trimmed(path);
    let start = last_start(path) as int;
    assert(path == before_last(path) + last_part(path));
    assert forall|i: int| 0 <= i < last_part(path).len() implies last_part(path)[i] != '/' by {
        assert(last_part(path)[i] == path[start + i]);
    }
    if start > 0 && last_part(path) == seq!['.'] {
        assert(last_part(path)[0] == path[start]);
        assert(path.len() == start + 1);
        assert(path[path.len() - 2] == '/');
    }
}

/// Spelling the components of a path gives the same path again, trimmed.
proof fn lemma_spelled(path: Seq<char>)
    ensures
        components_of(normal_form(path)) == components_of(path),
        trimmed(normal_form(path)) == normal_form(path),
    decreases path.len(),
{
    let t = trimmed(path);
    lemma_trimmed(path);
    if t.len() == 0 {
    } else if t == root() {
        assert(seq![root()].drop_last() == Seq::<Seq<char>>::empty());
        assert(spelled(seq![root()]) == joined(Seq::empty(), root())) by {
            reveal_with_fuel(spelled, 2);
        }
        assert(normal_form(path) == root());
    } else {
        lemma_last_part(t);
        let dir = before_last(t);
        let part = last_part(t);
        lemma_spelled(dir);
        lemma_trimmed(dir);
        let front = normal_form(dir);
        let whole = normal_form(path);
        assert(components_of(path).drop_last() == components_of(dir));
        assert(whole == joined(front, part));
        lemma_trimmed(front);
        if front.len() == 0 {
            assert(components_of(dir).len() == 0);
            assert(dir.len() == 0);
            assert(whole == Seq::<char>::empty() + part);
            lemma_last_start_of_part(Seq::empty(), part);
            assert(whole == part);
            assert(trimmed(whole) == whole);
        } else {
            assert(dir.len() > 0);
            let base = if front.last() == '/' {
                front
            } else {
                front.push('/')
            };
            assert(whole == base + part);
            lemma_last_start_of_part(base, part);
            assert(whole.last() == part.last());
            if whole.last() == '.' && whole[whole.len() - 2] == '/' {
                if part.len() > 1 {
                    assert(whole[whole.len() - 2] == part[part.len() - 2]);
                }
                assert(part == seq!['.']);
            }
            assert(trimmed(whole) == whole);
            assert(front.push('/').drop_last() == front);
            assert(components_of(base) == components_of(front));
        }
    }
}

/// Two spellings have one normal form exactly when they name the same path, and
/// the normal form is itself a spelling of it.
pub proof fn law_normal_form(a: Seq<char>, b: Seq<char>)
    ensures
        same_path(normal_form(a), a),
        normal_form(a) == normal_form(b) <==> same_path(a, b),
{
    lemma_spelled(a);
    lemma_spelled(b);
}

/// The parent of a path has all its components but the last. Only the empty path
/// and the root have no parent.
pub proof fn law_parent(path: Seq<char>)
    ensures
        match parent_of(path) {
            Some(dir) => components_of(path).len() > 0 && components_of(dir) == components_of(
                path,
            ).drop_last(),
            None => components_of(path).len() == 0 || components_of(path) == seq![root()],
        },
{
    let t = trimmed(path);
    lemma_trimmed(path);
    if t.len() > 0 && t != root() {
        lemma_last_part(t);
        lemma_trimmed(before_last(t));
        assert(components_of(path).drop_last() == components_of(before_last(t)));
    }
}

/// A name without separators lies in the directory of the empty path.
pub proof fn law_plain_parent(name: Seq<char>)
    requires
        name.len() > 0,
        !name.contains('/'),
    ensures
        parent_of(name) == Some(Seq::<char>::empty()),
{
    assert forall|i: int| 0 <= i < name.len() implies name[i] != '/' by {
        if name[i] == '/' {
            assert(name.contains('/'));
        }
    }
    assert(trimmed(name) == name);
    assert(Seq::<char>::empty() + name == name);
    lemma_last_start_of_part(Seq::empty(), name);
    assert(name[0] != root()[0]);
}

/// The file name of a path is its last component, and a path without one is
/// empty, the root, or ends in `.` or `..`.
pub proof fn law_file_name(path: Seq<char>)
    ensures
        match file_name_of(path) {
            Some(name) => components_of(path).len() > 0 && name == components_of(path).last(),
            None => components_of(path).len() == 0 || components_of(path).last() == root()
                || components_of(path).last() == seq!['.'] || components_of(path).last() == seq![
                '.',
                '.',
            ],
        },
{
    let t = trimmed(path);
    lemma_trimmed(path);
    lemma_last_start(t);
    if t.len() > 0 && t != root() {
        lemma_last_part(t);
    } else if t == root() {
        assert(last_start(t) == 1);
        assert(last_part(t).len() == 0);
    }
}

/// `components` without a current directory at the front.
pub open spec fn without_here(components: Seq<Seq<char>>) -> Seq<Seq<char>> {
    if components.len() > 0 && components[0] == seq!['.'] {
        components.skip(1)
    } else {
        components
    }
}

proof fn lemma_components_behind(base: Seq<char>, name: Seq<char>)
    requires
        base.len() > 0,
        base.last() == '/',
        name.len() > 0 ==> name[0] != '/',
    ensures
        components_of(base + name) == components_of(base) + without_here(components_of(name)),
    decreases name.len(),
{
    let whole = base + name;
    if name.len() == 0 {
        assert(whole == base);
        assert(components_of(base) + Seq::<Seq<char>>::empty() == components_of(base));
    } else {
        assert(whole.drop_last() == base + name.drop_last());
        assert(whole.last() == name.last());
        if name.len() > 1 {
            assert(whole[whole.len() - 2] == name[name.len() - 2]);
        }
        if name.len() > 1 && (name.last() == '/' || (name.last() == '.' && name[name.len() - 2]
            == '/')) {
            lemma_components_behind(base, name.drop_last());
            assert(trimmed(whole) == trimmed(whole.drop_last()));
            assert(trimmed(name) == trimmed(name.drop_last()));
        } else if name == seq!['.'] {
            assert(whole[whole.len() - 2] == base.last());
            assert(whole.drop_last() == base);
            assert(trimmed(whole) == trimmed(base));
            assert(trimmed(name) == name);
            lemma_last_start_of_part(Seq::empty(), name);
            assert(Seq::<char>::empty() + name == name);
            assert(components_of(name) == components_of(Seq::<char>::empty()).push(name));
            assert(without_here(components_of(name)) == Seq::<Seq<char>>::empty());
            assert(components_of(base) + Seq::<Seq<char>>::empty() == components_of(base));
        } else {
            assert(trimmed(name) == name);
            if name.len() == 1 {
                assert(name == seq![name[0]]);
            }
            assert(trimmed(whole) == whole);
            assert(name[0] != '/');
            assert(name != root());
            lemma_last_part(name);
            let dir = before_last(name);
            let part = last_part(name);
            assert(whole == (base + dir) + part);
            lemma_last_start_of_part(base + dir, part);
            if dir.len() > 0 {
                assert(dir[0] == name[0]);
            }
            lemma_components_behind(base, dir);
            assert(whole.len() > 1);
            assert(whole != root());
            assert(components_of(whole) == components_of(base + dir).push(part));
            assert(components_of(name) == components_of(dir).push(part));
            lemma_trimmed(dir);
            if components_of(dir).len() == 0 {
                assert(dir.len() == 0);
                assert(name == part);
            }
            assert(without_here(components_of(name)) == without_here(components_of(dir)).push(
                part,
            ));
            assert(components_of(whole) == components_of(base) + without_here(
                components_of(name),
            ));
        }
    }
}

/// A relative name behind a directory adds its components to those of the
/// directory; a `.` at its front adds nothing.
pub proof fn law_joined(dir: Seq<char>, name: Seq<char>)
    requires
        dir.len() > 0,
        name.len() > 0 ==> name[0] != '/',
    ensures
        components_of(joined(dir, name)) == components_of(dir) + without_here(components_of(name)),
{
    if dir.last() == '/' {
        lemma_components_behind(dir, name);
    } else {
        let base = dir.push('/');
        lemma_components_behind(base, name);
        assert(base.drop_last() == dir);
        assert(trimmed(base) == trimmed(dir));
    }
}

/// The first component of a path starts as the path does.
pub proof fn law_first_component(path: Seq<char>)
    requires
        path.len() > 0,
    ensures
        components_of(path).len() > 0,
        components_of(path)[0].len() > 0,
        components_of(path)[0][0] == path[0],
    decreases path.len(),
{
    let t = trimmed(path);
    lemma_trimmed(path);
    lemma_last_start(t);
    if t != root() {
        let front = before_last(t);
        if front.len() > 0 {
            law_first_component(front);
        } else {
            assert(components_of(front) == Seq::<Seq<char>>::empty());
            assert(last_part(t) == t);
        }
    }
}

/// A name keeps its end wherever it is seen from, if that end does not start with `.`.
pub proof fn law_joined_end(dir: Seq<char>, name: Seq<char>, tail: Seq<char>)
    requires
        ends_with_path(name, tail),
        without_here(components_of(tail)) == components_of(tail),
    ensures
        ends_with_path(joined(dir, name), tail),
{
    let end = components_of(tail);
    let own = components_of(name);
    if name.len() > 0 && name[0] == '/' {
    } else if dir.len() == 0 {
        assert(joined(dir, name) == name);
    } else {
        law_joined(dir, name);
        let whole = components_of(dir) + without_here(own);
        if end.len() == own.len() {
            assert(end == own);
        }
        assert(end.is_suffix_of(whole)) by {
            assert(end =~= own.subrange(own.len() - end.len(), own.len() as int));
            assert(end =~= whole.subrange(whole.len() - end.len(), whole.len() as int));
        }
    }
}

/// What a file name that ends in `.` and `extension` makes of a path.
proof fn lemma_named_extension(dir: Seq<char>, stem: Seq<char>, extension: Seq<char>)
    requires
        dir.len() > 0 ==> dir.last() == '/',
        stem.len() > 0,
        forall|i: int| 0 <= i < stem.len() ==> stem[i] != '/',
        extension.len() > 0,
        forall|i: int| 0 <= i < extension.len() ==> extension[i] != '/' && extension[i] != '.',
    ensures
        has_extension(dir + (stem.push('.') + extension), extension),
        parent_of(dir + (stem.push('.') + extension)) == Some(trimmed(dir)),
{
    let new = stem.push('.') + extension;
    let whole = dir + new;
    assert(whole.last() == extension.last());
    assert(trimmed(whole) == whole);
    lemma_last_start_of_part(dir, new);
    assert(new.len() >= 3);
    assert(file_name_of(whole) == Some(new));
    lemma_last_dot(new);
    assert(new[stem.len() as int] == '.');
    if last_dot(new) > stem.len() {
        assert(new[last_dot(new)] == extension[last_dot(new) - stem.len() - 1]);
    }
    assert(last_dot(new) == stem.len());
    assert(new.skip(last_dot(new) + 1) == extension);
    assert(whole.len() > 1);
    assert(whole != root());
}

/// A file name without its extension and the `.` before that.
spec fn stem_of(name: Seq<char>) -> Seq<char> {
    if last_dot(name) > 0 {
        name.take(last_dot(name))
    } else {
        name
    }
}

/// Where the stem of a path ends.
proof fn lemma_stem(path: Seq<char>)
    requires
        file_name_of(path) is Some,
    ensures
        ({
            let t = trimmed(path);
            let dir = before_last(t);
            let name = last_part(t);
            let stem = stem_of(name);
            &&& t.len() > 0
            &&& t != root()
            &&& trimmed(t) == t
            &&& stem.len() > 0
            &&& stem_path(path) == dir + stem
            &&& forall|i: int| 0 <= i < stem.len() ==> stem[i] != '/'
        }),
{
    let t = trimmed(path);
    lemma_trimmed(path);
    if t.len() == 0 || t == root() {
        lemma_last_start(t);
        assert(last_part(t).len() == 0);
    }
    lemma_last_part(t);
    let dir = before_last(t);
    let name = last_part(t);
    lemma_last_dot(name);
    if last_dot(name) > 0 {
        let stem = name.take(last_dot(name));
        assert(stem_path(path) == dir + stem);
        assert forall|i: int| 0 <= i < stem.len() implies stem[i] != '/' by {
            assert(stem[i] == name[i]);
        }
    }
}

/// An extension that was set is the path's extension, and the file stays in its
/// directory.
proof fn lemma_set_extension(path: Seq<char>, extension: Seq<char>)
    requires
        file_name_of(path) is Some,
        extension.len() > 0,
        forall|i: int| 0 <= i < extension.len() ==> extension[i] != '/' && extension[i] != '.',
    ensures
        has_extension(set_extension(path, extension), extension),
        parent_of(set_extension(path, extension)) == parent_of(path),
{
    let t = trimmed(path);
    lemma_stem(path);
    lemma_last_part(t);
    let dir = before_last(t);
    let name = last_part(t);
    let stem = stem_of(name);
    assert((dir + stem).push('.') + extension == dir + (stem.push('.') + extension));
    lemma_named_extension(dir, stem, extension);
}

/// What lies between a path and its trimmed form trims to the same.
proof fn lemma_trimmed_between(path: Seq<char>, len: int)
    requires
        trimmed(path).len() <= len <= path.len(),
    ensures
        trimmed(path.take(len)) == trimmed(path),
    decreases path.len(),
{
    if len == path.len() {
        assert(path.take(len) == path);
    } else {
        assert(path.drop_last().take(len) == path.take(len));
        lemma_trimmed_between(path.drop_last(), len);
    }
}

/// Cutting the extension off leaves the directory as it is, if it leaves a file name.
proof fn lemma_cut(path: Seq<char>)
    requires
        file_name_of(path) is Some,
        file_name_of(cut(path)) is Some,
    ensures
        parent_of(cut(path)) == parent_of(path),
{
    let t = trimmed(path);
    lemma_stem(path);
    lemma_last_part(t);
    lemma_trimmed(path);
    let dir = before_last(t);
    let name = last_part(t);
    lemma_last_dot(name);
    if last_dot(name) > 0 {
        let previous = name.skip(last_dot(name) + 1);
        let len = path.len() - previous.len();
        if t.len() <= len {
            lemma_trimmed_between(path, len);
        } else {
            let whole = cut(path);
            let part = name.take(len - dir.len());
            assert(whole == t.take(len));
            assert(whole == dir + part);
            assert(part.len() > last_dot(name));
            assert(part[last_dot(name)] == '.');
            assert forall|i: int| 0 <= i < part.len() implies part[i] != '/' by {
                assert(part[i] == name[i]);
            }
            lemma_last_start_of_part(dir, part);
            assert(whole.last() == part.last());
            assert(whole[whole.len() - 2] == part[part.len() - 2]);
            assert(trimmed(whole) == whole);
            assert(whole.len() > 1);
        }
    }
}

/// A replaced extension is the one that was asked for, and the file stays in its
/// directory, unless no file name is left once the old extension is cut off.
pub proof fn law_replaced_extension(path: Seq<char>, extension: Seq<char>)
    requires
        file_name_of(path) is Some,
        file_name_of(cut(path)) is Some,
        extension.len() > 0,
        forall|i: int| 0 <= i < extension.len() ==> extension[i] != '/' && extension[i] != '.',
    ensures
        has_extension(replaced_extension(path, extension), extension),
        parent_of(replaced_extension(path, extension)) == parent_of(path),
{
    lemma_cut(path);
    lemma_set_extension(cut(path), extension);
}

/// What stands behind a directory is trimmed as it is alone, unless it is the directory
/// itself.
proof fn lemma_trimmed_behind(front: Seq<char>, name: Seq<char>)
    requires
        front.len() > 0 ==> front.last() == '/',
        name.len() > 0,
        name[0] != '/',
        trimmed(name) != seq!['.'],
    ensures
        trimmed(front + name) == front + trimmed(name),
        file_name_of(front + name) == file_name_of(name),
        extension_of(front + name) == extension_of(name),
    decreases name.len(),
{
    let whole = front + name;
    assert(whole.drop_last() == front + name.drop_last());
    if name.len() > 1 {
        assert(whole[whole.len() - 2] == name[name.len() - 2]);
    }
    if trimmed(name) != name {
        lemma_trimmed_behind(front, name.drop_last());
    } else {
        lemma_trimmed(name);
        assert(whole.last() == name.last());
        if name.len() == 1 && name[0] == '.' {
            assert(name == seq!['.']);
        }
        assert(trimmed(whole) == whole);
        lemma_last_start(name);
        let part = last_part(name);
        assert(whole == (front + before_last(name)) + part);
        assert forall|i: int| 0 <= i < part.len() implies part[i] != '/' by {
            assert(part[i] == name[last_start(name) + i]);
        }
        if before_last(name).len() > 0 {
            assert((front + before_last(name)).last() == '/');
        } else {
            assert(front + before_last(name) == front);
        }
        lemma_last_start_of_part(front + before_last(name), part);
    }
}

/// What a spelling of the current directory looks like.
proof fn lemma_here(name: Seq<char>)
    requires
        trimmed(name) == seq!['.'],
    ensures
        name.len() > 0 && name[0] == '.',
        forall|i: int|
            0 < i < name.len() ==> (#[trigger] name[i] == '/' || (name[i] == '.' && name[i - 1]
                == '/')),
    decreases name.len(),
{
    if name.len() > 1 {
        let front = name.drop_last();
        assert(trimmed(front) == seq!['.']);
        lemma_here(front);
        assert forall|i: int| 0 < i < name.len() implies (#[trigger] name[i] == '/' || (name[i]
            == '.' && name[i - 1] == '/')) by {
            if i < front.len() {
                assert(front[i] == name[i]);
                assert(front[i - 1] == name[i - 1]);
            }
        }
    } else {
        assert(name == trimmed(name));
    }
}

/// The current directory behind a directory adds nothing, however much of it is left.
proof fn lemma_here_behind(front: Seq<char>, name: Seq<char>, len: int)
    requires
        front.len() > 0,
        front.last() == '/',
        trimmed(name) == seq!['.'],
        0 <= len <= name.len(),
    ensures
        trimmed(front + name.take(len)) == trimmed(front),
    decreases len,
{
    lemma_here(name);
    let whole = front + name.take(len);
    if len == 0 {
        assert(whole == front);
    } else {
        lemma_here_behind(front, name, len - 1);
        assert(whole.drop_last() == front + name.take(len - 1));
        assert(whole.last() == name[len - 1]);
        assert(whole[whole.len() - 2] == if len > 1 {
            name[len - 2]
        } else {
            front.last()
        });
    }
}

/// Setting the extension of a name leaves what it stands behind.
proof fn lemma_set_behind(front: Seq<char>, name: Seq<char>, extension: Seq<char>)
    requires
        front.len() > 0 ==> front.last() == '/',
        name.len() > 0,
        name[0] != '/',
        trimmed(name) != seq!['.'],
    ensures
        set_extension(front + name, extension) == front + set_extension(name, extension),
        set_extension(name, extension).len() > 0,
        set_extension(name, extension)[0] != '/',
{
    lemma_trimmed_behind(front, name);
    lemma_trimmed(name);
    let t = trimmed(name);
    assert(t[0] == name[0]);
    if file_name_of(name) is Some {
        lemma_last_start(t);
        let file = file_name_of(name)->0;
        lemma_last_dot(file);
        let stem = stem_path(name);
        match extension_of(name) {
            Some(previous) => {
                let kept = t.len() - previous.len() - 1;
                assert(kept > 0);
                assert((front + t).take(front.len() + kept) == front + t.take(kept));
            },
            None => {},
        }
        assert(stem_path(front + name) == front + stem);
        assert(stem.len() > 0 && stem[0] == t[0]);
        assert((front + stem).push('.') + extension == front + (stem.push('.') + extension));
    }
}

/// What is left of a name without the characters of its extension is more than the
/// current directory.
proof fn lemma_cut_is_not_here(name: Seq<char>)
    requires
        extension_of(name) is Some,
    ensures
        extension_of(name)->0.len() < name.len(),
        cut(name).len() > 0,
        cut(name)[0] == name[0],
        trimmed(cut(name)) != seq!['.'],
{
    let t = trimmed(name);
    let file = file_name_of(name)->0;
    let rest = cut(name);
    lemma_trimmed(name);
    lemma_last_start(t);
    lemma_last_dot(file);
    let start = last_start(t) as int;
    assert(file == t.skip(start));
    assert(rest.len() >= start + 2);
    assert(name[start] == t[start] && name[start + 1] == t[start + 1]);
    assert(rest[start] == name[start] && rest[start + 1] == name[start + 1]);
    if trimmed(rest) == seq!['.'] {
        lemma_here(rest);
    }
}

/// Replacing the extension of a name leaves what it stands behind.
proof fn lemma_replaced_behind(front: Seq<char>, name: Seq<char>, extension: Seq<char>)
    requires
        front.len() > 0 ==> front.last() == '/',
        name.len() > 0,
        name[0] != '/',
        trimmed(name) != seq!['.'],
        extension_of(name) is Some,
    ensures
        replaced_extension(front + name, extension) == front + replaced_extension(name, extension),
        replaced_extension(name, extension).len() > 0,
        replaced_extension(name, extension)[0] != '/',
{
    lemma_trimmed_behind(front, name);
    lemma_cut_is_not_here(name);
    assert(cut(front + name) == front + cut(name));
    lemma_set_behind(front, cut(name), extension);
}

/// `rest` behind `dir` and a `.` part.
pub open spec fn behind_here(dir: Seq<char>, rest: Seq<char>) -> Seq<char> {
    dir + seq!['.', '/'] + rest
}

/// Whether `here` is `path` itself, or `path` with a `.` part set in.
pub open spec fn differ_by_here(path: Seq<char>, here: Seq<char>) -> bool {
    path == here || exists|dir: Seq<char>, rest: Seq<char>|
        (dir.len() > 0 ==> dir.last() == '/') && rest.len() > 0 && rest[0] != '/' && path == dir
            + rest && here == #[trigger] behind_here(dir, rest)
}

proof fn lemma_dot()
    ensures
        trimmed(seq!['.', '/']) == seq!['.'],
        last_part(seq!['.']) == seq!['.'],
        components_of(seq!['.', '/']) == seq![seq!['.']],
{
    let dot = seq!['.', '/'];
    let here = seq!['.'];
    assert(dot.drop_last() == here);
    assert(trimmed(here) == here);
    lemma_last_start(here);
    assert(here[0] != root()[0]);
    assert(before_last(here) == Seq::<char>::empty());
    assert(last_part(here) == here);
    assert(components_of(Seq::<char>::empty()) == Seq::<Seq<char>>::empty());
    assert(components_of(dot) == seq![here]);
}

/// A relative name ends as it does behind `./`.
proof fn lemma_here_ends(dir: Seq<char>, name: Seq<char>, tail: Seq<char>)
    requires
        name.len() > 0,
        name[0] != '/',
        without_here(components_of(tail)) == components_of(tail),
    ensures
        ends_with_path(joined(dir, name), tail) == ends_with_path(
            joined(dir, seq!['.', '/'] + name),
            tail,
        ),
{
    let dot = seq!['.', '/'];
    let own = components_of(name);
    let end = components_of(tail);
    lemma_dot();
    lemma_components_behind(dot, name);
    let behind = components_of(dot + name);
    assert(behind == seq![seq!['.']] + without_here(own));
    assert(without_here(behind) == without_here(own));
    if dir.len() > 0 {
        law_joined(dir, name);
        law_joined(dir, dot + name);
    } else {
        assert(joined(dir, name) == name);
        assert(joined(dir, dot + name) == dot + name);
        if own.len() > 0 && own[0] == seq!['.'] {
            assert(behind == own);
        } else {
            assert(behind == seq![seq!['.']] + own);
            if end.is_suffix_of(own) {
                assert(end =~= own.subrange(own.len() - end.len(), own.len() as int));
                assert(end =~= behind.subrange(behind.len() - end.len(), behind.len() as int));
            }
            if end.is_suffix_of(behind) {
                assert(end =~= behind.subrange(behind.len() - end.len(), behind.len() as int));
                if end.len() == behind.len() {
                    assert(end[0] == behind[0]);
                    assert(without_here(end).len() < end.len());
                }
                assert(end =~= own.subrange(own.len() - end.len(), own.len() as int));
            }
        }
    }
}

/// The current directory seen from `dir` is `dir`, also behind `./`.
proof fn lemma_here_is_dir(dir: Seq<char>, name: Seq<char>, extension: Seq<char>)
    requires
        trimmed(name) == seq!['.'],
    ensures
        ({
            let path = joined(dir, name);
            let here = joined(dir, seq!['.', '/'] + name);
            &&& extension_of(path) == extension_of(here)
            &&& has_extension(path, "js"@) ==> replaced_extension(path, extension)
                == replaced_extension(here, extension)
        }),
{
    let dot = seq!['.', '/'];
    let far = dot + name;
    let path = joined(dir, name);
    let here = joined(dir, far);
    lemma_dot();
    lemma_here(name);
    lemma_here_behind(dot, name, name.len() as int);
    assert(name.take(name.len() as int) == name);
    assert(trimmed(far) == seq!['.']);
    if dir.len() == 0 {
        assert(path == name);
        assert(here == far);
    } else {
        let front = if dir.last() == '/' {
            dir
        } else {
            dir.push('/')
        };
        lemma_here_behind(front, name, name.len() as int);
        lemma_here_behind(front, far, far.len() as int);
        assert(far.take(far.len() as int) == far);
        assert(trimmed(path) == trimmed(here));
        if has_extension(path, "js"@) {
            reveal_strlit("js");
            lemma_here_behind(front, far, far.len() - 2);
            assert(cut(here) == front + far.take(far.len() - 2));
            if name.len() > 1 {
                lemma_here_behind(front, name, name.len() - 2);
                assert(cut(path) == front + name.take(name.len() - 2));
            } else {
                assert(cut(path) == front.drop_last());
                if front.len() == 1 {
                    assert(front == root());
                    lemma_last_start(root());
                    assert(root().last() == '/');
                    assert(last_part(root()).len() == 0);
                }
            }
            assert(trimmed(cut(path)) == trimmed(cut(here)));
        }
    }
}

/// A relative name and the same name behind `./` have the same extension and the same
/// end, and give paths that differ by a `.` part at most: as they are and, where they
/// name a `.js` file, with another extension.
pub proof fn law_here(dir: Seq<char>, name: Seq<char>, extension: Seq<char>, tail: Seq<char>)
    requires
        name.len() > 0,
        name[0] != '/',
        without_here(components_of(tail)) == components_of(tail),
    ensures
        ({
            let path = joined(dir, name);
            let here = joined(dir, seq!['.', '/'] + name);
            &&& differ_by_here(path, here)
            &&& extension_of(path) == extension_of(here)
            &&& has_extension(path, "js"@) ==> differ_by_here(
                replaced_extension(path, extension),
                replaced_extension(here, extension),
            )
            &&& ends_with_path(path, tail) == ends_with_path(here, tail)
        }),
{
    let dot = seq!['.', '/'];
    let front = if dir.len() == 0 || dir.last() == '/' {
        dir
    } else {
        dir.push('/')
    };
    let behind = front + dot;
    let path = joined(dir, name);
    let here = joined(dir, dot + name);
    assert(path == front + name);
    assert(here == behind + name);
    assert(here == behind_here(front, name));
    lemma_here_ends(dir, name, tail);
    if trimmed(name) != seq!['.'] {
        lemma_trimmed_behind(front, name);
        lemma_trimmed_behind(behind, name);
        if extension_of(name) is Some {
            lemma_replaced_behind(front, name, extension);
            lemma_replaced_behind(behind, name, extension);
            let rest = replaced_extension(name, extension);
            assert(replaced_extension(here, extension) == behind_here(front, rest));
        }
    } else {
        lemma_here_is_dir(dir, name, extension);
    }
}

/// How a path is taken apart, from the empty path up: the root is one component, a name
/// is one, a separator at the end adds nothing, and a name behind a separator adds itself,
/// unless it is `.`.
pub proof fn law_components(dir: Seq<char>, name: Seq<char>)
    requires
        name.len() > 0,
        !name.contains('/'),
    ensures
        components_of(Seq::empty()) == Seq::<Seq<char>>::empty(),
        components_of(seq!['/']) == seq![seq!['/']],
        components_of(name) == seq![name],
        dir.len() > 0 ==> components_of(dir.push('/')) == components_of(dir),
        dir.len() > 0 && dir.last() == '/' ==> components_of(dir + name) == if name == seq!['.'] {
            components_of(dir)
        } else {
            components_of(dir).push(name)
        },
{
    assert forall|i: int| 0 <= i < name.len() implies name[i] != '/' by {
        if name[i] == '/' {
            assert(name.contains('/'));
        }
    }
    assert(components_of(Seq::empty()) == Seq::<Seq<char>>::empty());
    assert(root() == seq!['/']);
    assert(trimmed(name) == name);
    assert(name[0] != root()[0]);
    assert(Seq::<char>::empty() + name == name);
    lemma_last_start_of_part(Seq::empty(), name);
    assert(components_of(name) == Seq::<Seq<char>>::empty().push(name));
    assert(components_of(name) == seq![name]);
    if dir.len() > 0 {
        assert(dir.push('/').drop_last() == dir);
        if dir.last() == '/' {
            lemma_components_behind(dir, name);
            if name == seq!['.'] {
                assert(seq![name].skip(1) == Seq::<Seq<char>>::empty());
                assert(components_of(dir) + Seq::<Seq<char>>::empty() == components_of(dir));
            } else {
                assert(components_of(dir) + seq![name] == components_of(dir).push(name));
            }
        }
    }
}

/// Two spellings name the same path exactly if their components are the same.
pub proof fn law_same_path(a: Seq<char>, b: Seq<char>)
    ensures
        same_path(a, b) <==> components_of(a) == components_of(b),
{
}

/// A path has a parent unless it is empty or the root. The parent is the beginning of the
/// path that has all its components but the last, without separators and `.` parts behind
/// them.
pub proof fn law_parent_text(path: Seq<char>)
    ensures
        parent_of(path) is None <==> components_of(path).len() == 0 || components_of(path) == seq![
            seq!['/'],
        ],
        parent_of(path) matches Some(dir) ==> {
            &&& dir.is_prefix_of(path)
            &&& components_of(dir) == components_of(path).drop_last()
            &&& dir.len() > 1 ==> dir.last() != '/'
            &&& dir.len() > 1 && dir.last() == '.' ==> dir[dir.len() - 2] != '/'
        },
{
    let t = trimmed(path);
    lemma_trimmed(path);
    law_parent(path);
    assert(root() == seq!['/']);
    if t.len() > 0 && t != root() {
        lemma_last_part(t);
        let front = before_last(t);
        lemma_trimmed(front);
        let dir = trimmed(front);
        assert(dir =~= path.subrange(0, dir.len() as int));
        if components_of(path) == seq![seq!['/']] {
            assert(components_of(path).last() == last_part(t));
            assert(last_part(t)[0] == seq!['/'][0]);
        }
    }
}

/// A name behind a directory: an absolute name stands for itself, and any other stands
/// behind the directory with one separator between, unless the directory is empty or ends
/// in one.
pub proof fn law_joined_text(dir: Seq<char>, name: Seq<char>)
    ensures
        name.len() > 0 && name[0] == '/' ==> joined(dir, name) == name,
        !(name.len() > 0 && name[0] == '/') && (dir.len() == 0 || dir.last() == '/') ==> joined(
            dir,
            name,
        ) == dir + name,
        !(name.len() > 0 && name[0] == '/') && dir.len() > 0 && dir.last() != '/' ==> joined(
            dir,
            name,
        ) == dir + seq!['/'] + name,
{
    assert(dir.push('/') == dir + seq!['/']);
}

/// A path has a file name exactly if its last component is a name: not the root, not `.`
/// and not `..`.
pub proof fn law_file_name_exactly(path: Seq<char>)
    ensures
        ({
            let parts = components_of(path);
            if parts.len() > 0 && parts.last() != seq!['/'] && parts.last() != seq!['.']
                && parts.last() != seq!['.', '.'] {
                file_name_of(path) == Some(parts.last())
            } else {
                file_name_of(path) is None
            }
        }),
{
    let t = trimmed(path);
    lemma_trimmed(path);
    law_file_name(path);
    assert(root() == seq!['/']);
    if file_name_of(path) is Some {
        let name = file_name_of(path)->0;
        lemma_last_start(t);
        if t.len() == 0 || t == root() {
            assert(last_part(t).len() == 0);
        }
        lemma_last_part(t);
        if name == seq!['/'] {
            assert(name[0] == '/');
        }
    }
}

/// A path has the extension `extension` exactly if its file name is a stem that is not
/// empty, a `.` and `extension`, and `extension` holds no `.`.
pub proof fn law_extension_exactly(path: Seq<char>, extension: Seq<char>)
    ensures
        has_extension(path, extension) <==> extension_of(path) == Some(extension),
        has_extension(path, extension) <==> !extension.contains('.') && exists|stem: Seq<char>|
            stem.len() > 0 && file_name_of(path) == Some(#[trigger] stem.push('.') + extension),
{
    match file_name_of(path) {
        Some(name) => {
            lemma_last_dot(name);
            let dot = last_dot(name);
            if has_extension(path, extension) {
                let stem = name.take(dot);
                assert(name == stem.push('.') + extension);
                if extension.contains('.') {
                    let i = choose|i: int| 0 <= i < extension.len() && extension[i] == '.';
                    assert(name[dot + 1 + i] == '.');
                }
            }
            if !extension.contains('.') && exists|stem: Seq<char>|
                stem.len() > 0 && file_name_of(path) == Some(#[trigger] stem.push('.') + extension) {
                let stem = choose|stem: Seq<char>|
                    stem.len() > 0 && file_name_of(path) == Some(
                        #[trigger] stem.push('.') + extension,
                    );
                assert(name[stem.len() as int] == '.');
                if dot > stem.len() {
                    assert(name[dot] == extension[dot - stem.len() - 1]);
                    assert(extension.contains('.'));
                }
                assert(name.skip(dot + 1) == extension);
            }
        },
        None => {},
    }
}

/// Whether `tail` is nothing but separators and `.` parts.
spec fn is_idle(tail: Seq<char>) -> bool {
    forall|i: int|
        0 <= i < tail.len() ==> #[trigger] tail[i] == '/' || (tail[i] == '.' && i > 0 && tail[i - 1]
            == '/')
}

/// Separators and `.` parts at the end are trimmed.
proof fn lemma_idle(path: Seq<char>, tail: Seq<char>)
    requires
        path.len() > 0,
        is_idle(tail),
    ensures
        trimmed(path + tail) == trimmed(path),
    decreases tail.len(),
{
    if tail.len() == 0 {
        assert(path + tail == path);
    } else {
        let whole = path + tail;
        let shorter = tail.drop_last();
        assert forall|i: int| 0 <= i < shorter.len() implies #[trigger] shorter[i] == '/' || (
        shorter[i] == '.' && i > 0 && shorter[i - 1] == '/') by {
            assert(shorter[i] == tail[i]);
            if i > 0 {
                assert(shorter[i - 1] == tail[i - 1]);
            }
        }
        lemma_idle(path, shorter);
        assert(whole.drop_last() == path + shorter);
        assert(whole.last() == tail[tail.len() - 1]);
        if tail.len() > 1 {
            assert(whole[whole.len() - 2] == tail[tail.len() - 2]);
        }
    }
}

/// What a file name behind a directory, with nothing of meaning behind it, makes of a path.
proof fn lemma_named(front: Seq<char>, name: Seq<char>, tail: Seq<char>)
    requires
        front.len() > 0 ==> front.last() == '/',
        name.len() > 0,
        !name.contains('/'),
        name != seq!['.'],
        name != seq!['.', '.'],
        is_idle(tail),
    ensures
        trimmed(front + name + tail) == front + name,
        file_name_of(front + name + tail) == Some(name),
{
    let whole = front + name;
    assert forall|i: int| 0 <= i < name.len() implies name[i] != '/' by {
        if name[i] == '/' {
            assert(name.contains('/'));
        }
    }
    assert(whole.last() == name[name.len() - 1]);
    if name.len() > 1 {
        assert(whole[whole.len() - 2] == name[name.len() - 2]);
    } else if name[0] == '.' {
        assert(name == seq!['.']);
    }
    assert(trimmed(whole) == whole);
    lemma_idle(whole, tail);
    lemma_last_start_of_part(front, name);
}

/// A name behind a directory is the file name of the path.
pub proof fn law_named_file(front: Seq<char>, name: Seq<char>)
    requires
        front.len() > 0 ==> front.last() == '/',
        name.len() > 0,
        !name.contains('/'),
        name != seq!['.'],
        name != seq!['.', '.'],
    ensures
        file_name_of(front + name) == Some(name),
{
    lemma_named(front, name, Seq::empty());
    assert(front + name + Seq::<char>::empty() == front + name);
}

proof fn lemma_set_named(
    front: Seq<char>,
    stem: Seq<char>,
    old: Seq<char>,
    tail: Seq<char>,
    new: Seq<char>,
)
    requires
        front.len() > 0 ==> front.last() == '/',
        stem.len() > 0,
        !stem.contains('/'),
        !old.contains('/'),
        !old.contains('.'),
        !(stem == seq!['.'] && old.len() == 0),
        is_idle(tail),
    ensures
        extension_of(front + (stem.push('.') + old) + tail) == Some(old),
        set_extension(front + (stem.push('.') + old) + tail, new) == if new.len() == 0 {
            front + stem
        } else {
            front + (stem.push('.') + new)
        },
{
    let name = stem.push('.') + old;
    let whole = front + name + tail;
    assert forall|i: int| 0 <= i < name.len() implies name[i] != '/' by {
        if name[i] == '/' {
            if i < stem.len() {
                assert(stem[i] == '/');
            } else if i > stem.len() {
                assert(old[i - stem.len() - 1] == '/');
            }
        }
    }
    if name == seq!['.', '.'] {
        assert(stem[0] == name[0]);
        assert(stem == seq!['.']);
    }
    lemma_named(front, name, tail);
    assert(name[stem.len() as int] == '.');
    lemma_last_dot(name);
    if last_dot(name) > stem.len() {
        assert(name[last_dot(name)] == old[last_dot(name) - stem.len() - 1]);
        assert(old.contains('.'));
    }
    assert(name.skip(last_dot(name) + 1) == old);
    assert((front + name).take((front.len() + stem.len()) as int) == front + stem);
    assert((front + stem).push('.') + new == front + (stem.push('.') + new));
}

/// Replacing an extension changes the extension and nothing before it: not the directory
/// and not the stem. An empty one takes the `.` with it, and separators and `.` parts behind
/// the name are dropped. Left out is the name of which only `..` remains once the old extension is cut off.
pub proof fn law_replaced_text(
    front: Seq<char>,
    stem: Seq<char>,
    old: Seq<char>,
    tail: Seq<char>,
    new: Seq<char>,
)
    requires
        front.len() > 0 ==> front.last() == '/',
        stem.len() > 0,
        !stem.contains('/'),
        !old.contains('/'),
        !old.contains('.'),
        !(stem == seq!['.'] && (old.len() == 0 || tail.len() == 0)),
        forall|i: int|
            0 <= i < tail.len() ==> #[trigger] tail[i] == '/' || (tail[i] == '.' && i > 0 && tail[i
                - 1] == '/'),
    ensures
        has_extension(front + (stem.push('.') + old) + tail, old),
        replaced_extension(front + (stem.push('.') + old) + tail, new) == if new.len() == 0 {
            front + stem
        } else {
            front + (stem.push('.') + new)
        },
{
    let path = front + (stem.push('.') + old) + tail;
    lemma_set_named(front, stem, old, tail, new);
    let len = path.len() - old.len();
    if tail.len() >= old.len() {
        let rest = tail.take(tail.len() - old.len());
        assert forall|i: int| 0 <= i < rest.len() implies #[trigger] rest[i] == '/' || (rest[i]
            == '.' && i > 0 && rest[i - 1] == '/') by {
            assert(rest[i] == tail[i]);
            if i > 0 {
                assert(rest[i - 1] == tail[i - 1]);
            }
        }
        assert(cut(path) == front + (stem.push('.') + old) + rest);
        lemma_set_named(front, stem, old, rest, new);
    } else {
        let kept = old.take(tail.len() as int);
        let none = Seq::<char>::empty();
        assert forall|i: int| 0 <= i < kept.len() implies kept[i] != '/' && kept[i] != '.' by {
            assert(kept[i] == old[i]);
            assert(old.contains(kept[i]));
        }
        assert(cut(path) == front + (stem.push('.') + kept) + none);
        lemma_set_named(front, stem, kept, none, new);
    }
}

/// A name of which only `..` remains once its extension is cut off takes no other.
pub proof fn law_cut_to_parent(front: Seq<char>, old: Seq<char>, new: Seq<char>)
    requires
        front.len() > 0 ==> front.last() == '/',
        old.len() > 0,
        !old.contains('/'),
        !old.contains('.'),
    ensures
        replaced_extension(front + (seq!['.', '.'] + old), new) == front + seq!['.', '.'],
{
    let none = Seq::<char>::empty();
    let up = seq!['.', '.'];
    let path = front + (up + old);
    assert(seq!['.'].push('.') == up);
    lemma_set_named(front, seq!['.'], old, none, new);
    assert(path + none == path);
    assert(cut(path) == front + up);
    let whole = front + up;
    assert(whole.last() == '.' && whole[whole.len() - 2] == '.');
    assert(trimmed(whole) == whole);
    lemma_last_start_of_part(front, up);
}

/// A path without an extension gets one behind its file name, and stays as it is if it has
/// no file name.
pub proof fn law_added_extension(front: Seq<char>, name: Seq<char>, tail: Seq<char>, new: Seq<char>)
    requires
        front.len() > 0 ==> front.last() == '/',
        name.len() > 0,
        !name.contains('/'),
        name != seq!['.'],
        name != seq!['.', '.'],
        !name.skip(1).contains('.'),
        forall|i: int|
            0 <= i < tail.len() ==> #[trigger] tail[i] == '/' || (tail[i] == '.' && i > 0 && tail[i
                - 1] == '/'),
    ensures
        extension_of(front + name + tail) is None,
        replaced_extension(front + name + tail, new) == if new.len() == 0 {
            front + name
        } else {
            front + (name.push('.') + new)
        },
        forall|path: Seq<char>|
            file_name_of(path) is None ==> #[trigger] replaced_extension(path, new) == path,
{
    lemma_named(front, name, tail);
    lemma_last_dot(name);
    if last_dot(name) > 0 {
        assert(name.skip(1)[last_dot(name) - 1] == '.');
    }
    assert((front + name).push('.') + new == front + (name.push('.') + new));
}

/// A path ends with another exactly if the components of the other come last among its own.
pub proof fn law_ends_with(path: Seq<char>, tail: Seq<char>)
    ensures
        ends_with_path(path, tail) <==> exists|front: Seq<Seq<char>>|
            components_of(path) == #[trigger] (front + components_of(tail)),
{
    let whole = components_of(path);
    let end = components_of(tail);
    if ends_with_path(path, tail) {
        let front = whole.take(whole.len() - end.len());
        assert(end =~= whole.subrange(whole.len() - end.len(), whole.len() as int));
        assert(whole == front + end);
    }
    if exists|front: Seq<Seq<char>>| whole == #[trigger] (front + end) {
        let front = choose|front: Seq<Seq<char>>| whole == #[trigger] (front + end);
        assert(end =~= whole.subrange(whole.len() - end.len(), whole.len() as int));
    }
}

/// The characters of `text`, each at its place.
fn chars_of(text: &str) -> (chars: Vec<char>)
    ensures
        chars@ == text@,
{
    let mut chars: Vec<char> = Vec::new();
    for c in it: text.chars()
        invariant
            it.seq() == text@,
            chars@ == text@.take(it.index() as int),
    {
        chars.push(c);
        assert(text@.take(it.index() as int).push(c) == text@.take(it.index() + 1));
    }
    assert(text@.take(text@.len() as int) == text@);
    chars
}

/// The first `end` characters of `text`.
fn front_of(text: &str, end: usize) -> (front: String)
    requires
        end <= text@.len(),
    ensures
        front@ == text@.take(end as int),
{
    let front = text.substring_char(0, end);
    assert(text@.subrange(0, end as int) == text@.take(end as int));
    front.to_owned()
}

/// The length of the trimmed path that the first `len` characters hold.
fn trim_end(chars: &Vec<char>, len: usize) -> (end: usize)
    requires
        len <= chars@.len(),
    ensures
        end <= len,
        chars@.take(end as int) == trimmed(chars@.take(len as int)),
{
    let mut end: usize = len;
    while end > 1 && (chars[end - 1] == '/' || (chars[end - 1] == '.' && chars[end - 2] == '/'))
        invariant
            end <= len <= chars@.len(),
            trimmed(chars@.take(end as int)) == trimmed(chars@.take(len as int)),
        decreases end,
    {
        assert(chars@.take(end as int).drop_last() == chars@.take(end - 1));
        end = end - 1;
    }
    end
}

/// Where the last part of the first `len` characters starts.
fn part_start(chars: &Vec<char>, len: usize) -> (start: usize)
    requires
        len <= chars@.len(),
    ensures
        start <= len,
        start == last_start(chars@.take(len as int)),
{
    let mut start: usize = len;
    while start > 0 && chars[start - 1] != '/'
        invariant
            start <= len <= chars@.len(),
            last_start(chars@.take(start as int)) == last_start(chars@.take(len as int)),
        decreases start,
    {
        assert(chars@.take(start as int).drop_last() == chars@.take(start - 1));
        start = start - 1;
    }
    start
}

/// The directory that `path` lies in.
pub fn parent(path: &str) -> (dir: Option<String>)
    ensures
        match dir {
            Some(dir) => parent_of(path@) == Some(dir@),
            None => parent_of(path@) is None,
        },
{
    let chars = chars_of(path);
    let end = trim_end(&chars, chars.len());
    assert(chars@.take(chars@.len() as int) == path@);
    if end == 0 || (end == 1 && chars[0] == '/') {
        assert(end == 1 ==> trimmed(path@) == root());
        return None;
    }
    let start = part_start(&chars, end);
    let dir_end = trim_end(&chars, start);
    assert(chars@.take(end as int).take(start as int) == chars@.take(start as int));
    assert(trimmed(path@) != root()) by {
        assert(trimmed(path@).len() == end);
        assert(trimmed(path@)[0] == chars@[0]);
    }
    Some(front_of(path, dir_end))
}

/// `name` as seen from the directory `dir`.
pub fn join(dir: &str, name: &str) -> (path: String)
    ensures
        path@ == joined(dir@, name@),
{
    if !name.is_empty() && name.get_char(0) == '/' {
        return name.to_owned();
    }
    let mut path = dir.to_owned();
    let len = dir.unicode_len();
    if len > 0 && dir.get_char(len - 1) != '/' {
        path.append("/");
        proof {
            reveal_strlit("/");
        }
        assert(path@ == dir@.push('/'));
    }
    path.append(name);
    path
}

/// The last component of `path`, if it is a name.
pub fn file_name(path: &str) -> (name: Option<String>)
    ensures
        match name {
            Some(name) => file_name_of(path@) == Some(name@),
            None => file_name_of(path@) is None,
        },
{
    let chars = chars_of(path);
    let end = trim_end(&chars, chars.len());
    assert(chars@.take(chars@.len() as int) == path@);
    let start = part_start(&chars, end);
    let len: usize = end - start;
    let ghost part = last_part(trimmed(path@));
    assert(part == path@.subrange(start as int, end as int));
    if len == 0 {
        return None;
    }
    if len == 1 && chars[start] == '.' {
        assert(part == seq!['.']);
        return None;
    }
    if len == 2 && chars[start] == '.' && chars[start + 1] == '.' {
        assert(part == seq!['.', '.']);
        return None;
    }
    assert(part != seq!['.'] && part != seq!['.', '.']) by {
        assert(part[0] == chars@[start as int]);
        if len == 2 {
            assert(part[1] == chars@[start + 1]);
        }
    }
    Some(path.substring_char(start, end).to_owned())
}

/// What follows the last `.` of the file name of `path`.
pub fn extension(path: &str) -> (extension: Option<String>)
    ensures
        match extension {
            Some(extension) => extension_of(path@) == Some(extension@),
            None => extension_of(path@) is None,
        },
{
    let name = match file_name(path) {
        Some(name) => name,
        None => return None,
    };
    let chars = chars_of(name.as_str());
    let len = chars.len();
    let mut dot: usize = len;
    assert(chars@.take(len as int) == name@);
    while dot > 0 && chars[dot - 1] != '.'
        invariant
            dot <= len == chars@.len(),
            last_dot(chars@.take(dot as int)) == last_dot(name@),
        decreases dot,
    {
        assert(chars@.take(dot as int).drop_last() == chars@.take(dot - 1));
        dot = dot - 1;
    }
    if dot > 1 {
        let extension = name.as_str().substring_char(dot, len);
        assert(name@.subrange(dot as int, len as int) == name@.skip(dot as int));
        Some(extension.to_owned())
    } else {
        None
    }
}

/// Whether `path` has exactly the extension `expected`.
pub fn extension_is(path: &str, expected: &str) -> (same: bool)
    ensures
        same == has_extension(path@, expected@),
{
    match extension(path) {
        Some(found) => same_text(found.as_str(), expected),
        None => false,
    }
}

/// `path` up to the end of its file stem, with `new` for an extension.
fn with_set_extension(path: &str, new: &str) -> (changed: String)
    ensures
        changed@ == set_extension(path@, new@),
{
    if file_name(path).is_none() {
        return path.to_owned();
    }
    let chars = chars_of(path);
    let mut end = trim_end(&chars, chars.len());
    assert(chars@.take(chars@.len() as int) == path@);
    let ghost t = trimmed(path@);
    if let Some(previous) = extension(path) {
        let len = previous.as_str().unicode_len();
        assert(len + 1 <= end) by {
            lemma_last_start(t);
            lemma_last_dot(last_part(t));
        }
        end = end - len - 1;
    }
    let mut changed = front_of(path, end);
    assert(changed@ == stem_path(path@));
    if !new.is_empty() {
        changed.append(".");
        proof {
            reveal_strlit(".");
        }
        assert(changed@ == stem_path(path@).push('.'));
        changed.append(new);
    }
    changed
}

/// `path` with its extension replaced by `new`.
pub fn with_extension(path: &str, new: &str) -> (replaced: String)
    ensures
        replaced@ == replaced_extension(path@, new@),
{
    match extension(path) {
        Some(previous) => {
            let total = path.unicode_len();
            let len = previous.as_str().unicode_len();
            assert(len <= total) by {
                lemma_trimmed(path@);
                lemma_last_start(trimmed(path@));
                lemma_last_dot(last_part(trimmed(path@)));
            }
            with_set_extension(front_of(path, total - len).as_str(), new)
        },
        None => with_set_extension(path, new),
    }
}

/// The texts that `parts` holds, back to front.
pub open spec fn backwards(parts: Seq<String>) -> Seq<Seq<char>> {
    Seq::new(parts.len(), |i: int| parts[parts.len() - 1 - i]@)
}

/// The parts of `path`, front to back.
pub fn components(path: &str) -> (parts: Vec<String>)
    ensures
        texts(parts@) == components_of(path@),
{
    let chars = chars_of(path);
    let mut found: Vec<String> = Vec::new();
    let mut end = trim_end(&chars, chars.len());
    let ghost all = components_of(path@);
    proof {
        assert(chars@.take(chars@.len() as int) == path@);
        lemma_trimmed(path@);
        assert(backwards(found@) == Seq::<Seq<char>>::empty());
        assert(components_of(chars@.take(end as int)) + backwards(found@) == all);
    }
    while end > 0
        invariant
            end <= chars@.len(),
            chars@ == path@,
            trimmed(chars@.take(end as int)) == chars@.take(end as int),
            components_of(chars@.take(end as int)) + backwards(found@) == all,
        decreases end,
    {
        let ghost t = chars@.take(end as int);
        let ghost before = backwards(found@);
        if end == 1 && chars[0] == '/' {
            assert(t == root());
            found.push(path.substring_char(0, 1).to_owned());
            end = 0;
            proof {
                assert(found@.last()@ == root());
                assert(backwards(found@) == seq![root()] + before);
                assert(components_of(t) + before == seq![root()] + before);
                assert(components_of(chars@.take(0)) == Seq::<Seq<char>>::empty());
                assert(Seq::<Seq<char>>::empty() + backwards(found@) == backwards(found@));
            }
        } else {
            proof {
                assert(t[0] == chars@[0]);
                assert(t != root());
                lemma_last_part(t);
            }
            let start = part_start(&chars, end);
            found.push(path.substring_char(start, end).to_owned());
            let next = trim_end(&chars, start);
            proof {
                let dir = before_last(t);
                let part = last_part(t);
                assert(dir == chars@.take(start as int));
                assert(part == path@.subrange(start as int, end as int));
                lemma_trimmed(dir);
                assert(components_of(chars@.take(next as int)) == components_of(dir));
                assert(backwards(found@) == seq![part] + before);
                assert(components_of(dir) + (seq![part] + before) == components_of(dir).push(part)
                    + before);
            }
            end = next;
        }
    }
    assert(components_of(chars@.take(0)) == Seq::<Seq<char>>::empty());
    assert(Seq::<Seq<char>>::empty() + backwards(found@) == backwards(found@));
    let mut parts: Vec<String> = Vec::new();
    let mut left = found.len();
    while left > 0
        invariant
            left <= found@.len(),
            parts@.len() == found@.len() - left,
            forall|i: int|
                0 <= i < parts@.len() ==> (#[trigger] parts@[i])@ == found@[found@.len() - 1 - i]@,
        decreases left,
    {
        left = left - 1;
        parts.push(found[left].clone());
    }
    assert(texts(parts@) == backwards(found@));
    parts
}

/// Whether the last components of `path` are those of `tail`.
pub fn ends_with(path: &str, tail: &str) -> (ends: bool)
    ensures
        ends == ends_with_path(path@, tail@),
{
    let whole = components(path);
    let end = components(tail);
    let ghost all = components_of(path@);
    let ghost last = components_of(tail@);
    if end.len() > whole.len() {
        return false;
    }
    let total: usize = whole.len();
    let skipped: usize = total - end.len();
    let mut i: usize = 0;
    while i < end.len()
        invariant
            i <= end@.len(),
            end@.len() <= whole@.len(),
            total == whole@.len(),
            skipped == total - end@.len(),
            texts(whole@) == all,
            texts(end@) == last,
            all == components_of(path@),
            last == components_of(tail@),
            all.len() == whole@.len(),
            last.len() == end@.len(),
            forall|j: int| 0 <= j < i ==> #[trigger] last[j] == all[skipped + j],
        decreases end.len() - i,
    {
        assert(texts(end@)[i as int] == end@[i as int]@);
        assert(texts(whole@)[skipped + i] == whole@[skipped + i]@);
        if !same_text(end[i].as_str(), whole[skipped + i].as_str()) {
            assert(last[i as int] != all.subrange(skipped as int, all.len() as int)[i as int]);
            return false;
        }
        i = i + 1;
    }
    assert(last == all.subrange(skipped as int, all.len() as int));
    true
}

/// One spelling for all the spellings of a path.
pub fn normalize(path: &str) -> (normal: String)
    ensures
        normal@ == normal_form(path@),
{
    let parts = components(path);
    let ghost all = components_of(path@);
    let mut normal = String::new();
    let mut i: usize = 0;
    assert(all.take(0) == Seq::<Seq<char>>::empty());
    while i < parts.len()
        invariant
            i <= parts@.len(),
            texts(parts@) == all,
            normal@ == spelled(all.take(i as int)),
        decreases parts.len() - i,
    {
        assert(texts(parts@)[i as int] == parts@[i as int]@);
        assert(all.take(i + 1).drop_last() == all.take(i as int));
        normal = join(normal.as_str(), parts[i].as_str());
        i = i + 1;
    }
    assert(all.take(all.len() as int) == all);
    normal
}

/// `path` with `/` for every `\`.
pub open spec fn slashed(path: Seq<char>) -> Seq<char> {
    Seq::new(
        path.len(),
        |i: int|
            if path[i] == '\\' {
                '/'
            } else {
                path[i]
            },
    )
}

/// A path of Windows with `/` between its parts, and without the prefix that a canonical
/// path has there: `\\?\`, or `\\?\UNC\` for a share.
pub open spec fn portable(path: Seq<char>) -> Seq<char> {
    if "\\\\?\\UNC\\"@.is_prefix_of(path) {
        "//"@ + slashed(path.skip(8))
    } else if "\\\\?\\"@.is_prefix_of(path) {
        slashed(path.skip(4))
    } else {
        slashed(path)
    }
}

/// `path` from its character `from` on, with `/` for every `\`.
fn slash_from(path: &str, from: usize) -> (text: String)
    requires
        from <= path@.len(),
    ensures
        text@ == slashed(path@.skip(from as int)),
{
    let chars = chars_of(path);
    let ghost rest = path@.skip(from as int);
    let mut text = String::new();
    let mut i: usize = from;
    while i < chars.len()
        invariant
            chars@ == path@,
            rest == path@.skip(from as int),
            from <= i <= chars@.len(),
            text@ == slashed(rest.take(i - from)),
        decreases chars@.len() - i,
    {
        if chars[i] == '\\' {
            proof {
                reveal_strlit("/");
            }
            text.append("/");
        } else {
            text.append(path.substring_char(i, i + 1));
        }
        assert(text@ == slashed(rest.take(i + 1 - from)));
        i = i + 1;
    }
    assert(rest.take(rest.len() as int) == rest);
    text
}

/// Whether `path` starts with `start`.
fn starts_with(path: &str, start: &str) -> (starts: bool)
    ensures
        starts == start@.is_prefix_of(path@),
{
    let len = start.unicode_len();
    if path.unicode_len() < len {
        return false;
    }
    let front = path.substring_char(0, len);
    same_text(start, front)
}

/// A path of Windows with `/` between its parts.
pub fn from_windows(path: &str) -> (text: String)
    ensures
        text@ == portable(path@),
{
    proof {
        reveal_strlit("\\\\?\\UNC\\");
        reveal_strlit("\\\\?\\");
    }
    if starts_with(path, "\\\\?\\UNC\\") {
        "//".to_owned().concat(slash_from(path, 8).as_str())
    } else if starts_with(path, "\\\\?\\") {
        slash_from(path, 4)
    } else {
        assert(path@.skip(0) == path@);
        slash_from(path, 0)
    }
}

/// Whether `path` starts with a drive of Windows: a letter and a `:`.
pub open spec fn has_drive(path: Seq<char>) -> bool {
    path.len() >= 2 && ('a' <= path[0] <= 'z' || 'A' <= path[0] <= 'Z') && path[1] == ':'
}

/// Whether `path` starts with a drive of Windows.
pub fn starts_with_drive(path: &str) -> (starts: bool)
    ensures
        starts == has_drive(path@),
{
    if path.unicode_len() < 2 {
        return false;
    }
    let letter = path.get_char(0);
    (('a' <= letter && letter <= 'z') || ('A' <= letter && letter <= 'Z')) && path.get_char(1) == ':'
}

/// A text without `\` is spelled as it is.
pub proof fn law_portable(path: Seq<char>)
    requires
        !path.contains('\\'),
    ensures
        portable(path) == path,
{
    reveal_strlit("\\\\?\\UNC\\");
    reveal_strlit("\\\\?\\");
    assert forall|i: int| 0 <= i < path.len() implies path[i] != '\\' by {
        if path[i] == '\\' {
            assert(path.contains('\\'));
        }
    }
    if "\\\\?\\"@.is_prefix_of(path) {
        assert(path[0] == "\\\\?\\"@[0]);
    }
    if "\\\\?\\UNC\\"@.is_prefix_of(path) {
        assert(path[0] == "\\\\?\\UNC\\"@[0]);
    }
    assert(slashed(path) == path);
}

/// How a path of Windows is spelled: character by character, with `/` for `\`, and
/// without the prefix of a canonical path.
pub proof fn law_windows_text(path: Seq<char>, i: int)
    ensures
        slashed(path).len() == path.len(),
        0 <= i < path.len() ==> slashed(path)[i] == if path[i] == '\\' {
            '/'
        } else {
            path[i]
        },
        portable("\\\\?\\UNC\\"@ + path) == "//"@ + slashed(path),
        !"UNC\\"@.is_prefix_of(path) ==> portable("\\\\?\\"@ + path) == slashed(path),
        !"\\\\?\\"@.is_prefix_of(path) ==> portable(path) == slashed(path),
{
    reveal_strlit("\\\\?\\UNC\\");
    reveal_strlit("\\\\?\\");
    reveal_strlit("UNC\\");
    let share = "\\\\?\\UNC\\"@;
    let verbatim = "\\\\?\\"@;
    assert(share.is_prefix_of(share + path)) by {
        assert(share =~= (share + path).subrange(0, share.len() as int));
    }
    assert((share + path).skip(8) == path);
    assert(verbatim.is_prefix_of(verbatim + path)) by {
        assert(verbatim =~= (verbatim + path).subrange(0, verbatim.len() as int));
    }
    assert((verbatim + path).skip(4) == path);
    if share.is_prefix_of(verbatim + path) {
        let whole = verbatim + path;
        assert(path.len() >= 4);
        assert(share[4] == whole[4] && share[5] == whole[5] && share[6] == whole[6] && share[7]
            == whole[7]);
        assert("UNC\\"@ =~= path.subrange(0, 4));
    }
    if share.is_prefix_of(path) {
        assert(verbatim =~= path.subrange(0, 4)) by {
            assert(share =~= path.subrange(0, 8));
            assert(forall|k: int| 0 <= k < 4 ==> share[k] == path[k]);
        }
    }
}

/// A drive is a letter of the alphabet with a `:` behind it.
pub proof fn law_has_drive(path: Seq<char>)
    ensures
        has_drive(path) <==> path.len() >= 2 && path[1] == ':' && ('a' <= path[0] <= 'z' || 'A'
            <= path[0] <= 'Z'),
{
}

} // verus!
