use std::path::{Component, Path, PathBuf};

use gaji::path::{
    components, ends_with, extension, extension_is, file_name, from_windows, join, normalize, parent,
    starts_with_drive, with_extension,
};
use gaji::text::same_text;

/// Every text of at most `len` letters out of `letters`.
fn texts_up_to(letters: &[char], len: usize) -> Vec<String> {
    let mut all = vec![String::new()];
    let mut longest = vec![String::new()];
    for _ in 0..len {
        let mut longer = Vec::new();
        for text in &longest {
            for letter in letters {
                let mut next = text.clone();
                next.push(*letter);
                longer.push(next);
            }
        }
        all.extend(longer.iter().cloned());
        longest = longer;
    }
    all
}

fn spellings() -> Vec<String> {
    texts_up_to(&['/', '.', 'a'], 7)
}

fn expected_components(path: &str) -> Vec<String> {
    Path::new(path)
        .components()
        .map(|part| match part {
            Component::RootDir => "/".to_string(),
            Component::CurDir => ".".to_string(),
            Component::ParentDir => "..".to_string(),
            Component::Normal(name) => name.to_str().unwrap().to_string(),
            Component::Prefix(_) => unreachable!(),
        })
        .collect()
}

#[test]
fn parents_agree_with_std() {
    for path in spellings() {
        let expected = Path::new(&path).parent().map(|dir| dir.to_str().unwrap().to_string());
        assert_eq!(parent(&path), expected, "{path:?}");
    }
}

#[test]
fn file_names_agree_with_std() {
    for path in spellings() {
        let expected = Path::new(&path).file_name().map(|name| name.to_str().unwrap().to_string());
        assert_eq!(file_name(&path), expected, "{path:?}");
    }
}

#[test]
fn extensions_agree_with_std() {
    for path in spellings() {
        let expected = Path::new(&path).extension().map(|end| end.to_str().unwrap().to_string());
        assert_eq!(extension(&path), expected, "{path:?}");
        let is_a = Path::new(&path).extension().is_some_and(|end| end == "a");
        assert_eq!(extension_is(&path, "a"), is_a, "{path:?}");
    }
}

#[test]
fn replaced_extensions_agree_with_std() {
    for path in spellings() {
        for new in ["ts", "", "x"] {
            let expected = Path::new(&path).with_extension(new).to_str().unwrap().to_string();
            assert_eq!(with_extension(&path, new), expected, "{path:?} {new:?}");
        }
    }
}

#[test]
fn components_agree_with_std() {
    for path in spellings() {
        assert_eq!(components(&path), expected_components(&path), "{path:?}");
    }
}

#[test]
fn joins_agree_with_std() {
    let short = texts_up_to(&['/', '.', 'a'], 4);
    for dir in &short {
        for name in &short {
            let expected = Path::new(dir).join(name).to_str().unwrap().to_string();
            assert_eq!(join(dir, name), expected, "{dir:?} {name:?}");
        }
    }
}

#[test]
fn path_endings_agree_with_std() {
    let short = texts_up_to(&['/', '.', 'a'], 4);
    for path in &short {
        for tail in &short {
            let expected = Path::new(path).ends_with(tail);
            assert_eq!(ends_with(path, tail), expected, "{path:?} {tail:?}");
        }
    }
}

#[test]
fn normal_forms_agree_with_path_equality() {
    let short = texts_up_to(&['/', '.', 'a'], 4);
    let normal: Vec<String> = short.iter().map(|path| normalize(path)).collect();
    for (path, form) in short.iter().zip(&normal) {
        assert_eq!(PathBuf::from(path), PathBuf::from(form), "{path:?}");
        for (other, other_form) in short.iter().zip(&normal) {
            let same = PathBuf::from(path) == PathBuf::from(other);
            assert_eq!(form == other_form, same, "{path:?} {other:?}");
        }
    }
}

#[test]
fn spelled_out_paths() {
    assert_eq!(parent("/project/workflows/ci.ts"), Some("/project/workflows".to_string()));
    assert_eq!(parent("ci.ts"), Some(String::new()));
    assert_eq!(parent("/"), None);
    assert_eq!(parent(""), None);
    assert_eq!(join("/project", "./lib/common.js"), "/project/./lib/common.js");
    assert_eq!(join("/project", "/lib/common.js"), "/lib/common.js");
    assert_eq!(join("", "a"), "a");
    assert_eq!(file_name("/project/ci.ts/"), Some("ci.ts".to_string()));
    assert_eq!(file_name("/project/.."), None);
    assert_eq!(extension("archive.tar.gz"), Some("gz".to_string()));
    assert_eq!(extension(".hidden"), None);
    assert_eq!(extension("trailing."), Some(String::new()));
    assert_eq!(with_extension("/project/lib.min.js", "ts"), "/project/lib.min.ts");
    assert_eq!(with_extension("/project/lib", "ts"), "/project/lib.ts");
    assert_eq!(with_extension("..", "ts"), "..");
    assert_eq!(with_extension("/project/..js", "ts"), "/project/..");
    assert_eq!(with_extension("/project/lib.js/", "ts"), "/project/lib.ts");
    assert_eq!(normalize("/a//b/./c/"), "/a/b/c");
    assert_eq!(normalize("./a/../b"), "./a/../b");
    assert!(ends_with("/p/./generated//index.js", "generated/index.js"));
    assert!(!ends_with("/p/regenerated/index.js", "generated/index.js"));
    assert!(ends_with("generated/index.js", "generated/index.js"));
}

#[test]
fn paths_beyond_ascii() {
    assert_eq!(parent("/프로젝트/워크플로.ts"), Some("/프로젝트".to_string()));
    assert_eq!(file_name("/프로젝트/워크플로.ts"), Some("워크플로.ts".to_string()));
    assert_eq!(extension("/프로젝트/é.日本"), Some("日本".to_string()));
    assert_eq!(with_extension("/프로젝트/é.js", "ts"), "/프로젝트/é.ts");
    assert_eq!(normalize("/프로젝트/./é"), "/프로젝트/é");
}

#[test]
fn texts_are_compared_by_their_characters() {
    assert!(same_text("é", "é"));
    assert!(!same_text("a", "A"));
    assert!(!same_text("a", "ab"));
    assert!(same_text("", ""));
}

#[test]
fn the_first_component_starts_as_the_path_does() {
    for path in ["/a/b", "./a", "../a", "generated/index.js", ".", "//"] {
        assert_eq!(components(path)[0].chars().next(), path.chars().next());
    }
}

#[test]
fn a_name_keeps_its_end_behind_any_directory() {
    for dir in ["", "/", ".", "/w", "/w/", "../x/."] {
        for name in ["generated/index.js", "./generated/index.js", "../generated/./index.js", "/generated//index.js"] {
            assert!(ends_with(&join(dir, name), "generated/index.js"));
        }
        assert!(!ends_with(&join(dir, "generated/index.ts"), "generated/index.js"));
    }
}

#[test]
fn paths_of_windows_get_slashes() {
    assert_eq!(from_windows(r"C:\p\main.ts"), "C:/p/main.ts");
    assert_eq!(from_windows(r"\\?\C:\p\main.ts"), "C:/p/main.ts");
    assert_eq!(from_windows(r"\\?\UNC\host\share\a.ts"), "//host/share/a.ts");
    assert_eq!(from_windows(r"\\?"), "//?");
    assert_eq!(from_windows("p/a.ts"), "p/a.ts");
    assert_eq!(from_windows(""), "");
    let base = from_windows(r"\\?\C:\p\main.ts");
    assert_eq!(join(&parent(&base).unwrap(), "./dep.js"), "C:/p/./dep.js");
}

#[test]
fn drives_are_a_letter_and_a_colon() {
    assert!(starts_with_drive("C:/a"));
    assert!(starts_with_drive("z:"));
    for path in ["", "C", "/C:/a", "1:/a", "CC:/a", "é:/a"] {
        assert!(!starts_with_drive(path), "{path:?}");
    }
}

#[test]
fn plain_names_lie_in_the_empty_directory() {
    for name in ["a", "a.js", ".", "..", "__gaji_config_entry__"] {
        assert_eq!(parent(name), Some(String::new()));
    }
}
