use gaji::strip_typescript;
use gaji::text::join_lines;
use gaji::typescript::{check_parse, StripError};

#[test]
fn test_strip_typescript_basic() {
    let ts_source = "const x: number = 42;\nconst y: string = \"hello\";";
    let result = strip_typescript(ts_source, "test.ts").unwrap();
    assert!(result.contains("const x = 42"));
    assert!(result.contains("const y = \"hello\""));
    assert!(!result.contains(": number"));
    assert!(!result.contains(": string"));
}

#[test]
fn stripped_text_is_exact() {
    let code = strip_typescript("let x: number = 1;", "a.ts").unwrap();
    assert_eq!(code, "let x = 1;\n");
    let code = strip_typescript("interface A { b: string }\nexport const c = 2 as number;", "a.ts").unwrap();
    assert_eq!(code, "export const c = 2;\n");
}

#[test]
fn broken_source_is_rejected_with_the_messages() {
    let rejection = strip_typescript("const = ;", "test.ts").unwrap_err();
    assert!(!rejection.errors.is_empty());
    let expected = format!("Parse errors:\n{}", rejection.errors.join("\n"));
    assert_eq!(rejection.message(), expected);
    assert!(rejection.message().contains("Unexpected token"));
}

#[test]
fn the_messages_keep_their_order() {
    let rejection = strip_typescript("let a = { b = 1 };\nexport { c, d as c };", "test.js").unwrap_err();
    assert_eq!(
        rejection.errors,
        vec!["Invalid assignment in object literal", "Duplicated export 'c'"]
    );
}

#[test]
fn the_extension_decides_the_dialect() {
    // Types are no JavaScript.
    assert!(strip_typescript("const x: number = 1;", "test.js").is_err());
    assert!(strip_typescript("const x: number = 1;", "test.mts").is_ok());
    // JSX is no plain TypeScript.
    assert!(strip_typescript("const x = <a></a>;", "test.ts").is_err());
    assert!(strip_typescript("const x = <a></a>;", "test.tsx").is_ok());
}

#[test]
fn other_names_are_read_as_tsx() {
    for name in ["test.txt", "test", "", "..", ".ts", "test.TS"] {
        assert!(strip_typescript("const x: number = 1;", name).is_ok(), "{name:?}");
        assert!(strip_typescript("const x = <a></a>;", name).is_ok(), "{name:?}");
    }
}

#[test]
fn stripping_is_repeatable() {
    let source = "enum Color { Red, Green }\nexport const c: Color = Color.Green;";
    let first = strip_typescript(source, "a.ts").unwrap();
    let second = strip_typescript(source, "a.ts").unwrap();
    assert_eq!(first, second);
    assert!(first.contains("Color"));
    assert!(!first.contains(": Color"));
}

#[test]
fn a_parse_without_messages_passes() {
    assert!(check_parse(Vec::new()).is_ok());
    let rejection = check_parse(vec!["one".to_string(), "two".to_string()]).unwrap_err();
    assert_eq!(rejection.errors, vec!["one", "two"]);
    assert_eq!(rejection.message(), "Parse errors:\none\ntwo");
}

#[test]
fn lines_are_joined_by_line_breaks() {
    assert_eq!(join_lines(&Vec::new()), "");
    assert_eq!(join_lines(&vec!["a".to_string()]), "a");
    assert_eq!(join_lines(&vec!["a".to_string(), String::new(), "b".to_string()]), "a\n\nb");
    assert_eq!(StripError { errors: vec!["a".to_string()] }.message(), "Parse errors:\na");
}
