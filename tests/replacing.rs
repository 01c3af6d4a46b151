use moonstone::project::compile::compile_program;
use moonstone::replace::replacer::{lines, Library, ReplaceError, Replacer};

const TRAILER: &str =
    "\n\n// Compiled with moonstone\n// Tool made by peony#6666\n// https://github.com/peonii/moonstone";

fn libs() -> Vec<Library> {
    vec![Library { name: "dsu".to_string(), contents: "int p[10];\nint f();\n".to_string() }]
}

#[test]
fn lines_match_std() {
    for s in ["", "a", "a\n", "a\r\nb", "a\n\nb\n", "x\r", "\n"] {
        let want: Vec<String> = s.lines().map(|x| x.to_string()).collect();
        assert_eq!(lines(s), want);
    }
}

#[test]
fn plain_source_is_kept() {
    let r = Replacer::from_text("int main() {\n    return 0;\n   \n}\n");
    let out = r.replace(&libs()).ok().unwrap();
    assert_eq!(out, format!("int main() {{\n    return 0;\n\n}}\n{TRAILER}"));
}

#[test]
fn library_is_inlined_with_indent() {
    let r = Replacer::from_text("a\n  %lib dsu\nb");
    let out = r.replace(&libs()).ok().unwrap();
    assert_eq!(
        out,
        format!(
            "a\n\n/// Library dsu.mh ///\n  int p[10];\n  int f();\n/// Library end ///\nb\n{TRAILER}"
        )
    );
}

#[test]
fn directive_without_name_fails() {
    let r = Replacer::from_text("%lib   \n%lib nothere");
    assert!(matches!(r.replace(&libs()), Err(ReplaceError::MissingLibraryName)));
}

#[test]
fn unknown_library_fails() {
    let r = Replacer::from_text("x\n%lib nothere\n%lib");
    match r.replace(&libs()) {
        Err(ReplaceError::LibraryNotFound(name)) => assert_eq!(name, "nothere"),
        _ => panic!("expected a missing library"),
    }
}

#[test]
fn compile_program_expands() {
    let out = compile_program("%lib dsu", &libs()).ok().unwrap();
    assert_eq!(out, format!("\n/// Library dsu.mh ///\nint p[10];\nint f();\n/// Library end ///\n{TRAILER}"));
}
