use bpaf::md::{unhide, Document};

#[test]
fn unhide_strips_hidden_markers() {
    let mut f = String::from("start\n");
    unhide(&mut f, "# use foo;\nlet x = 1;\r\n#not hidden");
    assert_eq!(f, "start\nuse foo;\nlet x = 1;\n#not hidden\n");
    let mut g = String::new();
    unhide(&mut g, "");
    assert_eq!(g, "");
}

#[test]
fn document_names() {
    let d = Document::Page { name: "intro".to_string(), contents: String::new(), file: "docs/intro.md".to_string() };
    assert_eq!(d.name(), "intro");
    assert_eq!(d.ext(), "md");
    assert_eq!(d.read_from(), "docs/intro.md");
    let d = Document::Pages { name: "guide".to_string(), pages: vec![], file: "docs/guide".to_string(), files: vec![] };
    assert_eq!(d.ext(), "rs");
    assert_eq!(d.name(), "guide");
}
