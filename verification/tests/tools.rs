use aerie::tools::{Ternary, ToolSelector, ToolSpec, tool_glob};

#[test]
fn default_tool_spec_is_disabled_stdio() {
    let spec = ToolSpec::default();
    assert!(!spec.enabled());
    assert_eq!(spec.preface(), None);
    assert_eq!(spec.timeout(), None);
    assert!(matches!(spec, ToolSpec::Stdio { .. }));
}

#[test]
fn tool_spec_accessors() {
    let mut spec = ToolSpec::HTTP {
        enabled: false,
        preface: Some("Use with care".to_string()),
        uri: "http://localhost:8000/mcp".to_string(),
        auth_var: None,
        timeout: Some(30),
    };
    assert!(!spec.enabled());
    spec.set_enabled(true);
    assert!(spec.enabled());
    assert_eq!(spec.preface(), Some("Use with care"));
    assert_eq!(spec.timeout(), Some(30));
    spec.set_enabled(false);
    assert!(!spec.enabled());
}

#[test]
fn selector_all_selects_everything() {
    let all = ToolSelector::all();
    assert!(all.is_all());
    assert!(!all.is_empty());
    assert_eq!(all.iter(), vec!["*/*".to_string()]);
    assert!(matches!(all.provider_selection("anything"), Ternary::All));
    assert!(all.apply("fs", "read_file"));
}

#[test]
fn selector_basics() {
    let empty = ToolSelector::empty();
    assert!(empty.is_empty());
    assert!(!empty.is_all());
    assert!(!empty.apply("fs", "read"));
    assert!(matches!(empty.provider_selection("fs"), Ternary::Empty));

    let mut s = ToolSelector::only("fs/read");
    s.add("web/*");
    s.include_tool("fs", "write");
    assert_eq!(
        s.iter(),
        vec!["fs/read".to_string(), "fs/write".to_string(), "web/*".to_string()]
    );
    s.remove("fs/read");
    assert_eq!(s.iter(), vec!["fs/write".to_string(), "web/*".to_string()]);
}

#[test]
fn provider_selection_names_tools() {
    let s = ToolSelector::empty()
        .with_include("fs", "read")
        .with_include("fs", "write")
        .with_include("web", "*")
        .with_include("git", "log");
    assert!(matches!(s.provider_selection("web"), Ternary::All));
    match s.provider_selection("fs") {
        Ternary::Subset(set) => {
            let names: Vec<String> = set.iter().cloned().collect();
            assert_eq!(names, vec!["read".to_string(), "write".to_string()]);
        }
        _ => panic!("expected a subset"),
    }
    assert!(matches!(s.provider_selection("db"), Ternary::Empty));
}

#[test]
fn apply_matches_glob_patterns() {
    let s = ToolSelector::only("fs/read_*");
    assert!(s.apply("fs", "read_file"));
    assert!(!s.apply("fs", "write_file"));
    assert!(!s.apply("web", "read_file"));
    let bad = ToolSelector::only("fs/[");
    assert!(!bad.apply("fs", "["));
}

#[test]
fn tool_glob_rejects_invalid_patterns() {
    assert!(tool_glob("a/*".to_string()).is_ok());
    assert!(tool_glob("a/[".to_string()).is_err());
}

#[test]
fn included_tool_is_selected_and_removed_tool_is_not() {
    let mut s = ToolSelector::empty();
    s.include_tool("fs", "read");
    match s.provider_selection("fs") {
        Ternary::Subset(set) => assert!(set.contains("read")),
        _ => panic!("expected a subset"),
    }
    s.remove("fs/read");
    assert!(matches!(s.provider_selection("fs"), Ternary::Empty));
}

#[test]
fn wildcard_patterns_apply_to_every_tool_of_their_provider() {
    let all = ToolSelector::all();
    let fs = ToolSelector::only("fs/*");
    for tool in ["read", "write/deep", "", ".hidden", "[x]"] {
        assert!(all.apply("any", tool));
        assert!(fs.apply("fs", tool));
        assert!(!ToolSelector::empty().apply("fs", tool));
    }
    assert!(!fs.apply("web", "read"));
}
