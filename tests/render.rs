use mathdown::render::{
    after_tool, artifact_path, first_stage, intermediate_path, normalize_args, reduce_args,
    should_render, typeset_args, typeset_input, with_class, Stage,
};

#[test]
fn inline_class_on_first_tag() {
    assert_eq!(
        with_class("<svg width=\"3\"><g/></svg>", true),
        "<svg class=\"math-inline\" width=\"3\"><g/></svg>"
    );
}

#[test]
fn block_class_on_first_tag() {
    assert_eq!(
        with_class("<?xml?><svg><g/></svg>", false),
        "<?xml?><svg class=\"math\"><g/></svg>"
    );
}

#[test]
fn class_is_one_of_two() {
    let a = with_class("<svg/>", true);
    let b = with_class("<svg/>", false);
    assert!(a.contains("math-inline"));
    assert!(!b.contains("math-inline"));
    assert!(b.contains("class=\"math\""));
    assert_eq!(a.matches("class=").count(), 1);
    assert_eq!(b.matches("class=").count(), 1);
}

#[test]
fn no_tag_leaves_text_unchanged() {
    assert_eq!(with_class("<html></html>", true), "<html></html>");
    assert_eq!(with_class("sv", false), "sv");
}

#[test]
fn path_uses_source_verbatim() {
    assert_eq!(artifact_path("$x$"), "math/$x$.svg");
    assert_eq!(artifact_path("$ x $"), "math/$ x $.svg");
}

#[test]
fn typeset_input_has_style_prefix() {
    assert_eq!(typeset_input("$x$"), "#show math.equation: set text(1.15em)\n$x$");
}

#[test]
fn cache_decides_render() {
    assert!(should_render(false, false));
    assert!(should_render(false, true));
    assert!(should_render(true, false));
    assert!(!should_render(true, true));
}

#[test]
fn second_render_with_cache_reads_only() {
    assert_eq!(first_stage(true, false), Stage::Typeset);
    assert_eq!(first_stage(true, true), Stage::Read);
    assert_eq!(first_stage(false, true), Stage::Typeset);
}

#[test]
fn stages_advance_on_success() {
    assert_eq!(after_tool(Stage::Typeset, 0), Ok(Stage::Normalize));
    assert_eq!(after_tool(Stage::Normalize, 0), Ok(Stage::Reduce));
    assert_eq!(after_tool(Stage::Reduce, 0), Ok(Stage::Read));
}

#[test]
fn failing_tool_ends_run_with_its_code() {
    assert_eq!(after_tool(Stage::Typeset, 2), Err(2));
    assert_eq!(after_tool(Stage::Normalize, 2), Err(2));
    assert_eq!(after_tool(Stage::Reduce, -1), Err(-1));
}

#[test]
fn tool_arguments() {
    assert_eq!(typeset_args("/tmp/a", "/tmp/b.svg"), vec!["compile", "/tmp/a", "/tmp/b.svg"]);
    assert_eq!(intermediate_path("/tmp/b"), "/tmp/b.svg");
    assert_eq!(
        normalize_args("math/$x$.svg", "/tmp/b.svg"),
        vec!["--export-filename=math/$x$.svg", "--export-area-drawing", "/tmp/b.svg"]
    );
    assert_eq!(
        reduce_args("o.svg"),
        vec![
            "--trim-ids=no",
            "--coordinates-precision=2",
            "--properties-precision=2",
            "--transforms-precision=2",
            "--paths-coordinates-precision=2",
            "o.svg",
            "o.svg",
        ]
    );
}
