use annotate_snippets::{
    AnnotationKind, Element, Group, Level, Origin, OutputTheme, Padding, Patch, Renderer, Snippet,
};

fn unused_variable() -> Vec<Group> {
    vec![Group::with_title(Level::error().title("unused variable")).element(Element::Cause(
        Snippet::source("let x = 1;")
            .line_start(1)
            .annotation(AnnotationKind::Primary.span(4..5).label("unused")),
    ))]
}

#[test]
fn single_line_primary_annotation_ascii() {
    let rendered = Renderer::plain().render(&unused_variable());
    let expected = "error: unused variable\n  |\n1 | let x = 1;\n  |     ^ unused";
    assert_eq!(rendered, expected);
}

#[test]
fn single_line_primary_annotation_unicode() {
    let rendered = Renderer::plain().theme(OutputTheme::Unicode).render(&unused_variable());
    let expected = "error: unused variable\n  ╭▸ \n1 │ let x = 1;\n  ╰╴    ━ unused";
    assert_eq!(rendered, expected);
}

fn spans_three_lines() -> Vec<Group> {
    let source = "let x = bar(\n    1,\n);\n";
    vec![Group::with_title(Level::error().title("spans lines")).element(Element::Cause(
        Snippet::source(source)
            .line_start(1)
            .fold(false)
            .annotation(AnnotationKind::Primary.span(8..21).label("here")),
    ))]
}

#[test]
fn multi_line_span_ascii() {
    let rendered = Renderer::plain().render(&spans_three_lines());
    let expected = "error: spans lines\n  \
                    |\n\
                    1 |   let x = bar(\n  \
                    |  _________^\n\
                    2 | |     1,\n\
                    3 | | );\n  \
                    | |_^ here";
    assert_eq!(rendered, expected);
}

#[test]
fn multi_line_span_unicode() {
    let rendered = Renderer::plain().theme(OutputTheme::Unicode).render(&spans_three_lines());
    let expected = "error: spans lines\n  \
                    ╭▸ \n\
                    1 │   let x = bar(\n  \
                    │ ┏━━━━━━━━━┛\n\
                    2 │ ┃     1,\n\
                    3 │ ┃ );\n  \
                    ╰╴┗━┛ here";
    assert_eq!(rendered, expected);
}

#[test]
fn suggestion_marks_only_what_is_added() {
    let groups = vec![Group::with_title(Level::error().title("add the operator")).element(
        Element::Suggestion(
            Snippet::source("foo(vec.pop().unwrap())")
                .line_start(1)
                .patch(Patch::new(0..23, "foo(vec.pop().unwrap()?)")),
        ),
    )];
    let expected = "error: add the operator\n  \
                    |\n\
                    1 | foo(vec.pop().unwrap()?)\n  \
                    |                       +";
    assert_eq!(Renderer::plain().render(&groups), expected);
}

#[test]
fn suggestion_that_removes_text_is_a_diff() {
    let groups = vec![Group::with_title(Level::error().title("remove")).element(
        Element::Suggestion(
            Snippet::source("let y = x.clone();\nlet z = y;\n")
                .path("src/lib.rs")
                .line_start(10)
                .patch(Patch::new(9..17, "")),
        ),
    )];
    let expected = "error: remove\n  \
                    --> src/lib.rs:10:10\n   \
                    |\n\
                    10 - let y = x.clone();\n\
                    10 + let y = x;\n   \
                    |";
    assert_eq!(Renderer::plain().render(&groups), expected);
}

#[test]
fn suggestion_that_adds_an_attribute_shows_the_next_line() {
    let groups = vec![Group::with_title(Level::help().title("derive it")).element(
        Element::Suggestion(
            Snippet::source("struct Foo;\nimpl Foo {}\n")
                .line_start(1)
                .patch(Patch::new(0..0, "#[derive(Debug)]\n")),
        ),
    )];
    let expected = "help: derive it\n  \
                    |\n\
                    1 + #[derive(Debug)]\n\
                    2 | struct Foo;\n  \
                    |";
    assert_eq!(Renderer::plain().render(&groups), expected);
}

#[test]
fn suggestion_that_changes_nothing_shows_nothing() {
    let groups = vec![Group::with_title(Level::help().title("keep it")).element(
        Element::Suggestion(
            Snippet::source("let a = 1;\n").line_start(1).patch(Patch::new(4..5, "a")),
        ),
    )];
    assert_eq!(Renderer::plain().render(&groups), "help: keep it");
}

#[test]
fn over_wide_single_span_is_cut_in_the_middle() {
    let wide = format!("let _ = [{}];", "0".repeat(2000));
    let groups = vec![Group::with_title(Level::error().title("wide")).element(Element::Cause(
        Snippet::source(&wide)
            .line_start(1)
            .annotation(AnnotationKind::Primary.span(9..2009).label("too long")),
    ))];
    let rendered = Renderer::plain().render(&groups);
    let expected = format!(
        "error: wide\n  |\n1 | ...= [{}...{}];\n  |       {}...{} too long",
        "0".repeat(44),
        "0".repeat(46),
        "^".repeat(44),
        "^".repeat(46),
    );
    assert_eq!(rendered, expected);
    let underline = rendered.lines().last().unwrap();
    let dots = underline.find("...").unwrap();
    assert!(underline[..dots].ends_with('^'));
    assert!(underline[dots + 3..].starts_with('^'));
}

fn borrow_report() -> Vec<Group> {
    let source = "fn main() {\n    let v = vec![1];\n    v.push(2);\n}\n";
    vec![
        Group::with_title(
            Level::error()
                .title("cannot borrow `v` as mutable")
                .id("E0596")
                .id_url("https://doc.rust-lang.org/error_codes/E0596.html"),
        )
        .element(Element::Cause(
            Snippet::source(source)
                .path("src/main.rs")
                .line_start(10)
                .annotation(AnnotationKind::Primary.span(37..38).label("cannot borrow as mutable"))
                .annotation(AnnotationKind::Context.span(20..21).label("declared here")),
        ))
        .element(Element::Message(Level::note().message("variables are immutable\nby default")))
        .element(Element::Message(Level::help().message("see the book"))),
        Group::with_title(Level::help().title("consider changing this to be mutable")).element(
            Element::Suggestion(
                Snippet::source(source)
                    .path("src/main.rs")
                    .line_start(10)
                    .patch(Patch::new(20..20, "mut ")),
            ),
        ),
        Group::with_title(Level::note().title("see also"))
            .element(Element::Origin(Origin::path("src/other.rs").line(3).char_column(7)))
            .element(Element::Padding(Padding)),
    ]
}

const LINKED_CODE: &str =
    "error[\u{1b}]8;;https://doc.rust-lang.org/error_codes/E0596.html\u{1b}\\E0596\u{1b}]8;;\u{1b}\\]";

#[test]
fn report_of_several_groups() {
    let expected = format!(
        "{LINKED_CODE}: cannot borrow `v` as mutable\n  \
         --> src/main.rs:12:5\n   \
         |\n\
         11 |     let v = vec![1];\n   \
         |         - declared here\n\
         12 |     v.push(2);\n   \
         |     ^ cannot borrow as mutable\n   \
         |\n   \
         = note: variables are immutable\n           \
         by default\n   \
         = help: see the book\n\
         \n\
         help: consider changing this to be mutable\n   \
         |\n\
         11 |     let mut v = vec![1];\n   \
         |         +++\n\
         \n\
         note: see also\n  \
         ::: src/other.rs:3:7\n   \
         |"
    );
    assert_eq!(Renderer::plain().render(&borrow_report()), expected);
}

#[test]
fn anonymized_line_numbers_replace_every_number() {
    let literal = Renderer::plain().render(&borrow_report());
    let anonymized = Renderer::plain().anonymized_line_numbers(true).render(&borrow_report());
    assert!(literal.contains("\n11 |     let v = vec![1];\n"));
    assert!(literal.contains("\n12 |     v.push(2);\n"));
    assert!(anonymized.contains("\nLL |     let v = vec![1];\n"));
    assert!(anonymized.contains("\nLL |     v.push(2);\n"));
    // The numbers in the gutter are the only difference, and `LL` takes
    // the room of a two-digit number.
    let replaced = literal
        .replace("\n11 |", "\nLL |")
        .replace("\n12 |", "\nLL |");
    assert_eq!(replaced, anonymized);
}

#[test]
fn short_message_is_one_line() {
    let expected = format!(
        "src/main.rs:12:5: {LINKED_CODE}: cannot borrow `v` as mutable: cannot borrow as mutable"
    );
    assert_eq!(Renderer::plain().short_message(true).render(&borrow_report()), expected);
}

#[test]
fn short_message_shows_the_first_primary_label() {
    let groups = vec![Group::with_title(Level::warning().title("unused")).element(Element::Cause(
        Snippet::source("let a = b + c;\n")
            .path("lib.rs")
            .line_start(7)
            .annotation(AnnotationKind::Context.span(4..5).label("bound here"))
            .annotation(AnnotationKind::Primary.span(8..9).label("  "))
            .annotation(AnnotationKind::Primary.span(12..13).label("never read"))
            .annotation(AnnotationKind::Primary.span(8..13).label("nor this")),
    ))];
    assert_eq!(
        Renderer::plain().short_message(true).render(&groups),
        "lib.rs:7:9: warning: unused: never read"
    );
}

#[test]
fn nested_spans_take_different_columns_of_the_gutter() {
    let source = "fn a() {\n    b(\n        c(\n            d,\n        ),\n    );\n}\n";
    let groups = vec![Group::with_title(Level::error().title("nested")).element(Element::Cause(
        Snippet::source(source)
            .line_start(1)
            .annotation(AnnotationKind::Primary.span(13..62).label("outer"))
            .annotation(AnnotationKind::Context.span(24..51).label("inner")),
    ))];
    let expected = "error: nested\n  \
                    |\n\
                    2 | /      b(\n\
                    3 | |/         c(\n\
                    4 | ||             d,\n\
                    5 | ||         ),\n  \
                    | ||_________- inner\n\
                    6 | |      );\n\
                    7 | |  }\n  \
                    | |___^ outer";
    assert_eq!(Renderer::plain().render(&groups), expected);
}

#[test]
fn tabs_and_control_characters_are_made_visible() {
    let source = "a\tb = c;\n\u{0}x\n";
    let groups = vec![Group::with_title(Level::warning().title("odd")).element(Element::Cause(
        Snippet::source(source)
            .line_start(1)
            .annotation(AnnotationKind::Primary.span(2..3).label("after a tab"))
            .annotation(AnnotationKind::Context.span(9..11).label("")),
    ))];
    let expected = "warning: odd\n  \
                    |\n\
                    1 | a    b = c;\n  \
                    |      ^ after a tab\n\
                    2 | ␀x\n  \
                    | --";
    assert_eq!(Renderer::plain().render(&groups), expected);
}

#[test]
fn span_without_width_gets_one_column() {
    let groups = vec![Group::with_title(Level::error().title("expected `;`")).element(
        Element::Cause(
            Snippet::source("let x = 1")
                .line_start(3)
                .annotation(AnnotationKind::Primary.span(9..9).label("here")),
        ),
    )];
    let expected = "error: expected `;`\n  |\n3 | let x = 1\n  |          ^ here";
    assert_eq!(Renderer::plain().render(&groups), expected);
}

#[test]
fn excerpt_without_annotations_shows_no_line_when_folded() {
    let groups = vec![Group::with_title(Level::note().title("nothing to see")).element(
        Element::Cause(Snippet::source("let x = 1;\nlet y = 2;\n").line_start(1)),
    )];
    assert_eq!(Renderer::plain().render(&groups), "note: nothing to see\n  |");
    let groups = vec![Group::with_title(Level::note().title("all of it")).element(Element::Cause(
        Snippet::source("let x = 1;\nlet y = 2;\n").line_start(1).fold(false),
    ))];
    assert_eq!(
        Renderer::plain().render(&groups),
        "note: all of it\n  |\n1 | let x = 1;\n2 | let y = 2;"
    );
}

#[test]
fn annotation_past_the_end_is_not_rendered() {
    let groups = vec![Group::with_title(Level::error().title("out of bounds")).element(
        Element::Cause(
            Snippet::source("abc").annotation(AnnotationKind::Primary.span(0..5).label("too far")),
        ),
    )];
    assert!(!Renderer::plain().is_renderable(&groups));
    assert_eq!(Renderer::plain().try_render(&groups), None);
    // One past the end is allowed.
    let groups = vec![Group::with_title(Level::error().title("end")).element(Element::Cause(
        Snippet::source("abc").annotation(AnnotationKind::Primary.span(3..4).label("eof")),
    ))];
    assert_eq!(
        Renderer::plain().try_render(&groups),
        Some("error: end\n  |\n1 | abc\n  |    ^ eof".to_string())
    );
}

#[test]
fn short_message_needs_a_title() {
    let groups = vec![Group::with_level(Level::error())];
    assert!(!Renderer::plain().short_message(true).is_renderable(&groups));
    assert!(Renderer::plain().is_renderable(&groups));
    let none: Vec<Group> = Vec::new();
    assert!(!Renderer::plain().short_message(true).is_renderable(&none));
    assert_eq!(Renderer::plain().render(&none), "");
}
