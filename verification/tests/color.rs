use annotate_snippets::{AnnotationKind, Group, Level, Renderer, Snippet};

// Escape codes of the default colours.
const RED: &str = "\u{1b}[1m\u{1b}[91m";
const BLUE: &str = "\u{1b}[1m\u{1b}[94m";
const BOLD: &str = "\u{1b}[1m";
const RESET: &str = "\u{1b}[0m";

#[test]
fn ensure_emoji_highlight_width_case() {
    let source = "\"haha this isn't a valid name 🐛\" = { package = \"libc\", version = \"0.1\" }\n";
    let input = &[Group::with_title(Level::error().title("invalid character ` ` in package name: `haha this isn't a valid name 🐛`, characters must be Unicode XID characters (numbers, `-`, `_`, or most letters)"))
        .element(
            Snippet::source(source)
                .path("<file>")
                .line_start(7)
                .annotation(AnnotationKind::Primary.span(0..35).label(""))
        )];
    let expected = format!(
        "{RED}error{RESET}{BOLD}: invalid character ` ` in package name: `haha this isn't a valid name 🐛`, characters must be Unicode XID characters (numbers, `-`, `_`, or most letters){RESET}\n \
         {BLUE}--> {RESET}<file>:7:1\n  \
         {BLUE}|{RESET}\n\
         {BLUE}7{RESET} {BLUE}|{RESET} \"haha this isn't a valid name 🐛\" = {{ package = \"libc\", version = \"0.1\" }}\n  \
         {BLUE}|{RESET} {RED}^^^^^^^^^^^^^^^^^^^^^^^^^^^^^^^^^{RESET}"
    );
    let renderer = Renderer::styled();
    assert_eq!(renderer.render(input), expected);
}

#[test]
fn issue_9_case() {
    let input = &[Group::with_title(
        Level::error().title("expected one of `.`, `;`, `?`, or an operator, found `for`"),
    )
    .element(
        Snippet::source("let x = vec![1];")
            .path("/code/rust/src/test/ui/annotate-snippet/suggestion.rs")
            .line_start(4)
            .annotation(AnnotationKind::Context.span(4..5).label("move occurs because `x` has type `std::vec::Vec<i32>`, which does not implement the `Copy` trait")),
    )
    .element(
        Snippet::source("let y = x;")
            .line_start(7)
            .annotation(AnnotationKind::Context.span(8..9).label("value moved here")),
    )
    .element(
        Snippet::source("x;")
            .line_start(9)
            .annotation(AnnotationKind::Primary.span(0..1).label("value used here after move")),
    )];
    let expected = format!(
        "{RED}error{RESET}{BOLD}: expected one of `.`, `;`, `?`, or an operator, found `for`{RESET}\n  \
         {BLUE}|{RESET}\n \
         {BLUE}::: {RESET}/code/rust/src/test/ui/annotate-snippet/suggestion.rs:4:5\n  \
         {BLUE}|{RESET}\n\
         {BLUE}4{RESET} {BLUE}|{RESET} let x = vec![1];\n  \
         {BLUE}|{RESET}     {BLUE}-{RESET} {BLUE}move occurs because `x` has type `std::vec::Vec<i32>`, which does not implement the `Copy` trait{RESET}\n  \
         {BLUE}|{RESET}\n\
         {BLUE}7{RESET} {BLUE}|{RESET} let y = x;\n  \
         {BLUE}|{RESET}         {BLUE}-{RESET} {BLUE}value moved here{RESET}\n  \
         {BLUE}|{RESET}\n \
         {BLUE}::: {RESET}\n\
         {BLUE}9{RESET} {BLUE}|{RESET} x;\n  \
         {BLUE}|{RESET} {RED}^{RESET} {RED}value used here after move{RESET}"
    );
    let renderer = Renderer::styled();
    assert_eq!(renderer.render(input), expected);
}

#[test]
fn multiple_annotations_case() {
    let source = r#"fn add_title_line(result: &mut Vec<String>, main_annotation: Option<&Annotation>) {
    if let Some(annotation) = main_annotation {
        result.push(format_title_line(
            &annotation.annotation_type,
            None,
            &annotation.label,
        ));
    }
}
"#;
    let input = &[Group::with_title(Level::error().title("")).element(
        Snippet::source(source)
            .line_start(96)
            .fold(false)
            .annotation(
                AnnotationKind::Primary
                    .span(100..110)
                    .label("Variable defined here"),
            )
            .annotation(
                AnnotationKind::Primary
                    .span(184..194)
                    .label("Referenced here"),
            )
            .annotation(
                AnnotationKind::Primary
                    .span(243..253)
                    .label("Referenced again here"),
            ),
    )];
    let expected = format!(
        "{RED}error{RESET}{BOLD}: {RESET}\n    \
         {BLUE}|{RESET}\n\
         {BLUE} 96{RESET} {BLUE}|{RESET} fn add_title_line(result: &mut Vec<String>, main_annotation: Option<&Annotation>) {{\n\
         {BLUE} 97{RESET} {BLUE}|{RESET}     if let Some(annotation) = main_annotation {{\n    \
         {BLUE}|{RESET}                 {RED}^^^^^^^^^^{RESET} {RED}Variable defined here{RESET}\n\
         {BLUE} 98{RESET} {BLUE}|{RESET}         result.push(format_title_line(\n\
         {BLUE} 99{RESET} {BLUE}|{RESET}             &annotation.annotation_type,\n    \
         {BLUE}|{RESET}              {RED}^^^^^^^^^^{RESET} {RED}Referenced here{RESET}\n\
         {BLUE}100{RESET} {BLUE}|{RESET}             None,\n\
         {BLUE}101{RESET} {BLUE}|{RESET}             &annotation.label,\n    \
         {BLUE}|{RESET}              {RED}^^^^^^^^^^{RESET} {RED}Referenced again here{RESET}\n\
         {BLUE}102{RESET} {BLUE}|{RESET}         ));\n\
         {BLUE}103{RESET} {BLUE}|{RESET}     }}\n\
         {BLUE}104{RESET} {BLUE}|{RESET} }}"
    );
    let renderer = Renderer::styled();
    assert_eq!(renderer.render(input), expected);
}

#[test]
fn strip_line_char_case() {
    let source = r#"                                                                                                                                                                                    let _: () = 42ñ"#;
    let input = &[
        Group::with_title(Level::error().title("mismatched types").id("E0308")).element(
            Snippet::source(source)
                .path("$DIR/whitespace-trimming.rs")
                .line_start(4)
                .annotation(
                    AnnotationKind::Primary
                        .span(192..194)
                        .label("expected (), found integer"),
                ),
        ),
    ];
    let expected = format!(
        "{RED}error[E0308]{RESET}{BOLD}: mismatched types{RESET}\n  \
         {BLUE}--> {RESET}$DIR/whitespace-trimming.rs:4:193\n   \
         {BLUE}|{RESET}\n\
         {BLUE}LL{RESET} {BLUE}|{RESET} {BLUE}...{RESET}                   let _: () = 42ñ\n   \
         {BLUE}|{RESET}                                   {RED}^^{RESET} {RED}expected (), found integer{RESET}"
    );
    let renderer = Renderer::styled().anonymized_line_numbers(true);
    assert_eq!(renderer.render(input), expected);
}
