use annotate_snippets::annotate::place_multiline;
use annotate_snippets::renderer::line_annotation::LineAnnotationType;
use annotate_snippets::source_map::SourceMap;
use annotate_snippets::text::{chars_width, str_width};
use annotate_snippets::{AnnotationKind, Element, Group, Level, Renderer, Snippet, Span};

fn report() -> Vec<Group> {
    vec![Group::with_title(Level::error().title("mismatched types").id("E0308")).element(
        Element::Cause(
            Snippet::source("fn main() {\n    let x: u8 = \"a\";\n}\n")
                .path("src/main.rs")
                .line_start(1)
                .annotation(AnnotationKind::Primary.span(28..31).label("expected `u8`"))
                .annotation(AnnotationKind::Context.span(23..25).label("expected due to this")),
        ),
    )]
}

#[test]
fn rendering_twice_gives_the_same_text() {
    let renderer = Renderer::styled();
    let first = renderer.render(&report());
    let second = renderer.render(&report());
    assert_eq!(first, second);
    assert_eq!(
        Renderer::plain().render(&report()),
        "error[E0308]: mismatched types\n \
         --> src/main.rs:2:17\n  \
         |\n\
         2 |     let x: u8 = \"a\";\n  \
         |            --   ^^^ expected `u8`\n  \
         |            |\n  \
         |            expected due to this"
    );
}

#[test]
fn lines_with_a_span_that_fits_are_not_wider_than_the_terminal() {
    let long = format!("{}let _: () = 42; {}", " ".repeat(200), "// padding ".repeat(40));
    for term_width in [60usize, 80, 140] {
        let groups = vec![Group::with_title(Level::error().title("mismatched types")).element(
            Element::Cause(
                Snippet::source(&long)
                    .line_start(1)
                    .annotation(AnnotationKind::Primary.span(212..214).label("found integer")),
            ),
        )];
        let rendered = Renderer::plain().term_width(term_width).render(&groups);
        let source_line = rendered.lines().nth(2).unwrap();
        assert!(source_line.starts_with("1 | ..."));
        assert!(source_line.contains("= 42;"));
        assert!(str_width(source_line) <= term_width, "{source_line:?}");
    }
}

#[test]
fn every_offset_resolves_to_where_it_is() {
    let source = "let ñ = \"🐛\";\r\n\tx\n\nend";
    let sm = SourceMap::new(source, 5);
    for (offset, _) in source.char_indices().chain([(source.len(), ' ')]) {
        let (loc, _) = sm.span_to_locations(Span { start: offset, end: offset });
        assert_eq!(loc.byte, offset);
        let line = sm.lines.iter().find(|l| l.line_index == loc.line).unwrap();
        assert!(line.start_byte <= offset);
        let text: String = line.line.iter().collect();
        if offset <= line.start_byte + text.len() {
            // Within the text of the line: the characters before the
            // position are the source from the start of the line on.
            let prefix: Vec<char> = line.line.iter().take(loc.char).copied().collect();
            let expected: Vec<char> = source[line.start_byte..offset].chars().collect();
            assert_eq!(prefix, expected);
            assert_eq!(loc.display, chars_width(&prefix));
        } else {
            // Within the line break.
            assert_eq!(loc.char, line.line.len() + 1);
        }
    }
    // Exact values: the bug is two columns wide and four bytes long.
    let (loc, _) = sm.span_to_locations(Span { start: 14, end: 14 });
    assert_eq!((loc.line, loc.char, loc.display, loc.byte), (5, 10, 11, 14));
    let (loc, _) = sm.span_to_locations(Span { start: 19, end: 19 });
    assert_eq!((loc.line, loc.char, loc.display), (6, 1, 4));
}

#[test]
fn columns_never_go_back_along_a_line() {
    let source = "a\tñ\u{200d}🐛\u{7}z\r\nnext 宽 line\n";
    let sm = SourceMap::new(source, 1);
    let mut last: Option<annotate_snippets::source_map::Loc> = None;
    for (offset, _) in source.char_indices() {
        let (loc, _) = sm.span_to_locations(Span { start: offset, end: offset });
        if let Some(before) = last {
            if before.line == loc.line {
                assert!(before.char <= loc.char);
                assert!(before.display <= loc.display);
            }
        }
        last = Some(loc);
    }
    // A tab takes four columns, the joiner none, the bug two and the bell one.
    let (loc, _) = sm.span_to_locations(Span { start: 12, end: 12 });
    assert_eq!((loc.line, loc.char, loc.display), (1, 6, 9));
}

fn count(lines: &[annotate_snippets::renderer::line_annotation::AnnotatedLineInfo], wanted: LineAnnotationType) -> usize {
    lines
        .iter()
        .flat_map(|l| l.annotations.iter())
        .filter(|a| a.annotation_type == wanted)
        .count()
}

#[test]
fn every_bracket_that_starts_also_ends() {
    let source = "a(\n  b(\n    c,\n  ),\n  d(\n    e,\n  ),\n);\nf(\n  g,\n);\n";
    let sm = SourceMap::new(source, 1);
    let annotations = Snippet::source(source)
        .annotation(AnnotationKind::Primary.span(0..40).label("all"))
        .annotation(AnnotationKind::Context.span(5..18).label("first"))
        .annotation(AnnotationKind::Context.span(23..36).label("second"))
        .annotation(AnnotationKind::Context.span(23..36).label("second, again"))
        .annotation(AnnotationKind::Context.span(42..51).label("later"))
        .annotation(AnnotationKind::Context.span(0..1).label("single"))
        .markers;
    for fold in [true, false] {
        let (depth, lines) = sm.annotated_lines(&annotations, fold);
        assert_eq!(depth, 2);
        for d in 0..=depth + 1 {
            assert_eq!(
                count(&lines, LineAnnotationType::MultilineStart(d)),
                count(&lines, LineAnnotationType::MultilineEnd(d)),
            );
        }
        // The outer bracket runs in the first column. The two inner ones,
        // which share no line, both run in the second, and so does the
        // bracket that starts on the line where the outer one ends. The
        // annotation that a later one repeats draws no bracket.
        assert_eq!(count(&lines, LineAnnotationType::MultilineStart(1)), 1);
        assert_eq!(count(&lines, LineAnnotationType::MultilineStart(2)), 3);
        assert_eq!(count(&lines, LineAnnotationType::Singleline), 2);
    }
}

#[test]
fn brackets_that_share_a_line_run_in_different_columns() {
    let source = "a\nb\nc\nd\ne\nf\ng\nh\ni\nj\n";
    let sm = SourceMap::new(source, 1);
    // Lines 1-2, 2-10 and 5-8: the third shares no line with the first.
    let spans = [(0usize, 3usize), (2, 19), (8, 15)];
    let mut multis = Vec::new();
    for (start, end) in spans {
        let (lo, hi) = sm.span_to_locations(Span { start, end });
        multis.push(annotate_snippets::annotate::MultilineAnnotation {
            start: lo,
            end: hi,
            kind: AnnotationKind::Context,
            label: None,
            highlight_source: false,
        });
    }
    let placed = place_multiline(&multis);
    let depths: Vec<usize> = placed.iter().map(|p| p.depth).collect();
    assert_eq!(depths, vec![1, 2, 1]);
    for i in 0..multis.len() {
        for j in i + 1..multis.len() {
            let share = multis[i].start.line <= multis[j].end.line
                && multis[j].start.line <= multis[i].end.line;
            if share {
                assert_ne!(placed[i].depth, placed[j].depth);
            }
        }
    }
}
