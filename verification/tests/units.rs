use annotate_snippets::margin::Margin;
use annotate_snippets::renderer::glyphs::{decimal_chars, num_decimal_digits};
use annotate_snippets::renderer::order::order_of;
use annotate_snippets::renderer::report::{max_line_number, newline_count};
use annotate_snippets::renderer::{char_width, str_width};
use annotate_snippets::source_map::SourceMap;
use annotate_snippets::splice::PatchText;
use annotate_snippets::style::{ElementStyle, Stylesheet};
use annotate_snippets::styled_buffer::StyledBuffer;
use annotate_snippets::text::{chars_of, normalize_whitespace, string_of, trim};
use annotate_snippets::{
    AnnotationKind, AnsiColor, Effects, Element, Group, Level, LevelInner, Patch, Renderer,
    Snippet, Span, Style,
};

fn text(s: &str) -> Vec<char> {
    s.chars().collect()
}

#[test]
fn widths_of_characters() {
    assert_eq!(char_width('a'), 1);
    assert_eq!(char_width('\t'), 4);
    assert_eq!(char_width('\0'), 1);
    assert_eq!(char_width('\u{7f}'), 1);
    assert_eq!(char_width('\u{202e}'), 1);
    assert_eq!(char_width('\u{2068}'), 1);
    assert_eq!(char_width('ñ'), 1);
    // Widths that only the tables of Unicode know.
    assert_eq!(char_width('🐛'), 2);
    assert_eq!(char_width('漢'), 2);
    assert_eq!(char_width('\u{301}'), 0);
    assert_eq!(char_width('\n'), 1);
    assert_eq!(str_width(""), 0);
    assert_eq!(str_width("a\tb"), 6);
    assert_eq!(str_width("名前 🐛"), 7);
}

#[test]
fn digits_of_numbers() {
    assert_eq!(num_decimal_digits(0), 1);
    assert_eq!(num_decimal_digits(9), 1);
    assert_eq!(num_decimal_digits(10), 2);
    assert_eq!(num_decimal_digits(99), 2);
    assert_eq!(num_decimal_digits(100), 3);
    assert_eq!(num_decimal_digits(104), 3);
    assert_eq!(num_decimal_digits(usize::MAX), usize::MAX.to_string().len());
    assert_eq!(decimal_chars(0), text("0"));
    assert_eq!(decimal_chars(1203), text("1203"));
}

#[test]
fn characters_are_made_visible() {
    assert_eq!(normalize_whitespace(&text("a\tb")), text("a    b"));
    assert_eq!(normalize_whitespace(&text("\0\u{1}\u{8}\u{b}\u{1f}\u{7f}")), text("␀␁␈␋␟␡"));
    assert_eq!(normalize_whitespace(&text("a\u{200d}b")), text("ab"));
    assert_eq!(normalize_whitespace(&text("\u{202a}\u{202e}\u{2066}\u{2069}")), text("����"));
    assert_eq!(normalize_whitespace(&text("plain ñ 🐛\n")), text("plain ñ 🐛\n"));
    assert_eq!(trim(&text(" \t x y \u{a0}\n")), text("x y"));
    assert_eq!(string_of(&chars_of("ñ🐛")), "ñ🐛");
}

#[test]
fn line_breaks_are_counted() {
    assert_eq!(newline_count(""), 0);
    assert_eq!(newline_count("a"), 0);
    assert_eq!(newline_count("a\n"), 0);
    assert_eq!(newline_count("a\nb"), 1);
    assert_eq!(newline_count("a\nb\n"), 1);
    assert_eq!(newline_count("\n\n\n"), 2);
    assert_eq!(newline_count("ä\r\nö\r\nü"), 2);
}

#[test]
fn greatest_line_number_of_a_report() {
    let none: Vec<Group> = Vec::new();
    assert_eq!(max_line_number(&none), 1);
    assert_eq!(max_line_number(&[Group::with_level(Level::error())]), 1);
    let source = "one\ntwo\nthree\nfour\n";
    let folded = Group::with_level(Level::error()).element(Element::Cause(
        Snippet::source(source)
            .line_start(10)
            .annotation(AnnotationKind::Primary.span(4..7)),
    ));
    // With folding, lines after the last annotation do not count.
    assert_eq!(max_line_number(&[folded]), 11);
    let whole = Group::with_level(Level::error()).element(Element::Cause(
        Snippet::source(source)
            .line_start(10)
            .fold(false)
            .annotation(AnnotationKind::Primary.span(4..7)),
    ));
    assert_eq!(max_line_number(&[whole]), 13);
    let suggestion = Group::with_level(Level::help()).element(Element::Suggestion(
        Snippet::source(source).line_start(98).patch(Patch::new(8..13, "3")),
    ));
    assert_eq!(max_line_number(&[suggestion]), 100);
}

#[test]
fn window_onto_long_lines() {
    // Everything fits: nothing is cut.
    let m = Margin::new(4, 10, 20, 30, 100, 60);
    assert_eq!((m.computed_left, m.computed_right), (0, 60));
    assert!(!m.was_cut_left());
    assert_eq!((m.left(60), m.right(60)), (0, 60));
    // Long leading whitespace is trimmed, but for four columns.
    let m = Margin::new(46, 50, 60, 70, 100, 90);
    assert_eq!((m.whitespace_left, m.computed_left, m.computed_right), (40, 24, 90));
    assert!(m.was_cut_left());
    // Too wide, but spans and labels fit after the whitespace.
    let m = Margin::new(184, 192, 194, 221, 135, 200);
    assert_eq!((m.computed_left, m.computed_right), (162, 200));
    let m = Margin::new(0, 150, 160, 170, 50, 400);
    assert_eq!((m.span_left, m.label_right), (144, 176));
    assert_eq!((m.computed_left, m.computed_right), (135, 185));
    assert_eq!((m.left(400), m.right(400)), (135, 185));
    assert_eq!((m.left(100), m.right(100)), (100, 100));
    // Not even the span fits.
    let m = Margin::new(0, 10, 300, 310, 50, 400);
    assert_eq!((m.computed_left, m.computed_right), (4, 306));
}

#[test]
fn canvas_grows_as_needed() {
    let mut b = StyledBuffer::new();
    assert_eq!(b.num_lines(), 0);
    b.putc(1, 2, 'x', ElementStyle::NoStyle);
    assert_eq!(b.num_lines(), 2);
    b.puts(1, 4, &text("yz"), ElementStyle::NoStyle);
    b.append(1, &text("!"), ElementStyle::NoStyle);
    b.prepend(1, &text(">"), ElementStyle::NoStyle);
    b.append(3, &text("end"), ElementStyle::NoStyle);
    b.puts(0, 0, &text(""), ElementStyle::NoStyle);
    let mut out = String::new();
    b.render(LevelInner::Error, &Stylesheet::plain(), &mut out);
    assert_eq!(out, "\n>  x yz!\n\nend");
    // Later writes replace earlier ones.
    b.puts(1, 0, &text("ab"), ElementStyle::NoStyle);
    b.replace(1, 2, 6, &text("..."));
    b.replace(1, 4, 4, &text("never"));
    b.replace(1, 0, 60, &text("never"));
    b.replace(7, 0, 1, &text("never"));
    let mut out = String::new();
    b.render(LevelInner::Error, &Stylesheet::plain(), &mut out);
    assert_eq!(out, "\nab...z!\n\nend");
}

#[test]
fn canvas_flattens_runs_of_one_style() {
    let sheet = Stylesheet::styled(false);
    let mut b = StyledBuffer::new();
    b.puts(0, 0, &text("12 | code"), ElementStyle::Quotation);
    b.set_style_range(0, 0, 2, ElementStyle::LineNumber, true);
    b.set_style_range(0, 3, 4, ElementStyle::LineNumber, false);
    b.set_style_range(0, 5, 9, ElementStyle::UnderlinePrimary, false);
    // Without `overwrite`, a cell that has a style keeps it.
    b.set_style_range(0, 5, 7, ElementStyle::Addition, false);
    b.set_style(0, 8, ElementStyle::Removal, true);
    b.set_style_range(0, 50, 60, ElementStyle::Removal, true);
    b.set_style_range(9, 0, 4, ElementStyle::Removal, true);
    let mut out = String::new();
    b.render(LevelInner::Warning, &sheet, &mut out);
    assert_eq!(
        out,
        "\u{1b}[1m\u{1b}[94m12\u{1b}[0m \u{1b}[1m\u{1b}[94m|\u{1b}[0m \u{1b}[1m\u{1b}[33mcod\u{1b}[0m\u{1b}[91me\u{1b}[0m"
    );
}

#[test]
fn styles_render_as_escape_codes() {
    assert_eq!(Style::new().render(), "");
    assert_eq!(Style::new().render_reset(), "");
    let style = AnsiColor::BrightRed.on_default().effects(Effects::bold());
    assert_eq!(style.render(), "\u{1b}[1m\u{1b}[91m");
    assert_eq!(style.render_reset(), "\u{1b}[0m");
    let style = Style::new().fg_color(Some(AnsiColor::Green)).bg_color(Some(AnsiColor::Black));
    assert_eq!(style.render(), "\u{1b}[32m\u{1b}[40m");
    let all = Effects { bold: true, dimmed: true, italic: true, underline: true };
    assert_eq!(Style::new().effects(all).render(), "\u{1b}[1m\u{1b}[2m\u{1b}[3m\u{1b}[4m");
    assert!(style.same(&style));
    assert!(!style.same(&Style::new()));
}

#[test]
fn styles_of_a_renderer_can_be_set_one_by_one() {
    let green = AnsiColor::Green.on_default();
    let groups = vec![Group::with_title(Level::warning().title("look")).element(Element::Cause(
        Snippet::source("x").annotation(AnnotationKind::Context.span(0..1).label("here")),
    ))];
    let rendered = Renderer::plain()
        .warning(AnsiColor::Yellow.on_default())
        .emphasis(Style::new().effects(Effects::bold()))
        .line_num(AnsiColor::Blue.on_default())
        .context(green)
        .render(&groups);
    assert_eq!(
        rendered,
        "\u{1b}[33mwarning\u{1b}[0m\u{1b}[1m: look\u{1b}[0m\n  \
         \u{1b}[34m|\u{1b}[0m\n\
         \u{1b}[34m1\u{1b}[0m \u{1b}[34m|\u{1b}[0m x\n  \
         \u{1b}[34m|\u{1b}[0m \u{1b}[32m-\u{1b}[0m \u{1b}[32mhere\u{1b}[0m"
    );
    let legacy = Renderer::styled_for(true);
    assert_eq!(legacy.stylesheet.info.fg, Some(AnsiColor::BrightCyan));
    assert_eq!(legacy.stylesheet.warning.fg, Some(AnsiColor::BrightYellow));
    assert_eq!(legacy.stylesheet.emphasis.fg, Some(AnsiColor::BrightWhite));
    assert_eq!(Renderer::styled().stylesheet.info.fg, Some(AnsiColor::BrightBlue));
    assert_eq!(Renderer::styled().stylesheet.emphasis.fg, None);
    assert_eq!(Renderer::plain().term_width, 140);
}

#[test]
fn names_of_levels() {
    assert_eq!(Level::error().as_str(), "error");
    assert_eq!(Level::warning().as_str(), "warning");
    assert_eq!(Level::info().as_str(), "info");
    assert_eq!(Level::note().as_str(), "note");
    assert_eq!(Level::help().as_str(), "help");
    assert_eq!(Level::error().with_name("suggestion").as_str(), "suggestion");
    assert_eq!(Level::error().no_name().as_str(), "");
    let custom = vec![Group::with_title(Level::error().with_name("failed").title("it"))];
    assert_eq!(Renderer::plain().render(&custom), "failed: it");
    let bare = vec![Group::with_title(Level::error().no_name().title("only this"))];
    assert_eq!(Renderer::plain().render(&bare), "only this");
}

#[test]
fn lines_of_a_source() {
    let sm = SourceMap::new("ab\r\ncd\n\nef", 7);
    let lines: Vec<(String, usize, usize, usize, usize)> = sm
        .lines
        .iter()
        .map(|l| (l.line.iter().collect(), l.line_index, l.start_byte, l.end_byte, l.end_line_size))
        .collect();
    assert_eq!(
        lines,
        vec![
            ("ab".to_string(), 7, 0, 4, 2),
            ("cd".to_string(), 8, 4, 7, 1),
            ("".to_string(), 9, 7, 8, 1),
            ("ef".to_string(), 10, 8, 10, 0),
        ]
    );
    assert_eq!(sm.get_line(8), Some(&text("cd")));
    assert_eq!(sm.get_line(11), None);
    let empty = SourceMap::new("", 3);
    assert_eq!(empty.lines.len(), 1);
    assert_eq!(empty.lines[0].line_index, 3);
    assert_eq!(sm.span_to_lines(Span { start: 5, end: 9 }), vec![1, 2, 3]);
    assert_eq!(sm.span_to_lines(Span { start: 50, end: 60 }), vec![3]);
    assert_eq!(sm.span_to_snippet(Span { start: 4, end: 6 }), Some(text("cd")));
    assert_eq!(sm.span_to_snippet(Span { start: 6, end: 4 }), None);
    assert_eq!(sm.span_to_snippet(Span { start: 4, end: 60 }), None);
    let (lo, hi) = sm.span_to_locations(Span { start: 1, end: 9 });
    assert_eq!((lo.line, lo.char, lo.display), (7, 1, 1));
    assert_eq!((hi.line, hi.char, hi.display), (10, 1, 1));
    // An offset within a line break counts one character more than the
    // line has, and the end of a span over several lines that lies
    // within a line break is one further right.
    let (lo, hi) = sm.span_to_locations(Span { start: 3, end: 3 });
    assert_eq!((lo.line, lo.char, lo.display), (7, 3, 2));
    assert_eq!(hi, lo);
    let source = SourceMap::new("ab\ncd\r\nef", 1);
    let (_, hi) = source.span_to_locations(Span { start: 1, end: 6 });
    assert_eq!((hi.line, hi.char, hi.display), (2, 4, 3));
}

#[test]
fn kinds_of_patches() {
    let sm = SourceMap::new("let a = b.clone();\n", 1);
    let patch = |start: usize, end: usize, replacement: &str| {
        PatchText::of(&Patch::new(start..end, replacement))
    };
    let addition = patch(4, 4, "mut ");
    assert!(addition.is_addition(&sm) && !addition.is_deletion(&sm));
    assert!(!addition.is_replacement(&sm) && !addition.is_destructive_replacement(&sm));
    let deletion = patch(9, 17, "");
    assert!(deletion.is_deletion(&sm) && !deletion.is_addition(&sm));
    let grown = patch(8, 9, "&b");
    assert!(grown.is_replacement(&sm) && !grown.is_destructive_replacement(&sm));
    let trimmed = grown.trim_trivial_replacements(&sm);
    assert_eq!((trimmed.span, trimmed.replacement.clone()), (Span { start: 8, end: 8 }, text("&")));
    let changed = patch(8, 9, "c");
    assert!(changed.is_destructive_replacement(&sm));
    assert!(changed.is_different(&sm));
    assert!(!patch(8, 9, "b").is_different(&sm));
}

#[test]
fn patches_are_applied_in_the_order_of_their_starts() {
    let sm = SourceMap::new("let a = b;\nlet c = d;\n", 1);
    let patches = vec![Patch::new(19..20, "e"), Patch::new(8..9, "f()")];
    let out = sm.splice_lines(&patches);
    assert_eq!(out.len(), 1);
    assert_eq!(out[0].complete, text("let a = f();\nlet c = e;"));
    let spans: Vec<Span> = out[0].parts.iter().map(|p| p.span).collect();
    assert_eq!(spans, vec![Span { start: 8, end: 9 }, Span { start: 19, end: 20 }]);
    let highlights: Vec<Vec<(usize, usize)>> = out[0]
        .highlights
        .iter()
        .map(|line| line.iter().map(|h| (h.start, h.end)).collect())
        .collect();
    assert_eq!(highlights, vec![vec![(8, 11)], vec![(8, 9)]]);
    assert!(sm.splice_lines(&Vec::new()).is_empty());
    assert!(sm.splice_lines(&vec![Patch::new(8..9, "b")]).is_empty());
}

#[test]
fn order_is_by_key_and_stable() {
    let keys = vec![(3, 0), (1, 5), (3, 0), (1, 2), (7, 7)];
    assert_eq!(order_of(&keys, false), vec![3, 1, 0, 2, 4]);
    assert_eq!(order_of(&keys, true), vec![4, 0, 2, 1, 3]);
    assert_eq!(order_of(&Vec::new(), true), Vec::<usize>::new());
}
