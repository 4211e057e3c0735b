use sheet_export::formatter::{format_string, ColorUsage, MarkdownWriter, Style, Token};

fn text(s: &str) -> Token {
    Token::Text(s.to_string())
}

fn toggle(style: Style, enabled: bool) -> Token {
    Token::SetStyle { style, enabled }
}

#[test]
fn bold_wrapped_literal() {
    let tokens = vec![toggle(Style::Bold, true), text("Hi"), toggle(Style::Bold, false)];
    assert_eq!(format_string(&tokens), "**Hi**");
}

#[test]
fn italic_wrapped_literal() {
    let tokens = vec![toggle(Style::Italic, true), text("Hi"), toggle(Style::Italic, false)];
    assert_eq!(format_string(&tokens), "*Hi*");
}

#[test]
fn nested_toggles_pair_up() {
    let tokens = vec![
        text("a "),
        toggle(Style::Bold, true),
        text("b "),
        toggle(Style::Italic, true),
        text("c"),
        toggle(Style::Italic, false),
        toggle(Style::Bold, false),
        text(" d"),
    ];
    assert_eq!(format_string(&tokens), "a **b *c*** d");
}

#[test]
fn other_styles_are_dropped() {
    let tokens = vec![toggle(Style::Other, true), text("plain"), toggle(Style::Other, false)];
    assert_eq!(format_string(&tokens), "plain");
}

#[test]
fn no_tokens_render_as_nothing() {
    assert_eq!(format_string(&vec![]), "");
}

#[test]
fn literal_text_is_kept_verbatim() {
    let tokens = vec![text("a*b"), text(""), text(" \u{e9}\u{4e16}\n")];
    assert_eq!(format_string(&tokens), "a*b \u{e9}\u{4e16}\n");
}

#[test]
fn foreground_colour_marks_its_start_only() {
    let tokens = vec![
        Token::PushColor(ColorUsage::Foreground),
        text("red"),
        Token::PopColor(ColorUsage::Foreground),
    ];
    assert_eq!(format_string(&tokens), "**red");
}

#[test]
fn other_colours_mark_their_end_only() {
    let tokens = vec![Token::PushColor(ColorUsage::Edge), text("glow"), Token::PopColor(ColorUsage::Edge)];
    assert_eq!(format_string(&tokens), "glow**");
    let tokens = vec![
        Token::PushColor(ColorUsage::Background),
        text("back"),
        Token::PopColor(ColorUsage::Background),
    ];
    assert_eq!(format_string(&tokens), "back**");
}

#[test]
fn foreground_around_edge_gives_one_pair() {
    let tokens = vec![
        Token::PushColor(ColorUsage::Foreground),
        Token::PushColor(ColorUsage::Edge),
        text("name"),
        Token::PopColor(ColorUsage::Edge),
        Token::PopColor(ColorUsage::Foreground),
    ];
    assert_eq!(format_string(&tokens), "**name**");
}

#[test]
fn writer_starts_empty() {
    assert_eq!(MarkdownWriter::new().as_str(), "");
    assert_eq!(MarkdownWriter::default().into_string(), "");
}

#[test]
fn writer_appends_text() {
    let mut writer = MarkdownWriter::new();
    writer.write_str("one");
    writer.write_str("");
    writer.write_str(" two");
    assert_eq!(writer.as_str(), "one two");
}

#[test]
fn writer_marks_styles_the_same_on_and_off() {
    let mut writer = MarkdownWriter::new();
    writer.set_style(Style::Bold, true);
    assert_eq!(writer.as_str(), "**");
    writer.set_style(Style::Bold, false);
    assert_eq!(writer.as_str(), "****");
    writer.set_style(Style::Italic, true);
    assert_eq!(writer.as_str(), "*****");
    writer.set_style(Style::Italic, false);
    assert_eq!(writer.as_str(), "******");
    writer.set_style(Style::Other, true);
    writer.set_style(Style::Other, false);
    assert_eq!(writer.into_string(), "******");
}

#[test]
fn writer_marks_colour_pushes() {
    let mut writer = MarkdownWriter::new();
    writer.push_color(ColorUsage::Background);
    writer.push_color(ColorUsage::Edge);
    assert_eq!(writer.as_str(), "");
    writer.push_color(ColorUsage::Foreground);
    assert_eq!(writer.as_str(), "**");
}

#[test]
fn writer_marks_colour_pops() {
    let mut writer = MarkdownWriter::new();
    writer.pop_color(ColorUsage::Foreground);
    assert_eq!(writer.as_str(), "");
    writer.pop_color(ColorUsage::Background);
    assert_eq!(writer.as_str(), "**");
    writer.pop_color(ColorUsage::Edge);
    assert_eq!(writer.as_str(), "****");
}

#[test]
fn writer_takes_tokens_one_by_one() {
    let tokens = vec![toggle(Style::Italic, true), text("x"), Token::PopColor(ColorUsage::Edge)];
    let mut writer = MarkdownWriter::new();
    for token in tokens.iter() {
        writer.write_token(token);
    }
    assert_eq!(writer.into_string(), format_string(&tokens));
}

#[test]
fn rendering_goes_token_by_token() {
    let first = vec![toggle(Style::Bold, true), text("a")];
    let second = vec![text("b"), toggle(Style::Bold, false)];
    let both = vec![toggle(Style::Bold, true), text("a"), text("b"), toggle(Style::Bold, false)];
    assert_eq!(format_string(&both), format!("{}{}", format_string(&first), format_string(&second)));
}
