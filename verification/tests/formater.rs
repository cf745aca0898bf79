use fullmoon::formater::{Formater, Span, StringType};

fn pieces(spans: &[Span]) -> Vec<(StringType, String)> {
    spans.iter().map(|s| (s.kind, s.text.clone())).collect()
}

fn expect(items: &[(StringType, &str)]) -> Vec<(StringType, String)> {
    items.iter().map(|(k, t)| (*k, t.to_string())).collect()
}

#[test]
fn clean_takes_images_out() {
    assert_eq!(Formater::clean("a ![cat](http://x/y.png) b"), Some("a  b".to_string()));
    assert_eq!(Formater::clean("![]()"), Some(String::new()));
    assert_eq!(Formater::clean("[link](x) stays"), Some("[link](x) stays".to_string()));
}

#[test]
fn clean_shortens_runs_of_empty_lines() {
    assert_eq!(Formater::clean("a\n\n\n\nb"), Some("a\n\nb".to_string()));
    assert_eq!(Formater::clean("a\n\nb"), Some("a\n\nb".to_string()));
    assert_eq!(Formater::clean("a\r\n\r\n\r\nb"), Some("a\n\nb".to_string()));
    assert_eq!(Formater::clean("a\r\nb"), Some("a\nb".to_string()));
}

#[test]
fn clean_trims_the_result() {
    assert_eq!(Formater::clean("  text \n\n\n"), Some("text".to_string()));
    assert_eq!(Formater::clean("![a](b)\n\nx"), Some("x".to_string()));
    assert_eq!(Formater::clean(""), Some(String::new()));
}

#[test]
fn spans_of_plain_text() {
    assert_eq!(pieces(&Formater::spans("plain")), expect(&[(StringType::Normal, "plain")]));
    assert_eq!(pieces(&Formater::spans("")), expect(&[(StringType::Normal, "")]));
}

#[test]
fn spans_of_strong_text() {
    assert_eq!(
        pieces(&Formater::spans("a *b* c")),
        expect(&[(StringType::Normal, "a "), (StringType::Strong, "b"), (StringType::Normal, " c")])
    );
    assert_eq!(
        pieces(&Formater::spans("*b")),
        expect(&[(StringType::Normal, ""), (StringType::Strong, "b")])
    );
}

#[test]
fn spans_of_quoted_text_keep_the_marks() {
    assert_eq!(
        pieces(&Formater::spans("he said \"hi\" now")),
        expect(&[
            (StringType::Normal, "he said "),
            (StringType::Quote, "\"hi\""),
            (StringType::Normal, " now"),
        ])
    );
    assert_eq!(
        pieces(&Formater::spans("\u{201C}hi\u{201D}")),
        expect(&[
            (StringType::Normal, ""),
            (StringType::Quote, "\u{201C}hi\u{201D}"),
            (StringType::Normal, ""),
        ])
    );
}

#[test]
fn spans_of_nested_styles() {
    assert_eq!(
        pieces(&Formater::spans("*a \"b\" c*")),
        expect(&[
            (StringType::Normal, ""),
            (StringType::Strong, "a "),
            (StringType::StrongQuote, "\"b\""),
            (StringType::Strong, " c"),
            (StringType::Normal, ""),
        ])
    );
    assert_eq!(
        pieces(&Formater::spans("\"a *b* c\"")),
        expect(&[
            (StringType::Normal, ""),
            (StringType::Quote, "\"a "),
            (StringType::StrongQuote, "b"),
            (StringType::Quote, " c\""),
            (StringType::Normal, ""),
        ])
    );
}

#[test]
fn style_steps() {
    assert_eq!(StringType::Normal.after_star(), StringType::Strong);
    assert_eq!(StringType::Strong.after_star(), StringType::Normal);
    assert_eq!(StringType::Quote.after_star(), StringType::StrongQuote);
    assert_eq!(StringType::StrongQuote.after_star(), StringType::Quote);
    assert_eq!(StringType::Normal.after_quote(), StringType::Quote);
    assert_eq!(StringType::Quote.after_quote(), StringType::Normal);
    assert_eq!(StringType::Strong.after_quote(), StringType::StrongQuote);
    assert_eq!(StringType::StrongQuote.after_quote(), StringType::Strong);
    assert!(StringType::Quote.is_quoted());
    assert!(StringType::StrongQuote.is_quoted());
    assert!(!StringType::Normal.is_quoted());
    assert!(!StringType::Strong.is_quoted());
}

#[test]
fn rich_text_cleans_before_it_cuts() {
    let spans = Formater::rich_text("  ![pic](u) *wave* \"Hi\"\n\n\n\nbye  ").expect("patterns are valid");
    assert_eq!(
        pieces(&spans),
        expect(&[
            (StringType::Normal, ""),
            (StringType::Strong, "wave"),
            (StringType::Normal, " "),
            (StringType::Quote, "\"Hi\""),
            (StringType::Normal, "\n\nbye"),
        ])
    );
}
