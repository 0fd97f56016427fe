use bpaf::doc::{Block, Doc, Style, Token};
use bpaf::manpage::{HelpItem, Info, OptionParser};

fn doc_of(s: &str) -> Doc {
    let mut d = Doc::new();
    d.text(s);
    d
}

fn simple_parser() -> OptionParser {
    let mut usage = Doc::new();
    usage.literal("-d");
    let mut term = Doc::new();
    term.literal("-d");
    OptionParser {
        info: Info { descr: Some(doc_of("I am a program")), header: None, footer: None },
        usage,
        items: vec![HelpItem { term, help: Some(doc_of("Unleash the kraken")) }],
        commands: Vec::new(),
    }
}

#[test]
fn markdown_help_layout() {
    let r = simple_parser().render_markdown("simple");
    assert_eq!(
        r,
        "\n# simple\n\nI am a program\n\n**simple** **-d**\n- **-d** — Unleash the kraken\n"
    );
}

#[test]
fn markdown_rendering_is_stable() {
    let p = simple_parser();
    assert_eq!(p.render_markdown("simple"), p.render_markdown("simple"));
    // the same items, split differently over tokens, render the same
    let mut a = Doc::new();
    a.text("ab");
    let mut b = Doc::new();
    b.doc(&a);
    assert_eq!(a.render_markdown(), b.render_markdown());
}

#[test]
fn markdown_headings() {
    let mut d = Doc::new();
    d.token(Token::BlockStart(Block::Section1));
    d.text("Options");
    d.token(Token::BlockEnd(Block::Section1));
    d.token(Token::BlockStart(Block::Section2));
    d.text("More");
    d.token(Token::BlockEnd(Block::Section2));
    d.token(Token::BlockStart(Block::Section3));
    d.text("Most");
    d.token(Token::BlockEnd(Block::Section3));
    assert_eq!(d.render_markdown(), "\n# Options\n\n## More\n\n### Most\n");
}

#[test]
fn markdown_escapes_and_styles() {
    let mut d = Doc::new();
    d.text("a_b*c ");
    d.metavar("FILE");
    d.write_str("", Style::Literal);
    d.write_str("[x]", Style::Muted);
    assert_eq!(d.render_markdown(), "a\\_b\\*c *FILE*\\[x\\]");
}

#[test]
fn markdown_preformatted_is_fenced_and_raw() {
    let mut d = Doc::new();
    d.text("see");
    d.token(Token::BlockStart(Block::Pre));
    d.literal("x*y");
    d.token(Token::BlockEnd(Block::Pre));
    assert_eq!(d.render_markdown(), "see\n```\nx*y\n```\n");
}
