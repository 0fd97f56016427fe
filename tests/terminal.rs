use bpaf::doc::{Block, Doc, Token};
use bpaf::manpage::{HelpItem, Info, OptionParser};

#[test]
fn terminal_wraps_at_width() {
    let mut d = Doc::new();
    d.text("aaa bbb ccc");
    assert_eq!(d.render_terminal(3), "aaa\nbbb\nccc");
    assert_eq!(d.render_terminal(80), "aaa bbb ccc");
}

#[test]
fn terminal_bold_literal_and_indented_body() {
    let mut d = Doc::new();
    d.token(Token::BlockStart(Block::ItemTerm));
    d.literal("-v");
    d.token(Token::BlockEnd(Block::ItemTerm));
    d.token(Token::BlockStart(Block::ItemBody));
    d.text("loud");
    d.token(Token::BlockEnd(Block::ItemBody));
    assert_eq!(d.render_terminal(80), "\u{1b}[1m-v\u{1b}[0m\n    loud\n");
}

#[test]
fn terminal_help() {
    let mut usage = Doc::new();
    usage.literal("-d");
    let mut term = Doc::new();
    term.literal("-d");
    let p = OptionParser {
        info: Info { descr: None, header: None, footer: None },
        usage,
        items: vec![HelpItem { term, help: None }],
        commands: Vec::new(),
    };
    assert_eq!(
        p.render_help("app", 80),
        "app\n\u{1b}[1mapp\u{1b}[0m \u{1b}[1m-d\u{1b}[0m\n\u{1b}[1m-d\u{1b}[0m\n    \n"
    );
}
