use bpaf::doc::{Block, Doc, Style, Token};
use bpaf::manpage::{HelpItem, HelpSection, Info, OptionParser, Section};
use bpaf::roff::{Font, Roff};

const PREAMBLE: &str = ".ie \\n(.g .ds Aq \\(aq\n.el .ds Aq '\n";
const HELP: &str = "\n.TP\n\\fB\\-h\\fR, \\fB\\-\\-help\\fR\nPrints help information\n.PP\n";

fn doc_of(s: &str) -> Doc {
    let mut d = Doc::new();
    d.text(s);
    d
}

#[test]
fn section_title_is_upper_cased_on_block_end() {
    let mut d = Doc::new();
    d.token(Token::BlockStart(Block::Section1));
    d.text("Name");
    d.token(Token::BlockEnd(Block::Section1));
    let r = d.render_roff(Roff::new());
    assert_eq!(r, format!("{PREAMBLE}.SH NAME\n"));
}

#[test]
fn subsection_title_and_text() {
    let mut d = Doc::new();
    d.token(Token::BlockStart(Block::Section2));
    d.text("more options");
    d.token(Token::BlockEnd(Block::Section2));
    d.text("body");
    let r = d.render_roff(Roff::new());
    assert_eq!(r, format!("{PREAMBLE}.SS \"MORE OPTIONS\"\nbody"));
}

#[test]
fn fonts_follow_styles() {
    let mut d = Doc::new();
    d.literal("-v");
    d.text(" ");
    d.metavar("FILE");
    d.write_str("x", Style::Muted);
    let r = d.render_roff(Roff::new());
    assert_eq!(r, format!("{PREAMBLE}\\fB\\-v\\fR \\fIFILE\\fRx"));
}

#[test]
fn font_from_style() {
    assert_eq!(Font::from(Style::Literal), Font::Bold);
    assert_eq!(Font::from(Style::Emphasis), Font::Roman);
    assert_eq!(Font::from(Style::Metavar), Font::Italic);
    assert_eq!(Font::from(Style::Invalid), Font::Italic);
    assert_eq!(Font::from(Style::Text), Font::Roman);
    assert_eq!(Font::from(Style::Muted), Font::Roman);
}

#[test]
fn emphasis_opens_a_subsection() {
    let mut d = Doc::new();
    d.write_str("Options", Style::Emphasis);
    let r = d.render_roff(Roff::new());
    assert_eq!(r, format!("{PREAMBLE}.SS\nOptions"));
}

#[test]
fn control_characters_are_escaped() {
    let mut d = Doc::new();
    d.text(".start it's a\\b");
    let r = d.render_roff(Roff::new());
    assert_eq!(r, format!("{PREAMBLE}\\&.start it\\*(Aqs a\\eb"));
}

#[test]
fn numbered_and_bulleted_lists() {
    let mut d = Doc::new();
    d.token(Token::BlockStart(Block::NumberedList));
    for _ in 0..2 {
        d.token(Token::BlockStart(Block::ItemBody));
        d.text("x");
        d.token(Token::BlockEnd(Block::ItemBody));
    }
    d.token(Token::BlockEnd(Block::NumberedList));
    d.token(Token::BlockStart(Block::UnnumberedList));
    d.token(Token::BlockStart(Block::ItemBody));
    d.text("y");
    d.token(Token::BlockEnd(Block::ItemBody));
    d.token(Token::BlockEnd(Block::UnnumberedList));
    let r = d.render_roff(Roff::new());
    assert_eq!(r, format!("{PREAMBLE}1. x\n.PP\n2. x\n.PP\n* y\n.PP\n"));
}

#[test]
fn numbered_list_counts_past_nine() {
    let mut d = Doc::new();
    d.token(Token::BlockStart(Block::NumberedList));
    for _ in 0..10 {
        d.token(Token::BlockStart(Block::ItemBody));
        d.token(Token::BlockEnd(Block::ItemBody));
    }
    let r = d.render_roff(Roff::new());
    assert!(r.ends_with("10. \n.PP\n"));
}

#[test]
fn preformatted_block() {
    let mut d = Doc::new();
    d.token(Token::BlockStart(Block::Pre));
    d.text("a\n.b");
    d.token(Token::BlockEnd(Block::Pre));
    let r = d.render_roff(Roff::new());
    assert_eq!(r, format!("{PREAMBLE}.nf\na\n\\&.b\n.fi\n"));
}

#[test]
fn term_joins_lines() {
    let mut d = Doc::new();
    d.token(Token::BlockStart(Block::ItemTerm));
    d.text("a\nb");
    d.token(Token::BlockEnd(Block::ItemTerm));
    d.token(Token::BlockStart(Block::ItemBody));
    d.text("c\nd");
    d.token(Token::BlockEnd(Block::ItemBody));
    let r = d.render_roff(Roff::new());
    assert_eq!(r, format!("{PREAMBLE}.TP\na b\nc\nd\n.PP\n"));
}

#[test]
fn section_codes() {
    assert_eq!(Section::General.as_str(), "1");
    assert_eq!(Section::SystemCall.as_str(), "2");
    assert_eq!(Section::Sysadmin.as_str(), "8");
    assert_eq!(Section::Custom("3p").as_str(), "3p");
}

#[test]
fn manpage_title_line_defaults() {
    let p = OptionParser {
        info: Info { descr: None, header: None, footer: None },
        usage: Doc::new(),
        items: Vec::new(),
        commands: Vec::new(),
    };
    let r = p.render_manpage("app", Section::General, None, None, None);
    assert_eq!(
        r,
        format!("{PREAMBLE}.TH app 1 \\- \\- \"\"\n.SH SYNOPSIS\n\\fBapp\\fR {HELP}")
    );
}

#[test]
fn manpage_full() {
    let mut usage = Doc::new();
    usage.literal("-d");
    let mut term = Doc::new();
    term.literal("-d");
    let p = OptionParser {
        info: Info {
            descr: Some(doc_of("does things")),
            header: Some(doc_of("Head")),
            footer: Some(doc_of("Foot")),
        },
        usage,
        items: vec![HelpItem { term, help: Some(doc_of("Unleash the kraken")) }],
        commands: Vec::new(),
    };
    let r = p.render_manpage(
        "simple",
        Section::Custom("1x"),
        Some("2024-01-01"),
        Some("Acme"),
        Some("Simple app"),
    );
    assert_eq!(
        r,
        format!(
            "{PREAMBLE}.TH simple 1x 2024\\-01\\-01 Acme \"Simple app\"\n\
             .SH NAME\nsimple \\- does things\n\
             .SH SYNOPSIS\n\\fBsimple\\fR \\fB\\-d\\fR\n\
             .PP\nHead\n\
             .TP\n\\fB\\-d\\fR\nUnleash the kraken\n.PP\n\
             .TP\n\\fB\\-h\\fR, \\fB\\-\\-help\\fR\nPrints help information\n.PP\n\
             .PP\nFoot"
        )
    );
}

#[test]
fn manpage_with_commands() {
    let p = OptionParser {
        info: Info { descr: Some(doc_of("Options")), header: None, footer: None },
        usage: Doc::new(),
        items: Vec::new(),
        commands: vec![HelpSection {
            path: vec!["alpha".to_string()],
            info: Info { descr: Some(doc_of("Alpha")), header: None, footer: None },
            usage: Doc::new(),
            items: Vec::new(),
        }],
    };
    let r = p.render_manpage("options", Section::General, None, None, None);
    assert_eq!(
        r,
        format!(
            "{PREAMBLE}.TH options 1 \\- \\- \"\"\n\
             .PP\n.SH SYNOPSIS\n.nf\n\\fBoptions\\fR \n\\fBoptions\\fR \\fBalpha\\fR \n.fi\n\
             .SH OPTIONS\n.SH NAME\noptions \\- Options\n.SH SYNOPSIS\n\\fBoptions\\fR {HELP}\
             .SH \"OPTIONS ALPHA\"\n.SH NAME\noptions \\- Alpha\n.SH SYNOPSIS\n\\fBoptions\\fR \\fBalpha\\fR {HELP}"
        )
    );
}
