//! Rendering a document, and a program's help, as a manual page.
use vstd::prelude::*;
use crate::doc::{
    Block, Doc, Item, Style, Token, chars_of, extend_chars, items_of, lemma_text_len_prefix, slice_chars,
    string_of, text_len,
};
use crate::markdown::markdown_of;
use crate::terminal::terminal_of;
use crate::roff::{Font, Roff, control_line, line_opened, preamble, text_in};

verus! {

/// Manual page section
#[derive(Clone, Copy, Debug)]
pub enum Section<'a> {
    /// General commands
    General,
    /// System calls
    SystemCall,
    /// Library functions such as C standard library functions
    LibraryFunction,
    /// Special files (usually devices in /dev) and drivers
    SpecialFile,
    /// File formats and conventions
    FileFormat,
    /// Games and screensavers
    Game,
    /// Miscellaneous
    Misc,
    /// System administration commands and daemons
    Sysadmin,
    /// Custom section
    Custom(&'a str),
}

/// The code of a section, as the title line gives it.
pub open spec fn section_code(s: Section) -> Seq<char> {
    match s {
        Section::General => seq!['1'],
        Section::SystemCall => seq!['2'],
        Section::LibraryFunction => seq!['3'],
        Section::SpecialFile => seq!['4'],
        Section::FileFormat => seq!['5'],
        Section::Game => seq!['6'],
        Section::Misc => seq!['7'],
        Section::Sysadmin => seq!['8'],
        Section::Custom(c) => c@,
    }
}

impl<'a> Section<'a> {
    /// The code of the section: a digit, or the custom text.
    pub fn as_str(&self) -> (r: &'a str)
        ensures
            r@ == section_code(*self),
    {
        proof {
            reveal_strlit("1");
            reveal_strlit("2");
            reveal_strlit("3");
            reveal_strlit("4");
            reveal_strlit("5");
            reveal_strlit("6");
            reveal_strlit("7");
            reveal_strlit("8");
        }
        match self {
            Section::General => "1",
            Section::SystemCall => "2",
            Section::LibraryFunction => "3",
            Section::SpecialFile => "4",
            Section::FileFormat => "5",
            Section::Game => "6",
            Section::Misc => "7",
            Section::Sysadmin => "8",
            Section::Custom(s) => s,
        }
    }
}

/// Which kind of list the items being written belong to; a numbered list
/// carries the number of its next item.
#[derive(Clone, Copy, Debug, PartialEq, Eq, Structural)]
pub enum ListKind {
    Def,
    Ol(usize),
    Ul,
}

/// The font in which text of each style is set.
pub open spec fn font_of(style: Style) -> Font {
    match style {
        Style::Text => Font::Roman,
        Style::Emphasis => Font::Roman,
        Style::Literal => Font::Bold,
        Style::Metavar => Font::Italic,
        Style::Invalid => Font::Italic,
        Style::Muted => Font::Roman,
    }
}

impl From<Style> for Font {
    fn from(value: Style) -> (r: Font) {
        match value {
            Style::Text => Font::Roman,
            Style::Emphasis => Font::Roman,
            Style::Literal => Font::Bold,
            Style::Metavar => Font::Italic,
            Style::Invalid => Font::Italic,
            Style::Muted => Font::Roman,
        }
    }
}

impl vstd::std_specs::convert::FromSpecImpl<Style> for Font {
    open spec fn obeys_from_spec() -> bool {
        true
    }

    open spec fn from_spec(v: Style) -> Font {
        font_of(v)
    }
}

/// What `str::to_uppercase` makes of a text.
pub uninterp spec fn upper_of(s: Seq<char>) -> Seq<char>;

/// Relies on str::to_uppercase: the upper case of each character, which
/// depends on the characters alone.
#[verifier::external_body]
fn uppercase(s: &Vec<char>) -> (r: Vec<char>)
    ensures
        r@ == upper_of(s@),
{
    let t: String = s.iter().collect();
    t.to_uppercase().chars().collect()
}

/// The decimal digit for `d`.
pub open spec fn digit(d: nat) -> char {
    seq!['0', '1', '2', '3', '4', '5', '6', '7', '8', '9'][d as int]
}

/// The decimal numeral of `n`, without leading zeros.
pub open spec fn decimal(n: nat) -> Seq<char>
    decreases n,
{
    if n < 10 {
        seq![digit(n)]
    } else {
        decimal(n / 10).push(digit(n % 10))
    }
}

fn decimal_chars(n: usize) -> (r: Vec<char>)
    ensures
        r@ == decimal(n as nat),
    decreases n,
{
    let digits = ['0', '1', '2', '3', '4', '5', '6', '7', '8', '9'];
    proof {
        assert(digits@ =~= seq!['0', '1', '2', '3', '4', '5', '6', '7', '8', '9']);
    }
    if n < 10 {
        let mut r: Vec<char> = Vec::new();
        r.push(digits[n]);
        assert(r@ =~= decimal(n as nat));
        r
    } else {
        let mut r = decimal_chars(n / 10);
        r.push(digits[n % 10]);
        r
    }
}

/// The state of a rendering: the page written so far, whether newlines are
/// joined, the section title being collected, and the current list.
pub struct RoffState {
    pub out: Seq<char>,
    pub strip: bool,
    pub capture: Seq<char>,
    pub capturing: bool,
    pub kind: ListKind,
}

/// The next number after `ix`, where numbering stops at the largest `usize`.
pub open spec fn next_number(ix: usize) -> usize {
    if ix < usize::MAX {
        (ix + 1) as usize
    } else {
        ix
    }
}

/// What one item of a document does to the page.
/// - Text inside a section title is collected; elsewhere it is written in
///   the font of its style, and emphasised text opens a subsection first.
/// - A section title is written, upper-cased, as `.SH` (level one) or `.SS`
///   when its block ends.
/// - A term opens `.TP` and joins its lines; a body starts with its number
///   or bullet and ends with `.PP`; a list sets the kind of its items.
/// - A block opens `.PP`; preformatted text is framed by `.nf` and `.fi`.
pub open spec fn roff_step(st: RoffState, it: Item) -> RoffState {
    match it {
        Item::Text(s, style) => if st.capturing {
            RoffState { capture: st.capture + s, ..st }
        } else {
            let o = if style == Style::Emphasis {
                control_line(st.out, "SS"@, Seq::empty())
            } else {
                st.out
            };
            RoffState { out: text_in(o, font_of(style), s, st.strip), ..st }
        },
        Item::Start(b) => match b {
            Block::Section1 | Block::Section2 | Block::Section3 => RoffState {
                capturing: true,
                ..st
            },
            Block::ItemTerm => RoffState {
                out: control_line(st.out, "TP"@, Seq::empty()),
                strip: true,
                ..st
            },
            Block::ItemBody => match st.kind {
                ListKind::Def => st,
                ListKind::Ol(ix) => RoffState {
                    out: text_in(st.out, Font::Roman, decimal(ix as nat) + seq!['.', ' '], st.strip),
                    kind: ListKind::Ol(next_number(ix)),
                    ..st
                },
                ListKind::Ul => RoffState {
                    out: text_in(st.out, Font::Roman, seq!['*', ' '], st.strip),
                    ..st
                },
            },
            Block::DefinitionList => RoffState { kind: ListKind::Def, ..st },
            Block::NumberedList => RoffState { kind: ListKind::Ol(1), ..st },
            Block::UnnumberedList => RoffState { kind: ListKind::Ul, ..st },
            Block::Block => RoffState { out: control_line(st.out, "PP"@, Seq::empty()), ..st },
            Block::Pre => RoffState { out: control_line(st.out, "nf"@, Seq::empty()), ..st },
            Block::InlineBlock | Block::TermRef => st,
        },
        Item::End(b) => match b {
            Block::Section1 => RoffState {
                out: control_line(st.out, "SH"@, seq![upper_of(st.capture)]),
                capture: Seq::empty(),
                capturing: false,
                ..st
            },
            Block::Section2 | Block::Section3 => RoffState {
                out: control_line(st.out, "SS"@, seq![upper_of(st.capture)]),
                capture: Seq::empty(),
                capturing: false,
                ..st
            },
            Block::ItemTerm => RoffState { out: line_opened(st.out), strip: false, ..st },
            Block::ItemBody => RoffState {
                out: control_line(st.out, "PP"@, Seq::empty()),
                strip: false,
                ..st
            },
            Block::Pre => RoffState { out: control_line(st.out, "fi"@, Seq::empty()), ..st },
            _ => st,
        },
    }
}

/// The state after the items `its`, one after the other, from `st`.
pub open spec fn roff_fold(its: Seq<Item>, st: RoffState) -> RoffState
    decreases its.len(),
{
    if its.len() == 0 {
        st
    } else {
        roff_step(roff_fold(its.drop_last(), st), its.last())
    }
}

/// The page that the items `its` make, written after `out` on a writer
/// that joins newlines as `strip` says.
pub open spec fn roff_page(its: Seq<Item>, out: Seq<char>, strip: bool) -> Seq<char> {
    preamble() + roff_fold(
        its,
        RoffState {
            out,
            strip,
            capture: Seq::empty(),
            capturing: false,
            kind: ListKind::Def,
        },
    ).out
}

impl Doc {
    /// Renders the document as a manual page, after what `roff` holds.
    pub fn render_roff(&self, roff: Roff) -> (r: String)
        requires
            self.wf(),
        ensures
            r@ == roff_page(self.items(), roff.out@, roff.strip_newlines),
    {
        let mut roff = roff;
        let mut capture: Vec<char> = Vec::new();
        let mut capturing = false;
        let mut kind = ListKind::Def;
        let ghost st0 = RoffState {
            out: roff.out@,
            strip: roff.strip_newlines,
            capture: Seq::empty(),
            capturing: false,
            kind: ListKind::Def,
        };
        let plen = self.payload.len();
        let mut byte_pos: usize = 0;
        let mut i: usize = 0;
        while i < self.tokens.len()
            invariant
                self.wf(),
                i <= self.tokens@.len(),
                plen == self.payload@.len(),
                byte_pos == text_len(self.tokens@.take(i as int)),
                roff_fold(items_of(self.tokens@.take(i as int), self.payload@), st0) == (RoffState {
                    out: roff.out@,
                    strip: roff.strip_newlines,
                    capture: capture@,
                    capturing,
                    kind,
                }),
            decreases self.tokens@.len() - i,
        {
            let ghost pre = self.tokens@.take(i as int);
            let ghost its = items_of(pre, self.payload@);
            proof {
                assert(self.tokens@.take(i + 1).drop_last() =~= pre);
                lemma_text_len_prefix(self.tokens@, i + 1);
                assert(self.tokens@.take(i + 1).last() == self.tokens@[i as int]);
            }
            let ghost item = match self.tokens@[i as int] {
                Token::Text { chars, style } => Item::Text(
                    self.payload@.subrange(byte_pos as int, byte_pos + chars),
                    style,
                ),
                Token::BlockStart(b) => Item::Start(b),
                Token::BlockEnd(b) => Item::End(b),
            };
            let ghost before = RoffState {
                out: roff.out@,
                strip: roff.strip_newlines,
                capture: capture@,
                capturing,
                kind,
            };
            proof {
                assert(items_of(self.tokens@.take(i + 1), self.payload@) == its.push(item));
                assert(its.push(item).drop_last() =~= its);
                if let Token::Text { chars, .. } = self.tokens@[i as int] {
                    assert(text_len(self.tokens@.take(i + 1)) == byte_pos + chars);
                }
            }
            match self.tokens[i] {
                Token::Text { chars, style } => {
                    let input = slice_chars(&self.payload, byte_pos, byte_pos + chars);
                    byte_pos += chars;
                    if capturing {
                        extend_chars(&mut capture, &input);
                    } else {
                        if style == Style::Emphasis {
                            roff.control0("SS");
                        }
                        roff.text(Font::from(style), &input);
                    }
                },
                Token::BlockStart(block) => {
                    match block {
                        Block::Section1 | Block::Section2 | Block::Section3 => {
                            capturing = true;
                        },
                        Block::ItemTerm => {
                            roff.control0("TP");
                            roff.strip_newlines(true);
                        },
                        Block::ItemBody => {
                            match kind {
                                ListKind::Def => {},
                                ListKind::Ol(ix) => {
                                    let mut num = decimal_chars(ix);
                                    num.push('.');
                                    num.push(' ');
                                    assert(num@ =~= decimal(ix as nat) + seq!['.', ' ']);
                                    roff.text(Font::Roman, &num);
                                    if ix < usize::MAX {
                                        kind = ListKind::Ol(ix + 1);
                                    }
                                },
                                ListKind::Ul => {
                                    let mut bullet: Vec<char> = Vec::new();
                                    bullet.push('*');
                                    bullet.push(' ');
                                    roff.text(Font::Roman, &bullet);
                                    assert(bullet@ =~= seq!['*', ' ']);
                                },
                            }
                        },
                        Block::DefinitionList => {
                            kind = ListKind::Def;
                        },
                        Block::NumberedList => {
                            kind = ListKind::Ol(1);
                        },
                        Block::UnnumberedList => {
                            kind = ListKind::Ul;
                        },
                        Block::Block => {
                            roff.control0("PP");
                        },
                        Block::Pre => {
                            roff.control0("nf");
                        },
                        Block::InlineBlock | Block::TermRef => {},
                    }
                },
                Token::BlockEnd(block) => {
                    match block {
                        Block::Section1 => {
                            capturing = false;
                            let title = uppercase(&capture);
                            let mut args: Vec<Vec<char>> = Vec::new();
                            args.push(title);
                            assert(args.deep_view()[0] == args@[0]@);
                            assert(args.deep_view() =~= seq![upper_of(capture@)]);
                            roff.control("SH", &args);
                            capture = Vec::new();
                        },
                        Block::Section2 | Block::Section3 => {
                            capturing = false;
                            let title = uppercase(&capture);
                            let mut args: Vec<Vec<char>> = Vec::new();
                            args.push(title);
                            assert(args.deep_view()[0] == args@[0]@);
                            assert(args.deep_view() =~= seq![upper_of(capture@)]);
                            roff.control("SS", &args);
                            capture = Vec::new();
                        },
                        Block::ItemTerm => {
                            roff.line_break();
                            roff.strip_newlines(false);
                        },
                        Block::ItemBody => {
                            roff.control0("PP");
                            roff.strip_newlines(false);
                        },
                        Block::Pre => {
                            roff.control0("fi");
                        },
                        _ => {},
                    }
                },
            }
            assert(roff_step(before, item) == (RoffState {
                out: roff.out@,
                strip: roff.strip_newlines,
                capture: capture@,
                capturing,
                kind,
            }));
            i += 1;
        }
        proof {
            assert(self.tokens@.take(i as int) =~= self.tokens@);
        }
        let mut page = chars_of(".ie \\n(.g .ds Aq \\(aq\n.el .ds Aq '\n");
        extend_chars(&mut page, &roff.out);
        string_of(&page)
    }
}

/// One entry of a help listing: the term, such as `-v, --verbose`, and
/// what it does.
pub struct HelpItem {
    pub term: Doc,
    pub help: Option<Doc>,
}

/// What a program says of itself around its options.
pub struct Info {
    /// One line on what the program is.
    pub descr: Option<Doc>,
    /// Text shown before the options.
    pub header: Option<Doc>,
    /// Text shown after the options.
    pub footer: Option<Doc>,
}

/// The help of a command of a program: the words that name it after the
/// program's name, and what it says of itself, its usage and its options.
pub struct HelpSection {
    pub path: Vec<String>,
    pub info: Info,
    pub usage: Doc,
    pub items: Vec<HelpItem>,
}

/// A program's help: its description, its usage line and its options, and
/// the help of each of its commands, in the order they are declared.
pub struct OptionParser {
    pub info: Info,
    pub usage: Doc,
    pub items: Vec<HelpItem>,
    pub commands: Vec<HelpSection>,
}

pub open spec fn opt_wf(d: Option<Doc>) -> bool {
    match d {
        Some(x) => x.wf(),
        None => true,
    }
}

pub open spec fn opt_items(d: Option<Doc>) -> Seq<Item> {
    match d {
        Some(x) => x.items(),
        None => Seq::empty(),
    }
}

/// The items of a block holding `d`, or nothing where there is no `d`.
pub open spec fn block_items(d: Option<Doc>) -> Seq<Item> {
    match d {
        Some(x) => seq![Item::Start(Block::Block)] + x.items() + seq![Item::End(Block::Block)],
        None => Seq::empty(),
    }
}

/// The items of one help entry: its term, then its body.
pub open spec fn entry_items(h: HelpItem) -> Seq<Item> {
    seq![Item::Start(Block::ItemTerm)] + h.term.items() + seq![
        Item::End(Block::ItemTerm),
        Item::Start(Block::ItemBody),
    ] + opt_items(h.help) + seq![Item::End(Block::ItemBody)]
}

/// The entries `hs`, one after the other.
pub open spec fn entries_items(hs: Seq<HelpItem>) -> Seq<Item>
    decreases hs.len(),
{
    if hs.len() == 0 {
        Seq::empty()
    } else {
        entries_items(hs.drop_last()) + entry_items(hs.last())
    }
}

/// A section title, as the items of a level-one section block.
pub open spec fn title_items(t: Seq<char>) -> Seq<Item> {
    seq![Item::Start(Block::Section1), Item::Text(t, Style::Text), Item::End(Block::Section1)]
}

/// The arguments of the title line.
pub open spec fn title_args_spec(
    app: Seq<char>,
    section: Section,
    last_update_date: Option<&str>,
    vendor: Option<&str>,
    application_title: Option<&str>,
) -> Seq<Seq<char>> {
    seq![
        app,
        section_code(section),
        match last_update_date {
            Some(d) => d@,
            None => "-"@,
        },
        match vendor {
            Some(v) => v@,
            None => "-"@,
        },
        match application_title {
            Some(t) => t@,
            None => ""@,
        },
    ]
}

fn title_args(
    app: &str,
    section: Section,
    last_update_date: Option<&str>,
    vendor: Option<&str>,
    application_title: Option<&str>,
) -> (args: Vec<Vec<char>>)
    ensures
        args.deep_view() == title_args_spec(app@, section, last_update_date, vendor, application_title),
{
        let mut args: Vec<Vec<char>> = Vec::new();
        args.push(chars_of(app));
        args.push(chars_of(section.as_str()));
        match last_update_date {
            Some(d) => args.push(chars_of(d)),
            None => args.push(chars_of("-")),
        }
        match vendor {
            Some(v) => args.push(chars_of(v)),
            None => args.push(chars_of("-")),
        }
        match application_title {
            Some(t) => args.push(chars_of(t)),
            None => args.push(chars_of("")),
        }
        proof {
            assert(args.deep_view()[0] == args@[0]@);
            assert(args.deep_view()[1] == args@[1]@);
            assert(args.deep_view()[2] == args@[2]@);
            assert(args.deep_view()[3] == args@[3]@);
            assert(args.deep_view()[4] == args@[4]@);
        }
        proof {
            assert(args.deep_view() =~= title_args_spec(
                app@,
                section,
                last_update_date,
                vendor,
                application_title,
            ));
        }
    args
}

/// Writes a block holding `d`, where there is a `d`.
fn write_block(buf: &mut Doc, d: &Option<Doc>)
    requires
        old(buf).wf(),
        opt_wf(*d),
    ensures
        final(buf).wf(),
        final(buf).items() == old(buf).items() + block_items(*d),
{
    if let Some(t) = d {
        buf.token(Token::BlockStart(Block::Block));
        buf.doc(t);
        buf.token(Token::BlockEnd(Block::Block));
        assert(buf.items() =~= old(buf).items() + block_items(*d));
    } else {
        assert(buf.items() =~= old(buf).items() + block_items(*d));
    }
}

pub open spec fn info_wf(info: Info) -> bool {
    &&& opt_wf(info.descr)
    &&& opt_wf(info.header)
    &&& opt_wf(info.footer)
}

pub open spec fn items_wf(items: Seq<HelpItem>) -> bool {
    forall|i: int| 0 <= i < items.len() ==> (#[trigger] items[i]).term.wf() && opt_wf(items[i].help)
}

pub open spec fn section_wf(c: HelpSection) -> bool {
    info_wf(c.info) && c.usage.wf() && items_wf(c.items@)
}

/// The characters of each word.
pub open spec fn words_view(ws: Seq<String>) -> Seq<Seq<char>> {
    Seq::new(ws.len(), |i: int| ws[i]@)
}

/// Each word as a literal, followed by a space.
pub open spec fn words_items(ws: Seq<Seq<char>>) -> Seq<Item>
    decreases ws.len(),
{
    if ws.len() == 0 {
        Seq::empty()
    } else {
        words_items(ws.drop_last()) + seq![Item::Text(ws.last(), Style::Literal), Item::Text(" "@, Style::Text)]
    }
}

/// Each word as a literal, after a space.
pub open spec fn spaced_items(ws: Seq<Seq<char>>) -> Seq<Item>
    decreases ws.len(),
{
    if ws.len() == 0 {
        Seq::empty()
    } else {
        spaced_items(ws.drop_last()) + seq![Item::Text(" "@, Style::Text), Item::Text(ws.last(), Style::Literal)]
    }
}

/// The name line, where there is a description.
pub open spec fn name_items(app: Seq<char>, descr: Option<Doc>) -> Seq<Item> {
    match descr {
        Some(d) => title_items("NAME"@) + seq![
            Item::Text(app, Style::Text),
            Item::Text(" - "@, Style::Text),
        ] + d.items(),
        None => Seq::empty(),
    }
}

/// The entry of the help flag that every program and command has.
pub open spec fn help_entry_items() -> Seq<Item> {
    seq![
        Item::Start(Block::ItemTerm),
        Item::Text("-h"@, Style::Literal),
        Item::Text(", "@, Style::Text),
        Item::Text("--help"@, Style::Literal),
        Item::End(Block::ItemTerm),
        Item::Start(Block::ItemBody),
        Item::Text("Prints help information"@, Style::Text),
        Item::End(Block::ItemBody),
    ]
}

/// The section of one command on a manual page: where the program has
/// commands, a heading with its full name; then the name line, the
/// synopsis (the program's name and the command's words, then the usage),
/// the header, the options followed by the help entry, and the footer.
pub open spec fn section_items(
    app: Seq<char>,
    path: Seq<Seq<char>>,
    info: Info,
    usage: Doc,
    items: Seq<HelpItem>,
    multi: bool,
) -> Seq<Item> {
    heading_items(app, path, multi) + name_items(app, info.descr) + synopsis_items(app, path, usage)
        + block_items(info.header) + options_items(items) + block_items(info.footer)
}

/// The heading of a command's section: the program's name and the
/// command's words, where the program has commands.
pub open spec fn heading_items(app: Seq<char>, path: Seq<Seq<char>>, multi: bool) -> Seq<Item> {
    if multi {
        seq![Item::Start(Block::Section1), Item::Text(app, Style::Literal)] + spaced_items(path)
            + seq![Item::End(Block::Section1)]
    } else {
        Seq::empty()
    }
}

/// The synopsis: the program's name and the command's words, then the usage.
pub open spec fn synopsis_items(app: Seq<char>, path: Seq<Seq<char>>, usage: Doc) -> Seq<Item> {
    title_items("SYNOPSIS"@) + seq![Item::Text(app, Style::Literal), Item::Text(" "@, Style::Text)]
        + words_items(path) + usage.items()
}

/// The options, then the help entry, as a definition list.
pub open spec fn options_items(items: Seq<HelpItem>) -> Seq<Item> {
    seq![Item::Start(Block::DefinitionList)] + entries_items(items) + help_entry_items() + seq![
        Item::End(Block::DefinitionList),
    ]
}

/// The sections of the commands `cs`, one after the other.
pub open spec fn commands_items(app: Seq<char>, cs: Seq<HelpSection>) -> Seq<Item>
    decreases cs.len(),
{
    if cs.len() == 0 {
        Seq::empty()
    } else {
        commands_items(app, cs.drop_last()) + section_items(
            app,
            words_view(cs.last().path@),
            cs.last().info,
            cs.last().usage,
            cs.last().items@,
            true,
        )
    }
}

/// One line of the overview: the program's name and the command's words,
/// then its usage.
pub open spec fn overview_line(app: Seq<char>, path: Seq<Seq<char>>, usage: Doc) -> Seq<Item> {
    seq![Item::Text(app, Style::Literal), Item::Text(" "@, Style::Text)] + words_items(path)
        + usage.items() + seq![Item::Text("\n"@, Style::Text)]
}

/// The overview lines of the commands `cs`, one after the other.
pub open spec fn overview_lines(app: Seq<char>, cs: Seq<HelpSection>) -> Seq<Item>
    decreases cs.len(),
{
    if cs.len() == 0 {
        Seq::empty()
    } else {
        overview_lines(app, cs.drop_last()) + overview_line(app, words_view(cs.last().path@), cs.last().usage)
    }
}

/// Writes each word as a literal, followed by a space.
fn write_words(buf: &mut Doc, ws: &Vec<String>)
    requires
        old(buf).wf(),
    ensures
        final(buf).wf(),
        final(buf).items() == old(buf).items() + words_items(words_view(ws@)),
{
    let mut i: usize = 0;
    while i < ws.len()
        invariant
            buf.wf(),
            i <= ws@.len(),
            buf.items() == old(buf).items() + words_items(words_view(ws@).take(i as int)),
        decreases ws@.len() - i,
    {
        proof {
            assert(words_view(ws@).take(i + 1).drop_last() =~= words_view(ws@).take(i as int));
        }
        buf.literal(ws[i].as_str());
        buf.text(" ");
        i += 1;
        assert(buf.items() =~= old(buf).items() + words_items(words_view(ws@).take(i as int)));
    }
    assert(words_view(ws@).take(i as int) =~= words_view(ws@));
}

/// Writes each word as a literal, after a space.
fn write_spaced(buf: &mut Doc, ws: &Vec<String>)
    requires
        old(buf).wf(),
    ensures
        final(buf).wf(),
        final(buf).items() == old(buf).items() + spaced_items(words_view(ws@)),
{
    let mut i: usize = 0;
    while i < ws.len()
        invariant
            buf.wf(),
            i <= ws@.len(),
            buf.items() == old(buf).items() + spaced_items(words_view(ws@).take(i as int)),
        decreases ws@.len() - i,
    {
        proof {
            assert(words_view(ws@).take(i + 1).drop_last() =~= words_view(ws@).take(i as int));
        }
        buf.text(" ");
        buf.literal(ws[i].as_str());
        i += 1;
        assert(buf.items() =~= old(buf).items() + spaced_items(words_view(ws@).take(i as int)));
    }
    assert(words_view(ws@).take(i as int) =~= words_view(ws@));
}

/// Writes the name line, where there is a description.
fn write_name(buf: &mut Doc, app: &str, descr: &Option<Doc>)
    requires
        old(buf).wf(),
        opt_wf(*descr),
    ensures
        final(buf).wf(),
        final(buf).items() == old(buf).items() + name_items(app@, *descr),
{
    if let Some(d) = descr {
        buf.token(Token::BlockStart(Block::Section1));
        buf.text("NAME");
        buf.token(Token::BlockEnd(Block::Section1));
        buf.text(app);
        buf.text(" - ");
        buf.doc(d);
    }
    assert(buf.items() =~= old(buf).items() + name_items(app@, *descr));
}

/// Writes the synopsis: the program's name and the command's words, then the usage.
fn write_synopsis(buf: &mut Doc, app: &str, path: &Vec<String>, usage: &Doc)
    requires
        old(buf).wf(),
        usage.wf(),
    ensures
        final(buf).wf(),
        final(buf).items() == old(buf).items() + synopsis_items(app@, words_view(path@), *usage),
{
    buf.token(Token::BlockStart(Block::Section1));
    buf.text("SYNOPSIS");
    buf.token(Token::BlockEnd(Block::Section1));
    buf.literal(app);
    buf.text(" ");
    let ghost mid = buf.items();
    write_words(buf, path);
    buf.doc(usage);
    assert(mid =~= old(buf).items() + title_items("SYNOPSIS"@) + seq![
        Item::Text(app@, Style::Literal),
        Item::Text(" "@, Style::Text),
    ]);
    assert(buf.items() =~= old(buf).items() + synopsis_items(app@, words_view(path@), *usage));
}

/// Writes the options and the help entry as a definition list.
fn write_man_options(buf: &mut Doc, items: &Vec<HelpItem>)
    requires
        old(buf).wf(),
        items_wf(items@),
    ensures
        final(buf).wf(),
        final(buf).items() == old(buf).items() + options_items(items@),
{
    buf.token(Token::BlockStart(Block::DefinitionList));
    let ghost start = buf.items();
    let mut i: usize = 0;
    assert(entries_items(items@.take(0)) =~= Seq::<Item>::empty());
    assert(start + Seq::<Item>::empty() =~= start);
    while i < items.len()
        invariant
            items_wf(items@),
            buf.wf(),
            i <= items@.len(),
            buf.items() == start + entries_items(items@.take(i as int)),
        decreases items@.len() - i,
    {
        let h = &items[i];
        let ghost before = buf.items();
        buf.token(Token::BlockStart(Block::ItemTerm));
        buf.doc(&h.term);
        buf.token(Token::BlockEnd(Block::ItemTerm));
        buf.token(Token::BlockStart(Block::ItemBody));
        if let Some(help) = &h.help {
            buf.doc(help);
        }
        buf.token(Token::BlockEnd(Block::ItemBody));
        proof {
            assert(buf.items() =~= before + entry_items(*h));
            assert(items@.take(i + 1).drop_last() =~= items@.take(i as int));
            assert(items@.take(i + 1).last() == *h);
            assert(buf.items() =~= start + entries_items(items@.take(i + 1)));
        }
        i += 1;
    }
    assert(items@.take(i as int) =~= items@);
    let ghost listed = buf.items();
    buf.token(Token::BlockStart(Block::ItemTerm));
    buf.literal("-h");
    buf.text(", ");
    buf.literal("--help");
    buf.token(Token::BlockEnd(Block::ItemTerm));
    buf.token(Token::BlockStart(Block::ItemBody));
    buf.text("Prints help information");
    buf.token(Token::BlockEnd(Block::ItemBody));
    assert(buf.items() =~= listed + help_entry_items());
    buf.token(Token::BlockEnd(Block::DefinitionList));
    assert(buf.items() =~= old(buf).items() + options_items(items@));
}

/// Writes the heading of a command's section, where the program has commands.
fn write_heading(buf: &mut Doc, app: &str, path: &Vec<String>, multi: bool)
    requires
        old(buf).wf(),
    ensures
        final(buf).wf(),
        final(buf).items() == old(buf).items() + heading_items(app@, words_view(path@), multi),
{
    if multi {
        buf.token(Token::BlockStart(Block::Section1));
        buf.literal(app);
        write_spaced(buf, path);
        buf.token(Token::BlockEnd(Block::Section1));
    }
    assert(buf.items() =~= old(buf).items() + heading_items(app@, words_view(path@), multi));
}

/// Writes the section of one command of the manual page.
#[verifier::rlimit(40)]
fn write_section(
    buf: &mut Doc,
    app: &str,
    path: &Vec<String>,
    info: &Info,
    usage: &Doc,
    items: &Vec<HelpItem>,
    multi: bool,
)
    requires
        old(buf).wf(),
        info_wf(*info),
        usage.wf(),
        items_wf(items@),
    ensures
        final(buf).wf(),
        final(buf).items() == old(buf).items() + section_items(
            app@,
            words_view(path@),
            *info,
            *usage,
            items@,
            multi,
        ),
{
    write_heading(buf, app, path, multi);
    let ghost a = buf.items();
    write_name(buf, app, &info.descr);
    let ghost b = buf.items();
    write_synopsis(buf, app, path, usage);
    let ghost c = buf.items();
    write_block(buf, &info.header);
    let ghost d = buf.items();
    write_man_options(buf, items);
    let ghost e = buf.items();
    write_block(buf, &info.footer);
    proof {
        let o = old(buf).items();
        let h = heading_items(app@, words_view(path@), multi);
        let n = name_items(app@, info.descr);
        let y = synopsis_items(app@, words_view(path@), *usage);
        let hd = block_items(info.header);
        let op = options_items(items@);
        let ft = block_items(info.footer);
        assert(b =~= o + (h + n));
        assert(c =~= o + (h + n + y));
        assert(d =~= o + (h + n + y + hd));
        assert(e =~= o + (h + n + y + hd + op));
        assert(buf.items() =~= o + (h + n + y + hd + op + ft));
    }
}

impl OptionParser {
    pub open spec fn wf(&self) -> bool {
        &&& info_wf(self.info)
        &&& self.usage.wf()
        &&& items_wf(self.items@)
        &&& forall|i: int| 0 <= i < self.commands@.len() ==> section_wf(#[trigger] self.commands@[i])
    }

    /// The document of the manual page of program `app`. Where the program
    /// has commands, it starts with an overview: a synopsis with one line
    /// per section, the program's own first. Then comes the section of the
    /// program, then one for each command in order, as `section_items` says.
    pub open spec fn manpage_items(&self, app: Seq<char>) -> Seq<Item> {
        let multi = self.commands@.len() > 0;
        let overview = if multi {
            seq![
                Item::Start(Block::Block),
                Item::Start(Block::Section1),
                Item::Text("SYNOPSIS"@, Style::Text),
                Item::End(Block::Section1),
                Item::End(Block::Block),
                Item::Start(Block::Pre),
            ] + overview_line(app, Seq::empty(), self.usage) + overview_lines(app, self.commands@)
                + seq![Item::End(Block::Pre)]
        } else {
            Seq::empty()
        };
        overview + section_items(app, Seq::empty(), self.info, self.usage, self.items@, multi)
            + commands_items(app, self.commands@)
    }

    /// Writes the overview, where the program has commands.
    fn write_overview(&self, buf: &mut Doc, app: &str)
        requires
            self.wf(),
            old(buf).wf(),
        ensures
            final(buf).wf(),
            final(buf).items() == old(buf).items() + (if self.commands@.len() > 0 {
                seq![
                    Item::Start(Block::Block),
                    Item::Start(Block::Section1),
                    Item::Text("SYNOPSIS"@, Style::Text),
                    Item::End(Block::Section1),
                    Item::End(Block::Block),
                    Item::Start(Block::Pre),
                ] + overview_line(app@, Seq::empty(), self.usage) + overview_lines(app@, self.commands@)
                    + seq![Item::End(Block::Pre)]
            } else {
                Seq::empty()
            }),
    {
        if self.commands.len() == 0 {
            assert(buf.items() =~= old(buf).items() + Seq::<Item>::empty());
            return;
        }
        buf.token(Token::BlockStart(Block::Block));
        buf.token(Token::BlockStart(Block::Section1));
        buf.text("SYNOPSIS");
        buf.token(Token::BlockEnd(Block::Section1));
        buf.token(Token::BlockEnd(Block::Block));
        buf.token(Token::BlockStart(Block::Pre));
        let ghost head = buf.items();
        let none: Vec<String> = Vec::new();
        assert(words_view(none@) =~= Seq::<Seq<char>>::empty());
        buf.literal(app);
        buf.text(" ");
        write_words(buf, &none);
        buf.doc(&self.usage);
        buf.text("\n");
        assert(buf.items() =~= head + overview_line(app@, Seq::empty(), self.usage));
        let ghost start = buf.items();
        let mut i: usize = 0;
        assert(overview_lines(app@, self.commands@.take(0)) =~= Seq::<Item>::empty());
        assert(start + Seq::<Item>::empty() =~= start);
        while i < self.commands.len()
            invariant
                self.wf(),
                buf.wf(),
                i <= self.commands@.len(),
                buf.items() == start + overview_lines(app@, self.commands@.take(i as int)),
            decreases self.commands@.len() - i,
        {
            let c = &self.commands[i];
            assert(section_wf(self.commands@[i as int]));
            let ghost before = buf.items();
            buf.literal(app);
            buf.text(" ");
            write_words(buf, &c.path);
            buf.doc(&c.usage);
            buf.text("\n");
            proof {
                assert(buf.items() =~= before + overview_line(app@, words_view(c.path@), c.usage));
                assert(self.commands@.take(i + 1).drop_last() =~= self.commands@.take(i as int));
                assert(self.commands@.take(i + 1).last() == *c);
                assert(buf.items() =~= start + overview_lines(app@, self.commands@.take(i + 1)));
            }
            i += 1;
        }
        assert(self.commands@.take(i as int) =~= self.commands@);
        buf.token(Token::BlockEnd(Block::Pre));
        assert(buf.items() =~= old(buf).items() + (seq![
            Item::Start(Block::Block),
            Item::Start(Block::Section1),
            Item::Text("SYNOPSIS"@, Style::Text),
            Item::End(Block::Section1),
            Item::End(Block::Block),
            Item::Start(Block::Pre),
        ] + overview_line(app@, Seq::empty(), self.usage) + overview_lines(app@, self.commands@)
            + seq![Item::End(Block::Pre)]));
    }

    /// Writes the sections of the commands.
    fn write_commands(&self, buf: &mut Doc, app: &str)
        requires
            self.wf(),
            old(buf).wf(),
        ensures
            final(buf).wf(),
            final(buf).items() == old(buf).items() + commands_items(app@, self.commands@),
    {
        let ghost start = buf.items();
        let mut i: usize = 0;
        assert(commands_items(app@, self.commands@.take(0)) =~= Seq::<Item>::empty());
        assert(start + Seq::<Item>::empty() =~= start);
        while i < self.commands.len()
            invariant
                self.wf(),
                buf.wf(),
                i <= self.commands@.len(),
                start == old(buf).items(),
                buf.items() == start + commands_items(app@, self.commands@.take(i as int)),
            decreases self.commands@.len() - i,
        {
            let c = &self.commands[i];
            assert(section_wf(self.commands@[i as int]));
            write_section(buf, app, &c.path, &c.info, &c.usage, &c.items, true);
            proof {
                assert(self.commands@.take(i + 1).drop_last() =~= self.commands@.take(i as int));
                assert(self.commands@.take(i + 1).last() == *c);
                assert(buf.items() =~= start + commands_items(app@, self.commands@.take(i + 1)));
            }
            i += 1;
        }
        assert(self.commands@.take(i as int) =~= self.commands@);
    }

    /// The document of the manual page, before the title line.
    fn manpage_doc(&self, app: &str) -> (buf: Doc)
        requires
            self.wf(),
        ensures
            buf.wf(),
            buf.items() == self.manpage_items(app@),
    {
        let mut buf = Doc::new();
        self.write_overview(&mut buf, app);
        let none: Vec<String> = Vec::new();
        assert(words_view(none@) =~= Seq::<Seq<char>>::empty());
        write_section(&mut buf, app, &none, &self.info, &self.usage, &self.items, self.commands.len() > 0);
        self.write_commands(&mut buf, app);
        assert(buf.items() =~= self.manpage_items(app@));
        buf
    }


    /// Writes the options as a definition list, where there are any.
    fn write_options(&self, buf: &mut Doc)
        requires
            self.wf(),
            old(buf).wf(),
        ensures
            final(buf).wf(),
            final(buf).items() == old(buf).items() + (if self.items@.len() == 0 {
                Seq::empty()
            } else {
                seq![Item::Start(Block::DefinitionList)] + entries_items(self.items@) + seq![
                    Item::End(Block::DefinitionList),
                ]
            }),
    {
        if self.items.len() == 0 {
            assert(buf.items() =~= old(buf).items() + Seq::<Item>::empty());
            return;
        }
        buf.token(Token::BlockStart(Block::DefinitionList));
        let ghost start = buf.items();
        let mut i: usize = 0;
        assert(entries_items(self.items@.take(0)) =~= Seq::<Item>::empty());
        assert(start + Seq::<Item>::empty() =~= start);
        while i < self.items.len()
            invariant
                self.wf(),
                buf.wf(),
                i <= self.items@.len(),
                buf.items() == start + entries_items(self.items@.take(i as int)),
            decreases self.items@.len() - i,
        {
            let h = &self.items[i];
            let ghost before = buf.items();
            buf.token(Token::BlockStart(Block::ItemTerm));
            buf.doc(&h.term);
            buf.token(Token::BlockEnd(Block::ItemTerm));
            buf.token(Token::BlockStart(Block::ItemBody));
            if let Some(help) = &h.help {
                buf.doc(help);
            }
            buf.token(Token::BlockEnd(Block::ItemBody));
            proof {
                assert(buf.items() =~= before + entry_items(*h));
                assert(self.items@.take(i + 1).drop_last() =~= self.items@.take(i as int));
                assert(self.items@.take(i + 1).last() == *h);
                assert(buf.items() =~= start + entries_items(self.items@.take(i + 1)));
            }
            i += 1;
        }
        assert(self.items@.take(i as int) =~= self.items@);
        buf.token(Token::BlockEnd(Block::DefinitionList));
        assert(buf.items() =~= old(buf).items() + (seq![Item::Start(Block::DefinitionList)]
            + entries_items(self.items@) + seq![Item::End(Block::DefinitionList)]));
    }

    /// The document of the help of program `app`: a heading with
    /// its name, the description and the header, the usage, the options and
    /// the footer.
    pub open spec fn help_items(&self, app: Seq<char>) -> Seq<Item> {
        let options = if self.items@.len() == 0 {
            Seq::empty()
        } else {
            seq![Item::Start(Block::DefinitionList)] + entries_items(self.items@) + seq![
                Item::End(Block::DefinitionList),
            ]
        };
        title_items(app) + block_items(self.info.descr) + block_items(self.info.header) + seq![
            Item::Start(Block::Block),
            Item::Text(app, Style::Literal),
            Item::Text(" "@, Style::Text),
        ] + self.usage.items() + seq![Item::End(Block::Block)] + options + block_items(
            self.info.footer,
        )
    }

    /// Writes a block with the program's name and its usage.
    fn write_usage_block(&self, buf: &mut Doc, app: &str)
        requires
            self.wf(),
            old(buf).wf(),
        ensures
            final(buf).wf(),
            final(buf).items() == old(buf).items() + seq![
                Item::Start(Block::Block),
                Item::Text(app@, Style::Literal),
                Item::Text(" "@, Style::Text),
            ] + self.usage.items() + seq![Item::End(Block::Block)],
    {
        buf.token(Token::BlockStart(Block::Block));
        buf.literal(app);
        buf.text(" ");
        buf.doc(&self.usage);
        buf.token(Token::BlockEnd(Block::Block));
        assert(buf.items() =~= old(buf).items() + seq![
            Item::Start(Block::Block),
            Item::Text(app@, Style::Literal),
            Item::Text(" "@, Style::Text),
        ] + self.usage.items() + seq![Item::End(Block::Block)]);
    }

    fn help_doc(&self, app: &str) -> (buf: Doc)
        requires
            self.wf(),
        ensures
            buf.wf(),
            buf.items() == self.help_items(app@),
    {
        let mut buf = Doc::new();
        buf.token(Token::BlockStart(Block::Section1));
        buf.text(app);
        buf.token(Token::BlockEnd(Block::Section1));
        write_block(&mut buf, &self.info.descr);
        write_block(&mut buf, &self.info.header);
        self.write_usage_block(&mut buf, app);
        self.write_options(&mut buf);
        write_block(&mut buf, &self.info.footer);
        assert(buf.items() =~= self.help_items(app@));
        buf
    }

    /// Renders the help of program `app` as terminal text wrapped at `width`.
    pub fn render_help(&self, app: &str, width: usize) -> (r: String)
        requires
            self.wf(),
        ensures
            r@ == terminal_of(self.help_items(app@), width),
    {
        let buf = self.help_doc(app);
        buf.render_terminal(width)
    }

    /// Renders the help of program `app` as Markdown.
    pub fn render_markdown(&self, app: &str) -> (r: String)
        requires
            self.wf(),
        ensures
            r@ == markdown_of(self.help_items(app@)),
    {
        let buf = self.help_doc(app);
        buf.render_markdown()
    }

    /// Renders the help as a manual page. The title line `.TH` carries the
    /// program's name, the section's code, the date of the last update
    /// (`-` where there is none), the vendor (`-` where there is none) and
    /// the application's title (empty where there is none).
    pub fn render_manpage(
        &self,
        app: &str,
        section: Section,
        last_update_date: Option<&str>,
        vendor: Option<&str>,
        application_title: Option<&str>,
    ) -> (r: String)
        requires
            self.wf(),
        ensures
            r@ == roff_page(
                self.manpage_items(app@),
                control_line(
                    Seq::empty(),
                    "TH"@,
                    title_args_spec(app@, section, last_update_date, vendor, application_title),
                ),
                false,
            ),
    {
        let buf = self.manpage_doc(app);
        let args = title_args(app, section, last_update_date, vendor, application_title);
        let mut manpage = Roff::new();
        manpage.control("TH", &args);
        buf.render_roff(manpage)
    }
}

} // verus!
