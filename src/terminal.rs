//! Rendering a document as text for a terminal, wrapped to a width.
use vstd::prelude::*;
use crate::doc::{Block, Doc, Item, Style, Token, items_of, lemma_text_len_prefix, slice_chars, string_of, text_len};

verus! {

/// The escape that starts bold text.
pub open spec fn bold_on() -> Seq<char> {
    seq!['\u{1b}', '[', '1', 'm']
}

/// The escape that ends styled text.
pub open spec fn style_off() -> Seq<char> {
    seq!['\u{1b}', '[', '0', 'm']
}

/// How far the bodies of items are indented.
pub open spec fn body_indent() -> usize {
    4
}

/// The state of a rendering: the text so far, the column, and the indent
/// that new lines start with.
pub struct TermState {
    pub out: Seq<char>,
    pub col: usize,
    pub indent: usize,
}

/// `n` spaces.
pub open spec fn spaces(n: nat) -> Seq<char> {
    Seq::new(n, |i: int| ' ')
}

/// A new line, indented.
pub open spec fn new_line(st: TermState) -> TermState {
    TermState { out: st.out + seq!['\n'] + spaces(st.indent as nat), col: st.indent, ..st }
}

/// A new line, unless the current one is still empty.
pub open spec fn fresh_line(st: TermState) -> TermState {
    if st.col > st.indent {
        new_line(st)
    } else {
        st
    }
}

/// One character: a newline, or a space once the line has reached
/// `width`, starts a new line; any other character is written.
pub open spec fn put_char(st: TermState, c: char, width: usize) -> TermState {
    if c == '\n' || (c == ' ' && st.col >= width) {
        new_line(st)
    } else {
        TermState {
            out: st.out.push(c),
            col: if st.col < usize::MAX {
                (st.col + 1) as usize
            } else {
                st.col
            },
            ..st
        }
    }
}

/// The characters `s`, one after the other.
pub open spec fn put_text(st: TermState, s: Seq<char>, width: usize) -> TermState
    decreases s.len(),
{
    if s.len() == 0 {
        st
    } else {
        put_char(put_text(st, s.drop_last(), width), s.last(), width)
    }
}

/// What one item does to the text.
/// - Literals and emphasised text are bold; other text is plain.
/// - Sections and blocks start on a fresh line and end it.
/// - A term starts on a fresh line; its body follows on a new line,
///   indented, and the indent ends with the body.
pub open spec fn term_step(st: TermState, it: Item, width: usize) -> TermState {
    match it {
        Item::Text(s, style) => if s.len() > 0 && (style == Style::Literal || style
            == Style::Emphasis) {
            let on = TermState { out: st.out + bold_on(), ..st };
            let t = put_text(on, s, width);
            TermState { out: t.out + style_off(), ..t }
        } else {
            put_text(st, s, width)
        },
        Item::Start(b) => match b {
            Block::Section1 | Block::Section2 | Block::Section3 | Block::Block | Block::ItemTerm =>
                fresh_line(st),
            Block::ItemBody => new_line(TermState { indent: body_indent(), ..st }),
            _ => st,
        },
        Item::End(b) => match b {
            Block::Section1 | Block::Section2 | Block::Section3 | Block::Block => new_line(st),
            Block::ItemBody => new_line(TermState { indent: 0, ..st }),
            _ => st,
        },
    }
}

/// The state after the items `its`, one after the other, from `st`.
pub open spec fn term_fold(its: Seq<Item>, st: TermState, width: usize) -> TermState
    decreases its.len(),
{
    if its.len() == 0 {
        st
    } else {
        term_step(term_fold(its.drop_last(), st, width), its.last(), width)
    }
}

/// The terminal text of the items `its`, wrapped at `width`.
pub open spec fn terminal_of(its: Seq<Item>, width: usize) -> Seq<char> {
    term_fold(its, TermState { out: Seq::empty(), col: 0, indent: 0 }, width).out
}

/// The writer's state in exec code.
struct Term {
    out: Vec<char>,
    col: usize,
    indent: usize,
}

impl Term {
    closed spec fn view(&self) -> TermState {
        TermState { out: self.out@, col: self.col, indent: self.indent }
    }

    fn new_line(&mut self)
        ensures
            final(self).view() == new_line(old(self).view()),
    {
        self.out.push('\n');
        let mut k: usize = 0;
        while k < self.indent
            invariant
                k <= self.indent,
                self.indent == old(self).indent,
                self.out@ == old(self).out@ + seq!['\n'] + spaces(k as nat),
            decreases self.indent - k,
        {
            self.out.push(' ');
            k += 1;
            assert(self.out@ =~= old(self).out@ + seq!['\n'] + spaces(k as nat));
        }
        self.col = self.indent;
    }

    fn fresh_line(&mut self)
        ensures
            final(self).view() == fresh_line(old(self).view()),
    {
        if self.col > self.indent {
            self.new_line();
        }
    }

    fn put_text(&mut self, s: &Vec<char>, width: usize)
        ensures
            final(self).view() == put_text(old(self).view(), s@, width),
    {
        let mut i: usize = 0;
        while i < s.len()
            invariant
                i <= s@.len(),
                self.view() == put_text(old(self).view(), s@.take(i as int), width),
            decreases s@.len() - i,
        {
            proof {
                assert(s@.take(i + 1).drop_last() =~= s@.take(i as int));
            }
            let c = s[i];
            if c == '\n' || (c == ' ' && self.col >= width) {
                self.new_line();
            } else {
                self.out.push(c);
                if self.col < usize::MAX {
                    self.col = self.col + 1;
                }
            }
            i += 1;
        }
        assert(s@.take(i as int) =~= s@);
    }

    fn push_escape(&mut self, code: char)
        ensures
            final(self).view() == (TermState {
                out: old(self).out@ + seq!['\u{1b}', '[', code, 'm'],
                ..old(self).view()
            }),
    {
        self.out.push('\u{1b}');
        self.out.push('[');
        self.out.push(code);
        self.out.push('m');
        assert(self.out@ =~= old(self).out@ + seq!['\u{1b}', '[', code, 'm']);
    }
}

impl Doc {
    /// Renders the document as terminal text, wrapping lines at the first
    /// space past `width` columns.
    pub fn render_terminal(&self, width: usize) -> (r: String)
        requires
            self.wf(),
        ensures
            r@ == terminal_of(self.items(), width),
    {
        let mut t = Term { out: Vec::new(), col: 0, indent: 0 };
        let ghost st0 = TermState { out: Seq::empty(), col: 0, indent: 0 };
        let plen = self.payload.len();
        let mut pos: usize = 0;
        let mut i: usize = 0;
        while i < self.tokens.len()
            invariant
                self.wf(),
                plen == self.payload@.len(),
                i <= self.tokens@.len(),
                pos == text_len(self.tokens@.take(i as int)),
                term_fold(items_of(self.tokens@.take(i as int), self.payload@), st0, width)
                    == t.view(),
            decreases self.tokens@.len() - i,
        {
            let ghost its = items_of(self.tokens@.take(i as int), self.payload@);
            let ghost item = match self.tokens@[i as int] {
                Token::Text { chars, style } => Item::Text(
                    self.payload@.subrange(pos as int, pos + chars),
                    style,
                ),
                Token::BlockStart(b) => Item::Start(b),
                Token::BlockEnd(b) => Item::End(b),
            };
            let ghost before = t.view();
            proof {
                assert(self.tokens@.take(i + 1).drop_last() =~= self.tokens@.take(i as int));
                lemma_text_len_prefix(self.tokens@, i + 1);
                assert(self.tokens@.take(i + 1).last() == self.tokens@[i as int]);
                assert(items_of(self.tokens@.take(i + 1), self.payload@) == its.push(item));
                assert(its.push(item).drop_last() =~= its);
                if let Token::Text { chars, .. } = self.tokens@[i as int] {
                    assert(text_len(self.tokens@.take(i + 1)) == pos + chars);
                }
            }
            match self.tokens[i] {
                Token::Text { chars, style } => {
                    let s = slice_chars(&self.payload, pos, pos + chars);
                    pos += chars;
                    if s.len() > 0 && (style == Style::Literal || style == Style::Emphasis) {
                        t.push_escape('1');
                        t.put_text(&s, width);
                        t.push_escape('0');
                    } else {
                        t.put_text(&s, width);
                    }
                },
                Token::BlockStart(b) => match b {
                    Block::Section1 | Block::Section2 | Block::Section3 | Block::Block
                    | Block::ItemTerm => t.fresh_line(),
                    Block::ItemBody => {
                        t.indent = 4;
                        t.new_line();
                    },
                    _ => {},
                },
                Token::BlockEnd(b) => match b {
                    Block::Section1 | Block::Section2 | Block::Section3 | Block::Block => t.new_line(),
                    Block::ItemBody => {
                        t.indent = 0;
                        t.new_line();
                    },
                    _ => {},
                },
            }
            assert(term_step(before, item, width) == t.view());
            i += 1;
        }
        proof {
            assert(self.tokens@.take(i as int) =~= self.tokens@);
        }
        string_of(&t.out)
    }
}

} // verus!
