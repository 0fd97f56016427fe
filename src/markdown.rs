//! Rendering a document as Markdown.
use vstd::prelude::*;
use crate::doc::{
    Block, Doc, Item, Style, Token, chars_of, extend_chars, items_of, lemma_text_len_prefix, slice_chars,
    string_of, text_len,
};
use crate::roff::line_opened;

verus! {

/// Characters that Markdown reads as markup.
pub open spec fn is_meta(c: char) -> bool {
    c == '\\' || c == '`' || c == '*' || c == '_' || c == '[' || c == ']' || c == '#' || c == '<'
        || c == '>' || c == '|'
}

/// Text with each Markdown metacharacter escaped by a backslash.
pub open spec fn md_escaped(s: Seq<char>) -> Seq<char>
    decreases s.len(),
{
    if s.len() == 0 {
        Seq::empty()
    } else {
        md_escaped(s.drop_last()) + if is_meta(s.last()) {
            seq!['\\', s.last()]
        } else {
            seq![s.last()]
        }
    }
}

/// How text in a style is written outside preformatted blocks: escaped,
/// and in bold for emphasis and literals, in italics for metavars and
/// invalid values.
pub open spec fn md_text(s: Seq<char>, style: Style) -> Seq<char> {
    if s.len() == 0 {
        Seq::empty()
    } else {
        match style {
            Style::Emphasis | Style::Literal => seq!['*', '*'] + md_escaped(s) + seq!['*', '*'],
            Style::Metavar | Style::Invalid => seq!['*'] + md_escaped(s) + seq!['*'],
            Style::Text | Style::Muted => md_escaped(s),
        }
    }
}

/// The state of a rendering: the text so far, and whether a preformatted
/// block is open.
pub struct MdState {
    pub out: Seq<char>,
    pub pre: bool,
}

/// What one item does to the text.
/// - Text is written as `md_text` says; inside a preformatted block, as it is.
/// - A section starts a heading of its level on a new line after a blank one.
/// - A preformatted block is fenced by three backticks.
/// - A term starts a bullet `- `; a body follows it after an em dash.
/// - A block starts after a blank line.
pub open spec fn md_step(st: MdState, it: Item) -> MdState {
    match it {
        Item::Text(s, style) => MdState {
            out: st.out + if st.pre {
                s
            } else {
                md_text(s, style)
            },
            ..st
        },
        Item::Start(b) => match b {
            Block::Section1 => MdState { out: line_opened(st.out) + "\n# "@, ..st },
            Block::Section2 => MdState { out: line_opened(st.out) + "\n## "@, ..st },
            Block::Section3 => MdState { out: line_opened(st.out) + "\n### "@, ..st },
            Block::Pre => MdState { out: line_opened(st.out) + "```\n"@, pre: true },
            Block::ItemTerm => MdState { out: line_opened(st.out) + "- "@, ..st },
            Block::ItemBody => MdState { out: st.out + " — "@, ..st },
            Block::Block => MdState { out: line_opened(st.out) + "\n"@, ..st },
            _ => st,
        },
        Item::End(b) => match b {
            Block::Section1 | Block::Section2 | Block::Section3 | Block::Block | Block::ItemBody => MdState {
                out: st.out + "\n"@,
                ..st
            },
            Block::Pre => MdState { out: line_opened(st.out) + "```\n"@, pre: false },
            _ => st,
        },
    }
}

/// The state after the items `its`, one after the other, from `st`.
pub open spec fn md_fold(its: Seq<Item>, st: MdState) -> MdState
    decreases its.len(),
{
    if its.len() == 0 {
        st
    } else {
        md_step(md_fold(its.drop_last(), st), its.last())
    }
}

/// The Markdown text of the items `its`.
pub open spec fn markdown_of(its: Seq<Item>) -> Seq<char> {
    md_fold(its, MdState { out: Seq::empty(), pre: false }).out
}

fn push_md_escaped(out: &mut Vec<char>, s: &Vec<char>)
    ensures
        final(out)@ == old(out)@ + md_escaped(s@),
{
    let mut i: usize = 0;
    while i < s.len()
        invariant
            i <= s@.len(),
            out@ == old(out)@ + md_escaped(s@.take(i as int)),
        decreases s@.len() - i,
    {
        proof {
            assert(s@.take(i + 1).drop_last() =~= s@.take(i as int));
        }
        let c = s[i];
        if c == '\\' || c == '`' || c == '*' || c == '_' || c == '[' || c == ']' || c == '#' || c
            == '<' || c == '>' || c == '|' {
            out.push('\\');
        }
        out.push(c);
        i += 1;
        assert(out@ =~= old(out)@ + md_escaped(s@.take(i as int)));
    }
    assert(s@.take(i as int) =~= s@);
}

fn push_md_text(out: &mut Vec<char>, s: &Vec<char>, style: Style)
    ensures
        final(out)@ == old(out)@ + md_text(s@, style),
{
    if s.len() == 0 {
        assert(old(out)@ + md_text(s@, style) =~= old(out)@);
        return;
    }
    match style {
        Style::Emphasis | Style::Literal => {
            out.push('*');
            out.push('*');
            push_md_escaped(out, s);
            out.push('*');
            out.push('*');
        },
        Style::Metavar | Style::Invalid => {
            out.push('*');
            push_md_escaped(out, s);
            out.push('*');
        },
        Style::Text | Style::Muted => {
            push_md_escaped(out, s);
        },
    }
    assert(out@ =~= old(out)@ + md_text(s@, style));
}

fn open_line(out: &mut Vec<char>)
    ensures
        final(out)@ == line_opened(old(out)@),
{
    if !(out.len() == 0 || out[out.len() - 1] == '\n') {
        out.push('\n');
    }
}

fn push_lit(out: &mut Vec<char>, s: &str)
    ensures
        final(out)@ == old(out)@ + s@,
{
    let cs = chars_of(s);
    extend_chars(out, &cs);
}

impl Doc {
    /// Renders the document as Markdown.
    pub fn render_markdown(&self) -> (r: String)
        requires
            self.wf(),
        ensures
            r@ == markdown_of(self.items()),
    {
        let mut out: Vec<char> = Vec::new();
        let mut pre = false;
        let ghost st0 = MdState { out: Seq::empty(), pre: false };
        let plen = self.payload.len();
        let mut pos: usize = 0;
        let mut i: usize = 0;
        while i < self.tokens.len()
            invariant
                self.wf(),
                plen == self.payload@.len(),
                i <= self.tokens@.len(),
                pos == text_len(self.tokens@.take(i as int)),
                md_fold(items_of(self.tokens@.take(i as int), self.payload@), st0) == (MdState {
                    out: out@,
                    pre,
                }),
            decreases self.tokens@.len() - i,
        {
            let ghost its = items_of(self.tokens@.take(i as int), self.payload@);
            let ghost item = match self.tokens@[i as int] {
                Token::Text { chars, style } => Item::Text(
                    self.payload@.subrange(pos as int, pos + chars),
                    style,
                ),
                Token::BlockStart(b) => Item::Start(b),
                Token::BlockEnd(b) => Item::End(b),
            };
            let ghost before = MdState { out: out@, pre };
            proof {
                assert(self.tokens@.take(i + 1).drop_last() =~= self.tokens@.take(i as int));
                lemma_text_len_prefix(self.tokens@, i + 1);
                assert(self.tokens@.take(i + 1).last() == self.tokens@[i as int]);
                assert(items_of(self.tokens@.take(i + 1), self.payload@) == its.push(item));
                assert(its.push(item).drop_last() =~= its);
                if let Token::Text { chars, .. } = self.tokens@[i as int] {
                    assert(text_len(self.tokens@.take(i + 1)) == pos + chars);
                }
            }
            match self.tokens[i] {
                Token::Text { chars, style } => {
                    let s = slice_chars(&self.payload, pos, pos + chars);
                    pos += chars;
                    if pre {
                        extend_chars(&mut out, &s);
                    } else {
                        push_md_text(&mut out, &s, style);
                    }
                },
                Token::BlockStart(b) => match b {
                    Block::Section1 => {
                        open_line(&mut out);
                        push_lit(&mut out, "\n# ");
                    },
                    Block::Section2 => {
                        open_line(&mut out);
                        push_lit(&mut out, "\n## ");
                    },
                    Block::Section3 => {
                        open_line(&mut out);
                        push_lit(&mut out, "\n### ");
                    },
                    Block::Pre => {
                        open_line(&mut out);
                        push_lit(&mut out, "```\n");
                        pre = true;
                    },
                    Block::ItemTerm => {
                        open_line(&mut out);
                        push_lit(&mut out, "- ");
                    },
                    Block::ItemBody => {
                        push_lit(&mut out, " — ");
                    },
                    Block::Block => {
                        open_line(&mut out);
                        push_lit(&mut out, "\n");
                    },
                    _ => {},
                },
                Token::BlockEnd(b) => match b {
                    Block::Section1 | Block::Section2 | Block::Section3 | Block::Block
                    | Block::ItemBody => {
                        push_lit(&mut out, "\n");
                    },
                    Block::Pre => {
                        open_line(&mut out);
                        push_lit(&mut out, "```\n");
                        pre = false;
                    },
                    _ => {},
                },
            }
            assert(md_step(before, item) == (MdState { out: out@, pre }));
            i += 1;
        }
        proof {
            assert(self.tokens@.take(i as int) =~= self.tokens@);
        }
        string_of(&out)
    }
}

} // verus!
