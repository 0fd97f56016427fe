//! A writer of manual-page (roff) source: control lines, escaped text in a
//! font, and line breaks.
use vstd::prelude::*;
use crate::doc::{chars_of, extend_chars};

verus! {

/// The three fonts of a manual page.
#[derive(Clone, Copy, Debug, PartialEq, Eq, Structural)]
pub enum Font {
    Roman,
    Bold,
    Italic,
}

/// Whether the output ends a line, so that a control line may follow.
pub open spec fn at_line_start(out: Seq<char>) -> bool {
    out.len() == 0 || out.last() == '\n'
}

/// The output with a line ended, unless it already ends one.
pub open spec fn line_opened(out: Seq<char>) -> Seq<char> {
    if at_line_start(out) {
        out
    } else {
        out.push('\n')
    }
}

/// How one character of running text is written. Characters that roff reads
/// as commands are escaped; a newline becomes a space where lines are joined.
pub open spec fn escape_char(c: char, line_start: bool, strip: bool) -> Seq<char> {
    if c == '\n' {
        if strip {
            seq![' ']
        } else {
            seq!['\n']
        }
    } else if c == '\\' {
        seq!['\\', 'e']
    } else if c == '-' {
        seq!['\\', '-']
    } else if c == '\'' {
        seq!['\\', '*', '(', 'A', 'q']
    } else if c == '.' && line_start {
        seq!['\\', '&', '.']
    } else {
        seq![c]
    }
}

/// The output after the running text `s` is written on it.
pub open spec fn escaped(out: Seq<char>, s: Seq<char>, strip: bool) -> Seq<char>
    decreases s.len(),
{
    if s.len() == 0 {
        out
    } else {
        let o = escaped(out, s.drop_last(), strip);
        o + escape_char(s.last(), at_line_start(o), strip)
    }
}

/// The escape that switches to a font.
pub open spec fn font_code(f: Font) -> Seq<char> {
    match f {
        Font::Roman => seq!['\\', 'f', 'R'],
        Font::Bold => seq!['\\', 'f', 'B'],
        Font::Italic => seq!['\\', 'f', 'I'],
    }
}

/// The output after `s` is written on it in font `f`: text in another font
/// than roman is framed by a switch to that font and one back to roman.
pub open spec fn text_in(out: Seq<char>, f: Font, s: Seq<char>, strip: bool) -> Seq<char> {
    if s.len() == 0 {
        out
    } else if f == Font::Roman {
        escaped(out, s, strip)
    } else {
        escaped(out + font_code(f), s, strip) + font_code(Font::Roman)
    }
}

/// How one character of a control line's argument is written.
pub open spec fn arg_char(c: char) -> Seq<char> {
    if c == '"' {
        seq!['\\', '(', 'd', 'q']
    } else if c == '\n' {
        seq![' ']
    } else {
        escape_char(c, false, true)
    }
}

/// The characters of an argument, each written as `arg_char` says.
pub open spec fn arg_body(a: Seq<char>) -> Seq<char>
    decreases a.len(),
{
    if a.len() == 0 {
        Seq::empty()
    } else {
        arg_body(a.drop_last()) + arg_char(a.last())
    }
}

/// An argument of a control line: in double quotes where it is empty or
/// holds a space, bare otherwise.
pub open spec fn quoted_arg(a: Seq<char>) -> Seq<char> {
    if a.len() == 0 || a.contains(' ') {
        seq!['"'] + arg_body(a) + seq!['"']
    } else {
        arg_body(a)
    }
}

/// The arguments of a control line, each after a space.
pub open spec fn args_text(args: Seq<Seq<char>>) -> Seq<char>
    decreases args.len(),
{
    if args.len() == 0 {
        Seq::empty()
    } else {
        args_text(args.drop_last()) + seq![' '] + quoted_arg(args.last())
    }
}

/// The output after the control line `.name args` is written on it, on a
/// line of its own.
pub open spec fn control_line(out: Seq<char>, name: Seq<char>, args: Seq<Seq<char>>) -> Seq<char> {
    line_opened(out) + seq!['.'] + name + args_text(args) + seq!['\n']
}

/// The lines that every page starts with: they define the string `Aq`, which
/// escaped apostrophes refer to.
pub open spec fn preamble() -> Seq<char> {
    ".ie \\n(.g .ds Aq \\(aq\n.el .ds Aq '\n"@
}

/// Manual-page source as it is written.
pub struct Roff {
    /// What has been written so far.
    pub out: Vec<char>,
    /// Whether newlines in text are written as spaces.
    pub strip_newlines: bool,
}

/// Writes the escape of one character of running text.
fn push_escaped(out: &mut Vec<char>, c: char, strip: bool)
    ensures
        final(out)@ == old(out)@ + escape_char(c, at_line_start(old(out)@), strip),
{
    let line_start = out.len() == 0 || out[out.len() - 1] == '\n';
    if c == '\n' {
        if strip {
            out.push(' ');
        } else {
            out.push('\n');
        }
    } else if c == '\\' {
        out.push('\\');
        out.push('e');
    } else if c == '-' {
        out.push('\\');
        out.push('-');
    } else if c == '\'' {
        out.push('\\');
        out.push('*');
        out.push('(');
        out.push('A');
        out.push('q');
    } else if c == '.' && line_start {
        out.push('\\');
        out.push('&');
        out.push('.');
    } else {
        out.push(c);
    }
    assert(out@ =~= old(out)@ + escape_char(c, at_line_start(old(out)@), strip));
}

/// Writes the escape of each character of `s`.
fn push_escaped_all(out: &mut Vec<char>, s: &Vec<char>, strip: bool)
    ensures
        final(out)@ == escaped(old(out)@, s@, strip),
{
    let mut i: usize = 0;
    while i < s.len()
        invariant
            i <= s@.len(),
            out@ == escaped(old(out)@, s@.subrange(0, i as int), strip),
        decreases s@.len() - i,
    {
        proof {
            assert(s@.subrange(0, i + 1).drop_last() =~= s@.subrange(0, i as int));
        }
        push_escaped(out, s[i], strip);
        i += 1;
    }
    assert(s@.subrange(0, i as int) =~= s@);
}

/// Writes the escape that switches to `f`.
fn push_font(out: &mut Vec<char>, f: Font)
    ensures
        final(out)@ == old(out)@ + font_code(f),
{
    out.push('\\');
    out.push('f');
    match f {
        Font::Roman => out.push('R'),
        Font::Bold => out.push('B'),
        Font::Italic => out.push('I'),
    }
    assert(out@ =~= old(out)@ + font_code(f));
}

/// Writes one argument of a control line.
fn push_arg(out: &mut Vec<char>, a: &Vec<char>)
    ensures
        final(out)@ == old(out)@ + quoted_arg(a@),
{
    let mut quote = a.len() == 0;
    let mut j: usize = 0;
    while j < a.len()
        invariant
            j <= a@.len(),
            quote == (a@.len() == 0 || a@.subrange(0, j as int).contains(' ')),
        decreases a@.len() - j,
    {
        if a[j] == ' ' {
            quote = true;
        }
        proof {
            let t = a@.subrange(0, j + 1);
            if a@[j as int] == ' ' {
                assert(t[j as int] == ' ');
            }
            if t.contains(' ') && a@[j as int] != ' ' {
                let k = choose|k: int| 0 <= k < t.len() && t[k] == ' ';
                assert(a@.subrange(0, j as int)[k] == ' ');
            }
            if a@.subrange(0, j as int).contains(' ') {
                let k = choose|k: int| 0 <= k < j && a@.subrange(0, j as int)[k] == ' ';
                assert(t[k] == ' ');
            }
        }
        j += 1;
    }
    assert(a@.subrange(0, j as int) =~= a@);
    if quote {
        out.push('"');
    }
    let start = Ghost(out@);
    let mut i: usize = 0;
    while i < a.len()
        invariant
            i <= a@.len(),
            out@ == start@ + arg_body(a@.subrange(0, i as int)),
        decreases a@.len() - i,
    {
        proof {
            assert(a@.subrange(0, i + 1).drop_last() =~= a@.subrange(0, i as int));
        }
        let c = a[i];
        if c == '"' {
            out.push('\\');
            out.push('(');
            out.push('d');
            out.push('q');
        } else if c == '\n' {
            out.push(' ');
        } else if c == '\\' {
            out.push('\\');
            out.push('e');
        } else if c == '-' {
            out.push('\\');
            out.push('-');
        } else if c == '\'' {
            out.push('\\');
            out.push('*');
            out.push('(');
            out.push('A');
            out.push('q');
        } else {
            out.push(c);
        }
        i += 1;
        assert(out@ =~= start@ + arg_body(a@.subrange(0, i as int)));
    }
    assert(a@.subrange(0, i as int) =~= a@);
    if quote {
        out.push('"');
    }
    assert(out@ =~= old(out)@ + quoted_arg(a@));
}

impl Roff {
    /// An empty page.
    pub fn new() -> (r: Roff)
        ensures
            r.out@ == Seq::<char>::empty(),
            !r.strip_newlines,
    {
        Roff { out: Vec::new(), strip_newlines: false }
    }

    /// Sets whether newlines in text are written as spaces.
    pub fn strip_newlines(&mut self, on: bool)
        ensures
            final(self).out@ == old(self).out@,
            final(self).strip_newlines == on,
    {
        self.strip_newlines = on;
    }

    /// Ends the current line, unless it is already ended.
    pub fn line_break(&mut self)
        ensures
            final(self).out@ == line_opened(old(self).out@),
            final(self).strip_newlines == old(self).strip_newlines,
    {
        if !(self.out.len() == 0 || self.out[self.out.len() - 1] == '\n') {
            self.out.push('\n');
        }
    }

    /// Writes the control line `.name args` on a line of its own.
    pub fn control(&mut self, name: &str, args: &Vec<Vec<char>>)
        ensures
            final(self).out@ == control_line(old(self).out@, name@, args.deep_view()),
            final(self).strip_newlines == old(self).strip_newlines,
    {
        self.line_break();
        self.out.push('.');
        let n = chars_of(name);
        extend_chars(&mut self.out, &n);
        let start = Ghost(self.out@);
        let mut i: usize = 0;
        while i < args.len()
            invariant
                i <= args@.len(),
                self.out@ == start@ + args_text(args.deep_view().subrange(0, i as int)),
                self.strip_newlines == old(self).strip_newlines,
            decreases args@.len() - i,
        {
            proof {
                assert(args.deep_view()[i as int] == args@[i as int]@);
                assert(args.deep_view().subrange(0, i + 1).drop_last() =~= args.deep_view().subrange(
                    0,
                    i as int,
                ));
            }
            self.out.push(' ');
            push_arg(&mut self.out, &args[i]);
            i += 1;
            assert(self.out@ =~= start@ + args_text(args.deep_view().subrange(0, i as int)));
        }
        assert(args.deep_view().subrange(0, i as int) =~= args.deep_view());
        self.out.push('\n');
        assert(self.out@ =~= control_line(old(self).out@, name@, args.deep_view()));
    }

    /// Writes the control line `.name`, without arguments.
    pub fn control0(&mut self, name: &str)
        ensures
            final(self).out@ == control_line(old(self).out@, name@, Seq::empty()),
            final(self).strip_newlines == old(self).strip_newlines,
    {
        let none: Vec<Vec<char>> = Vec::new();
        proof {
            assert(none.deep_view() =~= Seq::<Seq<char>>::empty());
        }
        self.control(name, &none);
    }

    /// Writes running text in a font.
    pub fn text(&mut self, f: Font, s: &Vec<char>)
        ensures
            final(self).out@ == text_in(old(self).out@, f, s@, old(self).strip_newlines),
            final(self).strip_newlines == old(self).strip_newlines,
    {
        if s.len() == 0 {
            return;
        }
        let strip = self.strip_newlines;
        if f == Font::Roman {
            push_escaped_all(&mut self.out, s, strip);
        } else {
            push_font(&mut self.out, f);
            push_escaped_all(&mut self.out, s, strip);
            push_font(&mut self.out, Font::Roman);
        }
    }
}

} // verus!
