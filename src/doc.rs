//! The document model: styled text and block markers over one shared
//! character payload.
use vstd::prelude::*;
use vstd::string::StrSliceExecFns;

verus! {

/// How a piece of text is meant to look; each renderer decides what that means.
#[derive(Clone, Copy, Debug, PartialEq, Eq, Structural)]
pub enum Style {
    Text,
    Emphasis,
    Literal,
    Metavar,
    Invalid,
    Muted,
}

/// The kinds of block that a document can open and close.
#[derive(Clone, Copy, Debug, PartialEq, Eq, Structural)]
pub enum Block {
    Section1,
    Section2,
    Section3,
    Block,
    InlineBlock,
    Pre,
    ItemTerm,
    ItemBody,
    DefinitionList,
    NumberedList,
    UnnumberedList,
    TermRef,
}

/// One token of a document. A text token names how many characters of the
/// payload it covers; the texts follow each other in the payload.
#[derive(Clone, Copy, Debug, PartialEq, Eq, Structural)]
pub enum Token {
    Text { chars: usize, style: Style },
    BlockStart(Block),
    BlockEnd(Block),
}

/// A token together with the characters it stands for.
pub enum Item {
    Text(Seq<char>, Style),
    Start(Block),
    End(Block),
}

/// The item of a block marker.
pub open spec fn marker_item(t: Token) -> Item
    recommends
        !(t is Text),
{
    match t {
        Token::BlockEnd(b) => Item::End(b),
        _ => Item::Start(t->BlockStart_0),
    }
}

/// A document: tokens, and the characters of their texts in order.
pub struct Doc {
    pub tokens: Vec<Token>,
    pub payload: Vec<char>,
}

/// How many payload characters the texts among `ts` cover.
pub open spec fn text_len(ts: Seq<Token>) -> nat
    decreases ts.len(),
{
    if ts.len() == 0 {
        0
    } else {
        text_len(ts.drop_last()) + match ts.last() {
            Token::Text { chars, .. } => chars as nat,
            _ => 0,
        }
    }
}

/// The items that tokens `ts` describe over the characters `p`.
pub open spec fn items_of(ts: Seq<Token>, p: Seq<char>) -> Seq<Item>
    decreases ts.len(),
{
    if ts.len() == 0 {
        Seq::empty()
    } else {
        let start = text_len(ts.drop_last());
        items_of(ts.drop_last(), p).push(
            match ts.last() {
                Token::Text { chars, style } => Item::Text(
                    p.subrange(start as int, start + chars),
                    style,
                ),
                Token::BlockStart(b) => Item::Start(b),
                Token::BlockEnd(b) => Item::End(b),
            },
        )
    }
}

/// Items only look at the part of the payload that their texts cover.
proof fn lemma_items_prefix(ts: Seq<Token>, p: Seq<char>, q: Seq<char>)
    requires
        text_len(ts) <= p.len(),
        text_len(ts) <= q.len(),
        p.subrange(0, text_len(ts) as int) == q.subrange(0, text_len(ts) as int),
    ensures
        items_of(ts, p) == items_of(ts, q),
    decreases ts.len(),
{
    if ts.len() > 0 {
        let n = text_len(ts) as int;
        let m = text_len(ts.drop_last()) as int;
        assert(p.subrange(0, m) =~= p.subrange(0, n).subrange(0, m));
        assert(q.subrange(0, m) =~= q.subrange(0, n).subrange(0, m));
        lemma_items_prefix(ts.drop_last(), p, q);
        if let Token::Text { chars, .. } = ts.last() {
            assert(p.subrange(m, m + chars) =~= p.subrange(0, n).subrange(m, m + chars));
            assert(q.subrange(m, m + chars) =~= q.subrange(0, n).subrange(m, m + chars));
        }
    }
}

/// Appending two documents appends their items.
proof fn lemma_items_concat(a: Seq<Token>, pa: Seq<char>, b: Seq<Token>, pb: Seq<char>)
    requires
        text_len(a) == pa.len(),
        text_len(b) == pb.len(),
    ensures
        text_len(a + b) == pa.len() + pb.len(),
        items_of(a + b, pa + pb) == items_of(a, pa) + items_of(b, pb),
    decreases b.len(),
{
    if b.len() == 0 {
        assert(a + b =~= a);
        lemma_items_prefix(a, pa + pb, pa);
        assert((pa + pb).subrange(0, pa.len() as int) =~= pa.subrange(0, pa.len() as int));
        assert(items_of(b, pb) =~= Seq::empty());
        assert(items_of(a, pa) + items_of(b, pb) =~= items_of(a, pa));
    } else {
        let b0 = b.drop_last();
        let m = text_len(b0);
        let pb0 = pb.subrange(0, m as int);
        assert((a + b).drop_last() =~= a + b0);
        assert((a + b).last() == b.last());
        assert(m <= pb.len());
        assert(pb.subrange(0, m as int) =~= pb0.subrange(0, m as int));
        lemma_items_prefix(b0, pb, pb0);
        lemma_items_concat(a, pa, b0, pb0);
        assert((pa + pb).subrange(0, (pa.len() + m) as int) =~= (pa + pb0).subrange(
            0,
            (pa.len() + m) as int,
        ));
        lemma_items_prefix(a + b0, pa + pb, pa + pb0);
        if let Token::Text { chars, .. } = b.last() {
            let s = pa.len() + m;
            assert((pa + pb).subrange(s as int, s + chars) =~= pb.subrange(m as int, m + chars));
        }
        assert(items_of(a + b, pa + pb) =~= items_of(a, pa) + items_of(b, pb));
    }
}

/// The characters of `s`, in order.
pub fn chars_of(s: &str) -> (r: Vec<char>)
    ensures
        r@ == s@,
{
    let n = s.unicode_len();
    let mut r: Vec<char> = Vec::new();
    let mut i: usize = 0;
    while i < n
        invariant
            n == s@.len(),
            i <= n,
            r@ == s@.subrange(0, i as int),
        decreases n - i,
    {
        r.push(s.get_char(i));
        i += 1;
        assert(r@ =~= s@.subrange(0, i as int));
    }
    assert(r@ =~= s@);
    r
}

/// Appends the characters of `src` to `dst`.
pub fn extend_chars(dst: &mut Vec<char>, src: &Vec<char>)
    ensures
        final(dst)@ == old(dst)@ + src@,
{
    let mut i: usize = 0;
    while i < src.len()
        invariant
            i <= src@.len(),
            dst@ == old(dst)@ + src@.subrange(0, i as int),
        decreases src@.len() - i,
    {
        dst.push(src[i]);
        i += 1;
        assert(dst@ =~= old(dst)@ + src@.subrange(0, i as int));
    }
    assert(src@.subrange(0, i as int) =~= src@);
}

/// Relies on collecting characters into a `String`: the string holds them in order.
#[verifier::external_body]
pub(crate) fn string_of(s: &Vec<char>) -> (r: String)
    ensures
        r@ == s@,
{
    s.iter().collect()
}

/// The texts of a prefix of `ts` cover no more than those of `ts`.
pub proof fn lemma_text_len_prefix(ts: Seq<Token>, i: int)
    requires
        0 <= i <= ts.len(),
    ensures
        text_len(ts.take(i)) <= text_len(ts),
    decreases ts.len(),
{
    if i < ts.len() {
        assert(ts.drop_last().take(i) =~= ts.take(i));
        lemma_text_len_prefix(ts.drop_last(), i);
    } else {
        assert(ts.take(i) =~= ts);
    }
}

/// The characters of `v` from `start` to `end`.
pub(crate) fn slice_chars(v: &Vec<char>, start: usize, end: usize) -> (r: Vec<char>)
    requires
        start <= end <= v@.len(),
    ensures
        r@ == v@.subrange(start as int, end as int),
{
    let mut r: Vec<char> = Vec::new();
    let mut i = start;
    while i < end
        invariant
            start <= i <= end <= v@.len(),
            r@ == v@.subrange(start as int, i as int),
        decreases end - i,
    {
        r.push(v[i]);
        i += 1;
        assert(r@ =~= v@.subrange(start as int, i as int));
    }
    r
}

impl Doc {
    /// The payload holds exactly the characters that the texts cover.
    pub open spec fn wf(&self) -> bool {
        text_len(self.tokens@) == self.payload@.len()
    }

    /// What the document holds, token by token.
    pub open spec fn items(&self) -> Seq<Item> {
        items_of(self.tokens@, self.payload@)
    }

    /// An empty document.
    pub fn new() -> (r: Doc)
        ensures
            r.wf(),
            r.items() == Seq::<Item>::empty(),
    {
        Doc { tokens: Vec::new(), payload: Vec::new() }
    }

    /// Appends a block marker.
    pub fn token(&mut self, t: Token)
        requires
            old(self).wf(),
            !(t is Text),
        ensures
            final(self).wf(),
            final(self).items() == old(self).items().push(marker_item(t)),
    {
        self.tokens.push(t);
        proof {
            assert(self.tokens@.drop_last() =~= old(self).tokens@);
        }
    }

    /// Appends the characters `s` as one text in the given style.
    pub fn write_chars(&mut self, s: &Vec<char>, style: Style)
        requires
            old(self).wf(),
        ensures
            final(self).wf(),
            final(self).items() == old(self).items().push(Item::Text(s@, style)),
    {
        let t = Token::Text { chars: s.len(), style };
        proof {
            let one = seq![t];
            assert(one.drop_last() =~= Seq::<Token>::empty());
            assert(text_len(one.drop_last()) == 0);
            assert(text_len(one) == s@.len());
            assert(items_of(one.drop_last(), s@) =~= Seq::<Item>::empty());
            assert(s@.subrange(0, s@.len() as int) =~= s@);
            lemma_items_concat(self.tokens@, self.payload@, one, s@);
            assert(self.tokens@ + one =~= self.tokens@.push(t));
            assert(items_of(one, s@) =~= seq![Item::Text(s@, style)]);
        }
        self.tokens.push(t);
        extend_chars(&mut self.payload, s);
    }

    /// Appends `s` as one text in the given style.
    pub fn write_str(&mut self, s: &str, style: Style)
        requires
            old(self).wf(),
        ensures
            final(self).wf(),
            final(self).items() == old(self).items().push(Item::Text(s@, style)),
    {
        let cs = chars_of(s);
        self.write_chars(&cs, style);
    }

    /// Appends plain text.
    pub fn text(&mut self, s: &str)
        requires
            old(self).wf(),
        ensures
            final(self).wf(),
            final(self).items() == old(self).items().push(Item::Text(s@, Style::Text)),
    {
        self.write_str(s, Style::Text);
    }

    /// Appends text that stands for itself, such as a flag or a command name.
    pub fn literal(&mut self, s: &str)
        requires
            old(self).wf(),
        ensures
            final(self).wf(),
            final(self).items() == old(self).items().push(Item::Text(s@, Style::Literal)),
    {
        self.write_str(s, Style::Literal);
    }

    /// Appends a placeholder for a value, such as `NAME`.
    pub fn metavar(&mut self, s: &str)
        requires
            old(self).wf(),
        ensures
            final(self).wf(),
            final(self).items() == old(self).items().push(Item::Text(s@, Style::Metavar)),
    {
        self.write_str(s, Style::Metavar);
    }

    /// Appends the whole of another document.
    pub fn doc(&mut self, other: &Doc)
        requires
            old(self).wf(),
            other.wf(),
        ensures
            final(self).wf(),
            final(self).items() == old(self).items() + other.items(),
    {
        proof {
            lemma_items_concat(self.tokens@, self.payload@, other.tokens@, other.payload@);
        }
        let mut i: usize = 0;
        while i < other.tokens.len()
            invariant
                i <= other.tokens@.len(),
                self.tokens@ == old(self).tokens@ + other.tokens@.subrange(0, i as int),
                self.payload@ == old(self).payload@,
            decreases other.tokens@.len() - i,
        {
            self.tokens.push(other.tokens[i]);
            i += 1;
            assert(self.tokens@ =~= old(self).tokens@ + other.tokens@.subrange(0, i as int));
        }
        assert(other.tokens@.subrange(0, i as int) =~= other.tokens@);
        extend_chars(&mut self.payload, &other.payload);
    }
}

} // verus!
