//! Laws of the matching engine.
use vstd::prelude::*;
use crate::doc::{Block, Doc, Item};
use crate::manpage::{RoffState, roff_fold, roff_step, upper_of};
use crate::roff::control_line;
use crate::markdown::markdown_of;
use crate::parser::{Grammar, Value, run};

verus! {

/// An alternative of `p` and `q` succeeds exactly where `p` or `q` does,
/// and wherever `p` succeeds it yields what `p` yields.
pub proof fn law_alternative(p: Grammar, q: Grammar, args: Seq<Seq<char>>, st: Seq<bool>, adj: bool)
    ensures
        run(Grammar::Alt(Box::new(p), Box::new(q)), args, st, adj) is Ok <==> (run(p, args, st, adj) is Ok
            || run(q, args, st, adj) is Ok),
        run(p, args, st, adj) is Ok ==> run(Grammar::Alt(Box::new(p), Box::new(q)), args, st, adj)
            == run(p, args, st, adj),
{
}

/// Where `p` succeeds without taking any argument, a repetition of `p`
/// stops after that one success.
pub proof fn law_many_stops(p: Grammar, args: Seq<Seq<char>>, st: Seq<bool>, adj: bool, v: Value)
    requires
        run(p, args, st, adj) == Ok::<(Value, Seq<bool>), crate::parser::SpecError>((v, st)),
    ensures
        run(Grammar::Many(Box::new(p)), args, st, adj) == Ok::<(Value, Seq<bool>), crate::parser::SpecError>(
            (Value::Cons(Box::new(v), Box::new(Value::Nil)), st),
        ),
{
}

/// Markdown rendering depends on what a document holds alone: two
/// documents with the same items, however their tokens and payload are laid
/// out, render to the same text, so rendering the same help twice gives
/// the same output.
pub proof fn law_markdown_stable(a: Doc, b: Doc)
    requires
        a.wf(),
        b.wf(),
        a.items() == b.items(),
    ensures
        markdown_of(a.items()) == markdown_of(b.items()),
{
}

/// The characters of the texts among `its`, one after the other.
pub open spec fn texts_of(its: Seq<Item>) -> Seq<char>
    decreases its.len(),
{
    if its.len() == 0 {
        Seq::empty()
    } else {
        texts_of(its.drop_last()) + match its.last() {
            Item::Text(s, _) => s,
            _ => Seq::empty(),
        }
    }
}

proof fn lemma_fold_concat(a: Seq<Item>, b: Seq<Item>, st: RoffState)
    ensures
        roff_fold(a + b, st) == roff_fold(b, roff_fold(a, st)),
    decreases b.len(),
{
    if b.len() == 0 {
        assert(a + b =~= a);
    } else {
        assert((a + b).drop_last() =~= a + b.drop_last());
        assert((a + b).last() == b.last());
        lemma_fold_concat(a, b.drop_last(), st);
    }
}

proof fn lemma_capture_texts(ts: Seq<Item>, st: RoffState)
    requires
        st.capturing,
        forall|i: int| 0 <= i < ts.len() ==> (#[trigger] ts[i]) is Text,
    ensures
        roff_fold(ts, st) == (RoffState { capture: st.capture + texts_of(ts), ..st }),
    decreases ts.len(),
{
    if ts.len() == 0 {
        assert(st.capture + texts_of(ts) =~= st.capture);
    } else {
        let p = ts.drop_last();
        assert forall|i: int| 0 <= i < p.len() implies (#[trigger] p[i]) is Text by {
            assert(p[i] == ts[i]);
        }
        lemma_capture_texts(p, st);
        assert(ts.last() == ts[ts.len() - 1]);
        assert(st.capture + texts_of(p) + match ts.last() {
            Item::Text(s, _) => s,
            _ => Seq::empty(),
        } =~= st.capture + texts_of(ts));
    }
}

/// A level-one section whose block holds only text becomes one `.SH`
/// control line, written when the block ends, whose argument is that text
/// upper-cased; nothing of the text is written elsewhere, and the rest of
/// the rendering state is left as it was.
pub proof fn law_section_title(ts: Seq<Item>, st: RoffState)
    requires
        !st.capturing,
        st.capture == Seq::<char>::empty(),
        forall|i: int| 0 <= i < ts.len() ==> (#[trigger] ts[i]) is Text,
    ensures
        roff_fold(seq![Item::Start(Block::Section1)] + ts + seq![Item::End(Block::Section1)], st) == (
        RoffState {
            out: control_line(st.out, "SH"@, seq![upper_of(texts_of(ts))]),
            capture: Seq::empty(),
            capturing: false,
            ..st
        }),
{
    let open = seq![Item::Start(Block::Section1)];
    let close = seq![Item::End(Block::Section1)];
    lemma_fold_concat(open + ts, close, st);
    lemma_fold_concat(open, ts, st);
    assert(open.drop_last() =~= Seq::<Item>::empty());
    assert(close.drop_last() =~= Seq::<Item>::empty());
    assert(roff_fold(Seq::<Item>::empty(), st) == st);
    assert(open.last() == Item::Start(Block::Section1));
    let s1 = roff_fold(open, st);
    assert(s1 == roff_step(st, Item::Start(Block::Section1)));
    lemma_capture_texts(ts, s1);
    assert(Seq::<char>::empty() + texts_of(ts) =~= texts_of(ts));
    let s2 = roff_fold(ts, s1);
    assert(roff_fold(Seq::<Item>::empty(), s2) == s2);
    assert(close.last() == Item::End(Block::Section1));
    assert(roff_fold(close, s2) == roff_step(s2, Item::End(Block::Section1)));
}

} // verus!
