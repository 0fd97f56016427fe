//! The matching engine: a grammar of flags, switches and positionals,
//! combined by sequence, alternation, repetition, optionality, `anywhere`
//! and `catch`, run against a list of command-line arguments.
use vstd::prelude::*;
use crate::doc::{chars_of, extend_chars, string_of};

verus! {

/// Why a text is not a number.
#[derive(Clone, Copy, Debug, PartialEq, Eq, Structural)]
pub enum NumError {
    Empty,
    InvalidDigit,
    PosOverflow,
}

/// The value of decimal digit `c`, where `c` is one.
pub open spec fn digit_value(c: char) -> Option<nat> {
    if '0' <= c && c <= '9' {
        Some((c as nat - '0' as nat) as nat)
    } else {
        None
    }
}

/// Reads the digits of `s` from index `i` on, after the value `acc` read so
/// far: the first character that is no digit, or the first digit that takes
/// the value past `u64::MAX`, ends the reading with an error.
pub open spec fn digits_from(s: Seq<char>, i: nat, acc: nat) -> Result<u64, NumError>
    decreases s.len() - i,
{
    if i >= s.len() {
        Ok(acc as u64)
    } else {
        match digit_value(s[i as int]) {
            None => Err(NumError::InvalidDigit),
            Some(d) => if acc * 10 + d > u64::MAX {
                Err(NumError::PosOverflow)
            } else {
                digits_from(s, i + 1, acc * 10 + d)
            },
        }
    }
}

/// A text read as an unsigned decimal number, with an optional leading `+`.
pub open spec fn parse_num(s: Seq<char>) -> Result<u64, NumError> {
    if s.len() == 0 {
        Err(NumError::Empty)
    } else if s[0] == '+' {
        if s.len() == 1 {
            Err(NumError::InvalidDigit)
        } else {
            digits_from(s, 1, 0)
        }
    } else {
        digits_from(s, 0, 0)
    }
}

/// Reads `s` as an unsigned decimal number.
pub fn parse_number(s: &Vec<char>) -> (r: Result<u64, NumError>)
    ensures
        r == parse_num(s@),
{
    if s.len() == 0 {
        return Err(NumError::Empty);
    }
    let mut i: usize = 0;
    if s[0] == '+' {
        if s.len() == 1 {
            return Err(NumError::InvalidDigit);
        }
        i = 1;
    }
    let mut acc: u64 = 0;
    while i < s.len()
        invariant
            i <= s@.len(),
            parse_num(s@) == digits_from(s@, i as nat, acc as nat),
        decreases s@.len() - i,
    {
        let c = s[i];
        if !('0' <= c && c <= '9') {
            assert(digit_value(c) is None);
            return Err(NumError::InvalidDigit);
        }
        let d = (c as u32 - '0' as u32) as u64;
        assert(digit_value(c) == Some(d as nat));
        if acc > 1844674407370955161 || (acc == 1844674407370955161 && d > 5) {
            assert(acc * 10 + d > u64::MAX) by (nonlinear_arith)
                requires
                    acc > 1844674407370955161 || (acc == 1844674407370955161 && d > 5),
            ;
            return Err(NumError::PosOverflow);
        }
        assert(acc * 10 + d <= u64::MAX) by (nonlinear_arith)
            requires
                !(acc > 1844674407370955161 || (acc == 1844674407370955161 && d > 5)),
                d <= 9,
        ;
        acc = acc * 10 + d;
        i += 1;
    }
    Ok(acc)
}

/// A grammar: what to look for in the arguments.
#[derive(Debug)]
pub enum Grammar {
    /// A flag that must be present, such as `-a`; its value is `Unit`.
    Flag(Vec<char>),
    /// A flag that may be present; its value says whether it is.
    Switch(Vec<char>),
    /// A flag with a value, as the next argument or joined to the flag by
    /// `=`; shown as `<metavar>`.
    Argument { name: Vec<char>, metavar: Vec<char> },
    /// A value by position, shown as its metavar; read as a number where
    /// `numeric` is set, else named by its index among the arguments.
    Positional { metavar: Vec<char>, numeric: bool },
    /// Both parts, the first one first.
    Pair(Box<Grammar>, Box<Grammar>),
    /// The first part, or where it fails, the second.
    Alt(Box<Grammar>, Box<Grammar>),
    /// The part as often as it matches.
    Many(Box<Grammar>),
    /// The part, or nothing where it is absent.
    Optional(Box<Grammar>),
    /// The part, matched on adjacent arguments starting anywhere.
    Anywhere(Box<Grammar>),
    /// The part, matched on adjacent arguments from the first one left.
    Adjacent(Box<Grammar>),
    /// The part, with a broken match counting as not applicable.
    Catch(Box<Grammar>),
    /// The part, where a number it yields must be at most `max`; else the
    /// failure carries `message`.
    Guard { inner: Box<Grammar>, max: u64, message: Vec<char> },
    /// The part, or the number given where it is absent.
    Fallback(Box<Grammar>, u64),
}

impl Grammar {
    /// A required short flag `-c`.
    pub fn short(c: char) -> (g: Grammar)
        ensures
            g matches Grammar::Flag(n) && n@ == seq!['-', c],
    {
        let mut n: Vec<char> = Vec::new();
        n.push('-');
        n.push(c);
        assert(n@ =~= seq!['-', c]);
        Grammar::Flag(n)
    }

    /// A short switch `-c`.
    pub fn switch(c: char) -> (g: Grammar)
        ensures
            g matches Grammar::Switch(n) && n@ == seq!['-', c],
    {
        let mut n: Vec<char> = Vec::new();
        n.push('-');
        n.push(c);
        assert(n@ =~= seq!['-', c]);
        Grammar::Switch(n)
    }

    /// A flag `name` with a value shown as `<metavar>`.
    pub fn argument(name: &str, metavar: &str) -> (g: Grammar)
        ensures
            g matches Grammar::Argument { name: n, metavar: m } && n@ == name@ && m@ == metavar@,
    {
        Grammar::Argument { name: chars_of(name), metavar: chars_of(metavar) }
    }

    /// A positional shown as `<metavar>`, read as a number where `numeric`.
    pub fn positional(metavar: &str, numeric: bool) -> (g: Grammar)
        ensures
            g matches Grammar::Positional { metavar: m, numeric: k } && m@ == metavar@ && k == numeric,
    {
        Grammar::Positional { metavar: chars_of(metavar), numeric }
    }

    /// This grammar, then `other`.
    pub fn pair(self, other: Grammar) -> (g: Grammar)
        ensures
            g == Grammar::Pair(Box::new(self), Box::new(other)),
    {
        Grammar::Pair(Box::new(self), Box::new(other))
    }

    /// This grammar, or where it fails, `other`.
    pub fn or_else(self, other: Grammar) -> (g: Grammar)
        ensures
            g == Grammar::Alt(Box::new(self), Box::new(other)),
    {
        Grammar::Alt(Box::new(self), Box::new(other))
    }

    /// This grammar, repeated.
    pub fn many(self) -> (g: Grammar)
        ensures
            g == Grammar::Many(Box::new(self)),
    {
        Grammar::Many(Box::new(self))
    }

    /// This grammar, or nothing.
    pub fn optional(self) -> (g: Grammar)
        ensures
            g == Grammar::Optional(Box::new(self)),
    {
        Grammar::Optional(Box::new(self))
    }

    /// This grammar, on adjacent arguments starting anywhere.
    pub fn anywhere(self) -> (g: Grammar)
        ensures
            g == Grammar::Anywhere(Box::new(self)),
    {
        Grammar::Anywhere(Box::new(self))
    }

    /// This grammar, where a number it yields must be at most `max`.
    pub fn guard(self, max: u64, message: &str) -> (g: Grammar)
        ensures
            g matches Grammar::Guard { inner, max: m, message: t } && *inner == self && m == max && t@
                == message@,
    {
        Grammar::Guard { inner: Box::new(self), max, message: chars_of(message) }
    }

    /// This grammar, or the number `d` where it is absent.
    pub fn fallback(self, d: u64) -> (g: Grammar)
        ensures
            g == Grammar::Fallback(Box::new(self), d),
    {
        Grammar::Fallback(Box::new(self), d)
    }

    /// This grammar, on adjacent arguments from the first one left.
    pub fn adjacent(self) -> (g: Grammar)
        ensures
            g == Grammar::Adjacent(Box::new(self)),
    {
        Grammar::Adjacent(Box::new(self))
    }

    /// This grammar, with a broken match counting as not applicable.
    pub fn catch(self) -> (g: Grammar)
        ensures
            g == Grammar::Catch(Box::new(self)),
    {
        Grammar::Catch(Box::new(self))
    }
}

/// What a grammar yields.
#[derive(Debug, PartialEq, Eq)]
pub enum Value {
    Unit,
    Bool(bool),
    Num(u64),
    /// The argument at this index.
    Arg(usize),
    /// What follows the first `=` in the argument at this index.
    Joined(usize),
    Pair(Box<Value>, Box<Value>),
    Nil,
    Cons(Box<Value>, Box<Value>),
    Absent,
    Present(Box<Value>),
}

/// Why matching failed.
#[derive(Debug, PartialEq, Eq)]
pub enum ErrKind {
    /// Something expected is not there.
    Missing(Vec<char>),
    /// The value of a positional is expected, and the argument at the index is a flag.
    NoArgument(Vec<char>, usize),
    /// The argument at the index is not a number.
    Invalid(usize, NumError),
    /// The part with this usage does not apply here.
    NotApplicable(Vec<char>),
    /// A value was rejected by a guard with this message.
    GuardFailed(Vec<char>),
    /// The argument at the index is left over.
    Unexpected(usize),
}

/// A failure, and how many arguments were taken when it came.
#[derive(Debug, PartialEq, Eq)]
pub struct ParseError {
    pub kind: ErrKind,
    pub depth: usize,
}

/// A failure in terms of character sequences.
pub enum Fail {
    Missing(Seq<char>),
    NoArgument(Seq<char>, nat),
    Invalid(nat, NumError),
    NotApplicable(Seq<char>),
    GuardFailed(Seq<char>),
    Unexpected(nat),
}

pub struct SpecError {
    pub kind: Fail,
    pub depth: nat,
}

impl ParseError {
    pub open spec fn view(&self) -> SpecError {
        SpecError {
            kind: match self.kind {
                ErrKind::Missing(e) => Fail::Missing(e@),
                ErrKind::NoArgument(e, i) => Fail::NoArgument(e@, i as nat),
                ErrKind::Invalid(i, n) => Fail::Invalid(i as nat, n),
                ErrKind::NotApplicable(u) => Fail::NotApplicable(u@),
                ErrKind::GuardFailed(m) => Fail::GuardFailed(m@),
                ErrKind::Unexpected(i) => Fail::Unexpected(i as nat),
            },
            depth: self.depth as nat,
        }
    }
}

/// An argument is flag-shaped where it has a leading `-` and more.
pub open spec fn is_flag(a: Seq<char>) -> bool {
    a.len() >= 2 && a[0] == '-'
}

/// How many arguments are taken.
pub open spec fn taken(st: Seq<bool>) -> nat
    decreases st.len(),
{
    if st.len() == 0 {
        0
    } else {
        taken(st.drop_last()) + if st.last() {
            1nat
        } else {
            0nat
        }
    }
}

/// How many arguments are left.
pub open spec fn left(st: Seq<bool>) -> nat {
    (st.len() - taken(st)) as nat
}

/// The first index from `i` on of an argument that is left and equals `name`.
pub open spec fn find_from(args: Seq<Seq<char>>, st: Seq<bool>, name: Seq<char>, i: nat) -> Option<nat>
    decreases st.len() - i,
{
    if i >= st.len() {
        None
    } else if !st[i as int] && args[i as int] == name {
        Some(i)
    } else {
        find_from(args, st, name, i + 1)
    }
}

/// The first index from `i` on of an argument that is left and, unless
/// `any`, not flag-shaped.
pub open spec fn free_from(args: Seq<Seq<char>>, st: Seq<bool>, any: bool, i: nat) -> Option<nat>
    decreases st.len() - i,
{
    if i >= st.len() {
        None
    } else if !st[i as int] && (any || !is_flag(args[i as int])) {
        Some(i)
    } else {
        free_from(args, st, any, i + 1)
    }
}

/// The state with the arguments before `p` hidden, as if taken.
pub open spec fn hide_before(st: Seq<bool>, p: nat) -> Seq<bool> {
    Seq::new(st.len(), |i: int| i < p || st[i])
}

/// The state `st` with what a match from `p` on took in `st2`.
pub open spec fn merge_from(st: Seq<bool>, st2: Seq<bool>, p: nat) -> Seq<bool> {
    Seq::new(st.len(), |i: int| st[i] || (i >= p && st2[i]))
}

/// Whether argument `a` is the flag `name`, or starts with `name=`.
pub open spec fn is_named(a: Seq<char>, name: Seq<char>) -> bool {
    a == name || (a.len() > name.len() && a.take(name.len() as int) == name && a[name.len() as int]
        == '=')
}

/// The first index from `i` on of an argument that is left and is named
/// `name`, alone or with a joined value.
pub open spec fn find_named(args: Seq<Seq<char>>, st: Seq<bool>, name: Seq<char>, i: nat) -> Option<nat>
    decreases st.len() - i,
{
    if i >= st.len() {
        None
    } else if !st[i as int] && is_named(args[i as int], name) {
        Some(i)
    } else {
        find_named(args, st, name, i + 1)
    }
}

/// Where an argument flag named `name` is found; in adjacent mode only the
/// first argument left counts.
pub open spec fn locate_named(args: Seq<Seq<char>>, st: Seq<bool>, name: Seq<char>, adj: bool) -> Option<nat> {
    if adj {
        match free_from(args, st, true, 0) {
            Some(i) => if is_named(args[i as int], name) {
                Some(i)
            } else {
                None
            },
            None => None,
        }
    } else {
        find_named(args, st, name, 0)
    }
}

/// Where a flag named `name` is found: the first argument left that equals
/// it, or in adjacent mode, the first argument left where it equals it.
pub open spec fn locate(args: Seq<Seq<char>>, st: Seq<bool>, name: Seq<char>, adj: bool) -> Option<nat> {
    if adj {
        match free_from(args, st, true, 0) {
            Some(i) => if args[i as int] == name {
                Some(i)
            } else {
                None
            },
            None => None,
        }
    } else {
        find_from(args, st, name, 0)
    }
}

/// The usage text of a grammar.
pub open spec fn usage(g: Grammar) -> Seq<char>
    decreases g,
{
    match g {
        Grammar::Flag(n) => n@,
        Grammar::Switch(n) => seq!['['] + n@ + seq![']'],
        Grammar::Argument { name, metavar } => name@ + seq![' '] + metavar@,
        Grammar::Positional { metavar, .. } => metavar@,
        Grammar::Pair(a, b) => usage(*a) + seq![' '] + usage(*b),
        Grammar::Alt(a, b) => usage(*a) + seq![' ', '|', ' '] + usage(*b),
        Grammar::Many(a) => usage(*a) + seq!['.', '.', '.'],
        Grammar::Optional(a) => seq!['['] + usage(*a) + seq![']'],
        Grammar::Anywhere(a) => usage(*a),
        Grammar::Adjacent(a) => usage(*a),
        Grammar::Catch(a) => usage(*a),
        Grammar::Guard { inner, .. } => usage(*inner),
        Grammar::Fallback(a, _) => seq!['['] + usage(*a) + seq![']'],
    }
}

/// Failures that mean "not there": an optional part, a repetition and an
/// alternative recover from them. A broken or rejected value does not count.
pub open spec fn recoverable(e: SpecError) -> bool {
    !(e.kind is Invalid) && !(e.kind is GuardFailed)
}

/// What a guard with bound `max` accepts: anything but a number above it.
pub open spec fn guard_ok(v: Value, max: u64) -> bool {
    match v {
        Value::Num(n) => n <= max,
        _ => true,
    }
}

/// Of two failures of competing branches, the one to report: the deeper,
/// and on a tie the first, unless the first is "not applicable" and the
/// second is not.
pub open spec fn prefer(a: SpecError, b: SpecError) -> SpecError {
    if b.depth > a.depth {
        b
    } else if b.depth == a.depth && (a.kind is NotApplicable) && !(b.kind is NotApplicable) {
        b
    } else {
        a
    }
}

pub type Outcome = Result<(Value, Seq<bool>), SpecError>;

/// What grammar `g` does on the arguments `args`, where `st` marks those
/// already taken. In adjacent mode (`adj`) each primitive looks only at the
/// first argument left, so that a match takes adjacent arguments.
pub open spec fn run(g: Grammar, args: Seq<Seq<char>>, st: Seq<bool>, adj: bool) -> Outcome
    decreases g, 0nat, left(st),
{
    match g {
        Grammar::Flag(n) => {
            let at = locate(args, st, n@, adj);
            match at {
                Some(i) => Ok((Value::Unit, st.update(i as int, true))),
                None => Err(SpecError { kind: Fail::Missing(n@), depth: taken(st) }),
            }
        },
        Grammar::Switch(n) => {
            let at = locate(args, st, n@, adj);
            match at {
                Some(i) => Ok((Value::Bool(true), st.update(i as int, true))),
                None => Ok((Value::Bool(false), st)),
            }
        },
        Grammar::Argument { name, metavar } => {
            let shown = seq!['<'] + metavar@ + seq!['>'];
            match locate_named(args, st, name@, adj) {
                None => Err(SpecError { kind: Fail::Missing(name@ + seq![' '] + shown), depth: taken(st) }),
                Some(i) => if args[i as int] != name@ {
                    Ok((Value::Joined(i as usize), st.update(i as int, true)))
                } else if i + 1 >= st.len() || st[i + 1 as int] {
                    Err(SpecError { kind: Fail::Missing(shown), depth: taken(st) + 1 })
                } else if is_flag(args[i + 1 as int]) {
                    Err(SpecError { kind: Fail::NoArgument(shown, i + 1), depth: taken(st) + 1 })
                } else {
                    Ok((Value::Arg((i + 1) as usize), st.update(i as int, true).update(i + 1 as int, true)))
                },
            }
        },
        Grammar::Positional { metavar, numeric } => {
            let shown = seq!['<'] + metavar@ + seq!['>'];
            match free_from(args, st, adj, 0) {
                None => Err(SpecError { kind: Fail::Missing(shown), depth: taken(st) }),
                Some(i) => if is_flag(args[i as int]) {
                    Err(SpecError { kind: Fail::NoArgument(shown, i), depth: taken(st) + 1 })
                } else if numeric {
                    match parse_num(args[i as int]) {
                        Ok(n) => Ok((Value::Num(n), st.update(i as int, true))),
                        Err(e) => Err(SpecError { kind: Fail::Invalid(i, e), depth: taken(st) + 1 }),
                    }
                } else {
                    Ok((Value::Arg(i as usize), st.update(i as int, true)))
                },
            }
        },
        Grammar::Pair(a, b) => match run(*a, args, st, adj) {
            Err(e) => Err(e),
            Ok((va, st1)) => match run(*b, args, st1, adj) {
                Err(e) => Err(e),
                Ok((vb, st2)) => Ok((Value::Pair(Box::new(va), Box::new(vb)), st2)),
            },
        },
        Grammar::Alt(a, b) => match run(*a, args, st, adj) {
            Ok(r) => Ok(r),
            Err(ea) => match run(*b, args, st, adj) {
                Ok(r) => Ok(r),
                Err(eb) => Err(prefer(ea, eb)),
            },
        },
        Grammar::Many(a) => match run(*a, args, st, adj) {
            Err(e) => if recoverable(e) {
                Ok((Value::Nil, st))
            } else {
                Err(e)
            },
            Ok((v, st1)) => if st1.len() == st.len() && left(st1) < left(st) {
                match run(Grammar::Many(a), args, st1, adj) {
                    Ok((vs, st2)) => Ok((Value::Cons(Box::new(v), Box::new(vs)), st2)),
                    Err(e) => Err(e),
                }
            } else {
                Ok((Value::Cons(Box::new(v), Box::new(Value::Nil)), st1))
            },
        },
        Grammar::Optional(a) => match run(*a, args, st, adj) {
            Ok((v, st1)) => Ok((Value::Present(Box::new(v)), st1)),
            Err(e) => if recoverable(e) {
                Ok((Value::Absent, st))
            } else {
                Err(e)
            },
        },
        Grammar::Anywhere(a) => scan(*a, args, st, 0),
        Grammar::Adjacent(a) => run(*a, args, st, true),
        Grammar::Catch(a) => match run(*a, args, st, adj) {
            Ok(r) => Ok(r),
            Err(e) => if (e.kind is Invalid) || (e.kind is NoArgument) {
                Err(SpecError { kind: Fail::NotApplicable(usage(*a)), depth: e.depth })
            } else {
                Err(e)
            },
        },
        Grammar::Guard { inner, max, message } => match run(*inner, args, st, adj) {
            Ok((v, st1)) => if guard_ok(v, max) {
                Ok((v, st1))
            } else {
                Err(SpecError { kind: Fail::GuardFailed(message@), depth: taken(st1) })
            },
            Err(e) => Err(e),
        },
        Grammar::Fallback(a, d) => match run(*a, args, st, adj) {
            Ok(r) => Ok(r),
            Err(e) => if recoverable(e) {
                Ok((Value::Num(d), st))
            } else {
                Err(e)
            },
        },
    }
}

/// `anywhere` from start position `p` on: the first start at which `a`
/// matches adjacent arguments wins; where none does, the failure that
/// `prefer` picks among all starts, the end of the arguments included.
pub open spec fn scan(a: Grammar, args: Seq<Seq<char>>, st: Seq<bool>, p: nat) -> Outcome
    decreases a, 1nat, st.len() + 1 - p,
{
    let r = run(a, args, hide_before(st, p), true);
    match r {
        Ok((v, st2)) => Ok((v, merge_from(st, st2, p))),
        Err(e0) => {
            let e = rebase(e0, taken(hide_before(st, p)), taken(st));
            if p >= st.len() {
            Err(e)
        } else {
                match scan(a, args, st, p + 1) {
                    Ok(x) => Ok(x),
                    Err(e2) => Err(prefer(e, e2)),
                }
            }
        },
    }
}

/// A failure under hidden arguments, with its depth counted as if the
/// arguments hidden beyond the `before` taken ones were not taken.
pub open spec fn rebase(e: SpecError, hidden: nat, before: nat) -> SpecError {
    let extra = if hidden >= before {
        (hidden - before) as nat
    } else {
        0
    };
    SpecError {
        kind: e.kind,
        depth: if e.depth >= extra {
            (e.depth - extra) as nat
        } else {
            0
        },
    }
}

/// The exec result `r` is the outcome `o`.
pub open spec fn same_outcome(r: Result<(Value, Vec<bool>), ParseError>, o: Outcome) -> bool {
    match (r, o) {
        (Ok((v, s)), Ok((v2, s2))) => v == v2 && s@ == s2,
        (Err(e), Err(e2)) => e.view() == e2,
        _ => false,
    }
}

proof fn lemma_taken_free(st: Seq<bool>, i: int)
    requires
        0 <= i < st.len(),
        !st[i],
    ensures
        taken(st) < st.len(),
    decreases st.len(),
{
    lemma_taken_bound(st.drop_last());
    if i < st.len() - 1 {
        lemma_taken_free(st.drop_last(), i);
    }
}

proof fn lemma_taken_bound(st: Seq<bool>)
    ensures
        taken(st) <= st.len(),
        (exists|i: int| 0 <= i < st.len() && !st[i]) ==> taken(st) < st.len(),
    decreases st.len(),
{
    if st.len() > 0 {
        lemma_taken_bound(st.drop_last());
        if exists|i: int| 0 <= i < st.len() && !st[i] {
            let i = choose|i: int| 0 <= i < st.len() && !st[i];
            if i < st.len() - 1 {
                assert(!st.drop_last()[i]);
            }
        }
    }
}

fn copy_chars(v: &Vec<char>) -> (r: Vec<char>)
    ensures
        r@ == v@,
{
    let mut r: Vec<char> = Vec::new();
    extend_chars(&mut r, v);
    assert(r@ =~= v@);
    r
}

fn chars_equal(a: &Vec<char>, b: &Vec<char>) -> (r: bool)
    ensures
        r == (a@ == b@),
{
    if a.len() != b.len() {
        return false;
    }
    let mut i: usize = 0;
    while i < a.len()
        invariant
            a@.len() == b@.len(),
            i <= a@.len(),
            forall|j: int| 0 <= j < i ==> a@[j] == b@[j],
        decreases a@.len() - i,
    {
        if a[i] != b[i] {
            return false;
        }
        i += 1;
    }
    assert(a@ =~= b@);
    true
}

fn flag_shaped(a: &Vec<char>) -> (r: bool)
    ensures
        r == is_flag(a@),
{
    a.len() >= 2 && a[0] == '-'
}

fn count_taken(st: &Vec<bool>) -> (r: usize)
    ensures
        r == taken(st@),
{
    let mut n: usize = 0;
    let mut i: usize = 0;
    while i < st.len()
        invariant
            i <= st@.len(),
            n == taken(st@.take(i as int)),
            n <= i,
        decreases st@.len() - i,
    {
        proof {
            assert(st@.take(i + 1).drop_last() =~= st@.take(i as int));
        }
        if st[i] {
            n += 1;
        }
        i += 1;
    }
    assert(st@.take(i as int) =~= st@);
    n
}

fn find_arg(args: &Vec<Vec<char>>, st: &Vec<bool>, name: &Vec<char>) -> (r: Option<usize>)
    requires
        args@.len() == st@.len(),
    ensures
        match r {
            Some(i) => find_from(args.deep_view(), st@, name@, 0) == Some(i as nat) && i < st@.len() && !st@[i as int],
            None => find_from(args.deep_view(), st@, name@, 0) is None,
        },
{
    let mut i: usize = 0;
    while i < st.len()
        invariant
            args@.len() == st@.len(),
            i <= st@.len(),
            find_from(args.deep_view(), st@, name@, 0) == find_from(args.deep_view(), st@, name@, i as nat),
        decreases st@.len() - i,
    {
        assert(args.deep_view()[i as int] == args@[i as int]@);
        if !st[i] && chars_equal(&args[i], name) {
            return Some(i);
        }
        i += 1;
    }
    None
}

fn free_arg(args: &Vec<Vec<char>>, st: &Vec<bool>, any: bool) -> (r: Option<usize>)
    requires
        args@.len() == st@.len(),
    ensures
        match r {
            Some(i) => free_from(args.deep_view(), st@, any, 0) == Some(i as nat) && i < st@.len() && !st@[i as int],
            None => free_from(args.deep_view(), st@, any, 0) is None,
        },
{
    let mut i: usize = 0;
    while i < st.len()
        invariant
            args@.len() == st@.len(),
            i <= st@.len(),
            free_from(args.deep_view(), st@, any, 0) == free_from(args.deep_view(), st@, any, i as nat),
        decreases st@.len() - i,
    {
        assert(args.deep_view()[i as int] == args@[i as int]@);
        if !st[i] && (any || !flag_shaped(&args[i])) {
            return Some(i);
        }
        i += 1;
    }
    None
}

fn hidden_before(st: &Vec<bool>, p: usize) -> (r: Vec<bool>)
    ensures
        r@ == hide_before(st@, p as nat),
{
    let mut r: Vec<bool> = Vec::new();
    let mut i: usize = 0;
    while i < st.len()
        invariant
            i <= st@.len(),
            r@ == hide_before(st@, p as nat).take(i as int),
        decreases st@.len() - i,
    {
        r.push(i < p || st[i]);
        i += 1;
        assert(r@ =~= hide_before(st@, p as nat).take(i as int));
    }
    assert(r@ =~= hide_before(st@, p as nat));
    r
}

fn merge(st: &Vec<bool>, st2: &Vec<bool>, p: usize) -> (r: Vec<bool>)
    requires
        st2@.len() == st@.len(),
    ensures
        r@ == merge_from(st@, st2@, p as nat),
{
    let mut r: Vec<bool> = Vec::new();
    let mut i: usize = 0;
    while i < st.len()
        invariant
            st2@.len() == st@.len(),
            i <= st@.len(),
            r@ == merge_from(st@, st2@, p as nat).take(i as int),
        decreases st@.len() - i,
    {
        r.push(st[i] || (i >= p && st2[i]));
        i += 1;
        assert(r@ =~= merge_from(st@, st2@, p as nat).take(i as int));
    }
    assert(r@ =~= merge_from(st@, st2@, p as nat));
    r
}

fn take_at(st: &Vec<bool>, i: usize) -> (r: Vec<bool>)
    requires
        i < st@.len(),
    ensures
        r@ == st@.update(i as int, true),
{
    let mut r: Vec<bool> = Vec::new();
    let mut j: usize = 0;
    while j < st.len()
        invariant
            i < st@.len(),
            j <= st@.len(),
            r@ == st@.update(i as int, true).take(j as int),
        decreases st@.len() - j,
    {
        r.push(j == i || st[j]);
        j += 1;
        assert(r@ =~= st@.update(i as int, true).take(j as int));
    }
    assert(r@ =~= st@.update(i as int, true));
    r
}

fn copy_state(st: &Vec<bool>) -> (r: Vec<bool>)
    ensures
        r@ == st@,
{
    let mut r: Vec<bool> = Vec::new();
    let mut j: usize = 0;
    while j < st.len()
        invariant
            j <= st@.len(),
            r@ == st@.take(j as int),
        decreases st@.len() - j,
    {
        r.push(st[j]);
        j += 1;
        assert(r@ =~= st@.take(j as int));
    }
    assert(r@ =~= st@);
    r
}

/// The usage text of a grammar.
pub fn usage_text(g: &Grammar) -> (r: Vec<char>)
    ensures
        r@ == usage(*g),
    decreases *g,
{
    match g {
        Grammar::Flag(n) => copy_chars(n),
        Grammar::Switch(n) => {
            let mut r: Vec<char> = Vec::new();
            r.push('[');
            extend_chars(&mut r, n);
            r.push(']');
            assert(r@ =~= usage(*g));
            r
        },
        Grammar::Argument { name, metavar } => {
            let mut r = copy_chars(name);
            r.push(' ');
            extend_chars(&mut r, metavar);
            r
        },
        Grammar::Positional { metavar, .. } => copy_chars(metavar),
        Grammar::Pair(a, b) => {
            let mut r = usage_text(a);
            r.push(' ');
            extend_chars(&mut r, &usage_text(b));
            r
        },
        Grammar::Alt(a, b) => {
            let mut r = usage_text(a);
            r.push(' ');
            r.push('|');
            r.push(' ');
            extend_chars(&mut r, &usage_text(b));
            assert(r@ =~= usage(*g));
            r
        },
        Grammar::Many(a) => {
            let mut r = usage_text(a);
            r.push('.');
            r.push('.');
            r.push('.');
            assert(r@ =~= usage(*g));
            r
        },
        Grammar::Optional(a) => {
            let mut r: Vec<char> = Vec::new();
            r.push('[');
            extend_chars(&mut r, &usage_text(a));
            r.push(']');
            assert(r@ =~= usage(*g));
            r
        },
        Grammar::Anywhere(a) => usage_text(a),
        Grammar::Adjacent(a) => usage_text(a),
        Grammar::Catch(a) => usage_text(a),
        Grammar::Guard { inner, .. } => usage_text(inner),
        Grammar::Fallback(a, _) => {
            let mut r: Vec<char> = Vec::new();
            r.push('[');
            extend_chars(&mut r, &usage_text(a));
            r.push(']');
            assert(r@ =~= usage(*g));
            r
        },
    }
}

fn is_recoverable(e: &ParseError) -> (r: bool)
    ensures
        r == recoverable(e.view()),
{
    match e.kind {
        ErrKind::Invalid(..) | ErrKind::GuardFailed(..) => false,
        _ => true,
    }
}

fn pick(a: ParseError, b: ParseError) -> (r: ParseError)
    ensures
        r.view() == prefer(a.view(), b.view()),
{
    if b.depth > a.depth {
        b
    } else if b.depth == a.depth && matches!(a.kind, ErrKind::NotApplicable(_)) && !matches!(b.kind, ErrKind::NotApplicable(_)) {
        b
    } else {
        a
    }
}

/// Whether `a` is the flag `name`, or starts with `name=`.
fn named(a: &Vec<char>, name: &Vec<char>) -> (r: bool)
    ensures
        r == is_named(a@, name@),
{
    if chars_equal(a, name) {
        return true;
    }
    if a.len() <= name.len() {
        return false;
    }
    let mut i: usize = 0;
    while i < name.len()
        invariant
            name@.len() < a@.len(),
            i <= name@.len(),
            forall|j: int| 0 <= j < i ==> a@[j] == name@[j],
        decreases name@.len() - i,
    {
        if a[i] != name[i] {
            assert(a@.take(name@.len() as int)[i as int] != name@[i as int]);
            return false;
        }
        i += 1;
    }
    assert(a@.take(name@.len() as int) =~= name@);
    a[name.len()] == '='
}

fn locate_argument(args: &Vec<Vec<char>>, st: &Vec<bool>, name: &Vec<char>, adj: bool) -> (r: Option<usize>)
    requires
        args@.len() == st@.len(),
    ensures
        match r {
            Some(i) => locate_named(args.deep_view(), st@, name@, adj) == Some(i as nat) && i < st@.len()
                && !st@[i as int],
            None => locate_named(args.deep_view(), st@, name@, adj) is None,
        },
{
    if adj {
        match free_arg(args, st, true) {
            Some(i) => {
                assert(args.deep_view()[i as int] == args@[i as int]@);
                if named(&args[i], name) {
                    Some(i)
                } else {
                    None
                }
            },
            None => None,
        }
    } else {
        let mut i: usize = 0;
        while i < st.len()
            invariant
                args@.len() == st@.len(),
                i <= st@.len(),
                find_named(args.deep_view(), st@, name@, 0) == find_named(args.deep_view(), st@, name@, i as nat),
                !adj,
            decreases st@.len() - i,
        {
            assert(args.deep_view()[i as int] == args@[i as int]@);
            if !st[i] && named(&args[i], name) {
                assert(find_named(args.deep_view(), st@, name@, i as nat) == Some(i as nat));
                return Some(i);
            }
            i += 1;
        }
        None
    }
}

fn locate_flag(args: &Vec<Vec<char>>, st: &Vec<bool>, name: &Vec<char>, adj: bool) -> (r: Option<usize>)
    requires
        args@.len() == st@.len(),
    ensures
        match r {
            Some(i) => locate(args.deep_view(), st@, name@, adj) == Some(i as nat) && i < st@.len() && !st@[i as int],
            None => locate(args.deep_view(), st@, name@, adj) is None,
        },
{
    if adj {
        match free_arg(args, st, true) {
            Some(i) => {
                assert(args.deep_view()[i as int] == args@[i as int]@);
                let eq = chars_equal(&args[i], name);
                assert(eq == (args.deep_view()[i as int] == name@));
                if eq {
                    Some(i)
                } else {
                    None
                }
            },
            None => None,
        }
    } else {
        find_arg(args, st, name)
    }
}

/// Runs grammar `g` on the arguments `args`, where `st` marks those
/// already taken; in adjacent mode (`adj`) each primitive looks only at the
/// first argument left.
pub fn run_grammar(g: &Grammar, args: &Vec<Vec<char>>, st: &Vec<bool>, adj: bool) -> (r: Result<
    (Value, Vec<bool>),
    ParseError,
>)
    requires
        args@.len() == st@.len(),
    ensures
        same_outcome(r, run(*g, args.deep_view(), st@, adj)),
        r matches Ok((_, s)) ==> s@.len() == st@.len(),
    decreases *g, 0nat, left(st@),
{
    proof {
        lemma_taken_bound(st@);
    }
    match g {
        Grammar::Flag(n) => match locate_flag(args, st, n, adj) {
            Some(i) => Ok((Value::Unit, take_at(st, i))),
            None => Err(ParseError { kind: ErrKind::Missing(copy_chars(n)), depth: count_taken(st) }),
        },
        Grammar::Switch(n) => match locate_flag(args, st, n, adj) {
            Some(i) => Ok((Value::Bool(true), take_at(st, i))),
            None => Ok((Value::Bool(false), copy_state(st))),
        },
        Grammar::Argument { name, metavar } => {
            let mut shown: Vec<char> = Vec::new();
            shown.push('<');
            extend_chars(&mut shown, metavar);
            shown.push('>');
            assert(shown@ =~= seq!['<'] + metavar@ + seq!['>']);
            match locate_argument(args, st, name, adj) {
                None => {
                    let mut what = copy_chars(name);
                    what.push(' ');
                    extend_chars(&mut what, &shown);
                    assert(what@ =~= name@ + seq![' '] + shown@);
                    Err(ParseError { kind: ErrKind::Missing(what), depth: count_taken(st) })
                },
                Some(i) => {
                    assert(args.deep_view()[i as int] == args@[i as int]@);
                    proof {
                        lemma_taken_free(st@, i as int);
                    }
                    let _n = st.len();
                    if !chars_equal(&args[i], name) {
                        Ok((Value::Joined(i), take_at(st, i)))
                    } else if i + 1 >= st.len() || st[i + 1] {
                        Err(ParseError { kind: ErrKind::Missing(shown), depth: count_taken(st) + 1 })
                    } else {
                        assert(args.deep_view()[i + 1] == args@[i + 1]@);
                        if flag_shaped(&args[i + 1]) {
                            Err(ParseError { kind: ErrKind::NoArgument(shown, i + 1), depth: count_taken(st) + 1 })
                        } else {
                            let st1 = take_at(st, i);
                            Ok((Value::Arg(i + 1), take_at(&st1, i + 1)))
                        }
                    }
                },
            }
        },
        Grammar::Positional { metavar, numeric } => {
            let mut shown: Vec<char> = Vec::new();
            shown.push('<');
            extend_chars(&mut shown, metavar);
            shown.push('>');
            assert(shown@ =~= seq!['<'] + metavar@ + seq!['>']);
            match free_arg(args, st, adj) {
                None => Err(ParseError { kind: ErrKind::Missing(shown), depth: count_taken(st) }),
                Some(i) => {
                    assert(args.deep_view()[i as int] == args@[i as int]@);
                    assert(0 <= i < st@.len() && !st@[i as int]);
                    proof {
                        lemma_taken_free(st@, i as int);
                    }
                    let _n = st.len();
                    if flag_shaped(&args[i]) {
                        Err(ParseError { kind: ErrKind::NoArgument(shown, i), depth: count_taken(st) + 1 })
                    } else if *numeric {
                        match parse_number(&args[i]) {
                            Ok(n) => Ok((Value::Num(n), take_at(st, i))),
                            Err(e) => Err(ParseError { kind: ErrKind::Invalid(i, e), depth: count_taken(st) + 1 }),
                        }
                    } else {
                        Ok((Value::Arg(i), take_at(st, i)))
                    }
                },
            }
        },
        Grammar::Pair(a, b) => match run_grammar(a, args, st, adj) {
            Err(e) => Err(e),
            Ok((va, st1)) => match run_grammar(b, args, &st1, adj) {
                Err(e) => Err(e),
                Ok((vb, st2)) => Ok((Value::Pair(Box::new(va), Box::new(vb)), st2)),
            },
        },
        Grammar::Alt(a, b) => match run_grammar(a, args, st, adj) {
            Ok(r) => Ok(r),
            Err(ea) => match run_grammar(b, args, st, adj) {
                Ok(r) => Ok(r),
                Err(eb) => Err(pick(ea, eb)),
            },
        },
        Grammar::Many(a) => match run_grammar(a, args, st, adj) {
            Err(e) => if is_recoverable(&e) {
                Ok((Value::Nil, copy_state(st)))
            } else {
                Err(e)
            },
            Ok((v, st1)) => {
                proof {
                    lemma_taken_bound(st1@);
                }
                if count_taken(&st1) > count_taken(st) {
                    match run_grammar(g, args, &st1, adj) {
                        Ok((vs, st2)) => Ok((Value::Cons(Box::new(v), Box::new(vs)), st2)),
                        Err(e) => Err(e),
                    }
                } else {
                    Ok((Value::Cons(Box::new(v), Box::new(Value::Nil)), st1))
                }
            },
        },
        Grammar::Optional(a) => match run_grammar(a, args, st, adj) {
            Ok((v, st1)) => Ok((Value::Present(Box::new(v)), st1)),
            Err(e) => if is_recoverable(&e) {
                Ok((Value::Absent, copy_state(st)))
            } else {
                Err(e)
            },
        },
        Grammar::Anywhere(a) => scan_grammar(a, args, st, 0),
        Grammar::Adjacent(a) => run_grammar(a, args, st, true),
        Grammar::Catch(a) => match run_grammar(a, args, st, adj) {
            Ok(r) => Ok(r),
            Err(e) => match e.kind {
                ErrKind::Invalid(..) | ErrKind::NoArgument(..) => Err(
                    ParseError { kind: ErrKind::NotApplicable(usage_text(a)), depth: e.depth },
                ),
                _ => Err(e),
            },
        },
        Grammar::Guard { inner, max, message } => match run_grammar(inner, args, st, adj) {
            Ok((v, st1)) => {
                let ok = match v {
                    Value::Num(n) => n <= *max,
                    _ => true,
                };
                if ok {
                    Ok((v, st1))
                } else {
                    proof {
                        lemma_taken_bound(st1@);
                    }
                    let depth = count_taken(&st1);
                    Err(ParseError { kind: ErrKind::GuardFailed(copy_chars(message)), depth })
                }
            },
            Err(e) => Err(e),
        },
        Grammar::Fallback(a, d) => match run_grammar(a, args, st, adj) {
            Ok(r) => Ok(r),
            Err(e) => if is_recoverable(&e) {
                Ok((Value::Num(*d), copy_state(st)))
            } else {
                Err(e)
            },
        },
    }
}

/// Tries `a` on adjacent arguments from each start position from `p` on.
fn scan_grammar(a: &Grammar, args: &Vec<Vec<char>>, st: &Vec<bool>, p: usize) -> (r: Result<
    (Value, Vec<bool>),
    ParseError,
>)
    requires
        args@.len() == st@.len(),
        p <= st@.len(),
    ensures
        same_outcome(r, scan(*a, args.deep_view(), st@, p as nat)),
        r matches Ok((_, s)) ==> s@.len() == st@.len(),
    decreases *a, 1nat, st@.len() + 1 - p,
{
    let h = hidden_before(st, p);
    match run_grammar(a, args, &h, true) {
        Ok((v, st2)) => Ok((v, merge(st, &st2, p))),
        Err(e0) => {
            let hidden = count_taken(&h);
            let before = count_taken(st);
            let extra = if hidden >= before {
                hidden - before
            } else {
                0
            };
            let depth = if e0.depth >= extra {
                e0.depth - extra
            } else {
                0
            };
            let e = ParseError { kind: e0.kind, depth };
            if p >= st.len() {
                Err(e)
            } else {
                match scan_grammar(a, args, st, p + 1) {
                    Ok(x) => Ok(x),
                    Err(e2) => Err(pick(e, e2)),
                }
            }
        },
    }
}

/// No argument taken yet.
pub open spec fn fresh(n: nat) -> Seq<bool> {
    Seq::new(n, |i: int| false)
}

/// What `g` makes of the arguments `args`: its value, where it matches and
/// leaves no argument over; else the failure, where an argument left over
/// is reported as unexpected.
pub open spec fn parse_args(g: Grammar, args: Seq<Seq<char>>) -> Result<Value, SpecError> {
    match run(g, args, fresh(args.len()), false) {
        Ok((v, st)) => match free_from(args, st, true, 0) {
            Some(i) => Err(SpecError { kind: Fail::Unexpected(i), depth: taken(st) }),
            None => Ok(v),
        },
        Err(e) => Err(e),
    }
}

/// Runs `g` on all of `args`.
pub fn parse(g: &Grammar, args: &Vec<Vec<char>>) -> (r: Result<Value, ParseError>)
    ensures
        match (r, parse_args(*g, args.deep_view())) {
            (Ok(v), Ok(w)) => v == w,
            (Err(e), Err(f)) => e.view() == f,
            _ => false,
        },
{
    let mut st: Vec<bool> = Vec::new();
    let mut i: usize = 0;
    while i < args.len()
        invariant
            i <= args@.len(),
            st@ == fresh(i as nat),
        decreases args@.len() - i,
    {
        st.push(false);
        i += 1;
        assert(st@ =~= fresh(i as nat));
    }
    match run_grammar(g, args, &st, false) {
        Ok((v, st1)) => match free_arg(args, &st1, true) {
            Some(i) => Err(ParseError { kind: ErrKind::Unexpected(i), depth: count_taken(&st1) }),
            None => Ok(v),
        },
        Err(e) => Err(e),
    }
}

/// The argument at index `i`, or nothing where there is none.
pub open spec fn arg_at(args: Seq<Seq<char>>, i: nat) -> Seq<char> {
    if i < args.len() {
        args[i as int]
    } else {
        Seq::empty()
    }
}

/// Why a text is not a number, in words.
pub open spec fn reason(e: NumError) -> Seq<char> {
    match e {
        NumError::Empty => "cannot parse integer from empty string"@,
        NumError::InvalidDigit => "invalid digit found in string"@,
        NumError::PosOverflow => "number too large to fit in target type"@,
    }
}

/// "Expected `what`", with the first argument where there is one, and a
/// pointer to the help.
pub open spec fn expected(args: Seq<Seq<char>>, what: Seq<char>) -> Seq<char> {
    if args.len() > 0 {
        "Expected "@ + what + ", got \""@ + args[0] + "\". Pass --help for usage information"@
    } else {
        "Expected "@ + what + ", pass --help for usage information"@
    }
}

/// The message shown for a failure.
pub open spec fn message(args: Seq<Seq<char>>, e: SpecError) -> Seq<char> {
    match e.kind {
        Fail::Missing(x) => expected(args, x),
        Fail::NotApplicable(u) => expected(args, u),
        Fail::GuardFailed(m) => m,
        Fail::NoArgument(x, i) => "Expected an argument "@ + x + ", got "@ + arg_at(args, i),
        Fail::Invalid(i, n) => "Couldn't parse \""@ + arg_at(args, i) + "\": "@ + reason(n),
        Fail::Unexpected(i) => arg_at(args, i) + " is not expected in this context"@,
    }
}

fn push_str(out: &mut Vec<char>, s: &str)
    ensures
        final(out)@ == old(out)@ + s@,
{
    let cs = chars_of(s);
    extend_chars(out, &cs);
}

fn push_arg_at(out: &mut Vec<char>, args: &Vec<Vec<char>>, i: usize)
    ensures
        final(out)@ == old(out)@ + arg_at(args.deep_view(), i as nat),
{
    if i < args.len() {
        assert(args.deep_view()[i as int] == args@[i as int]@);
        extend_chars(out, &args[i]);
    } else {
        assert(old(out)@ + arg_at(args.deep_view(), i as nat) =~= old(out)@);
    }
}

fn push_expected(out: &mut Vec<char>, args: &Vec<Vec<char>>, what: &Vec<char>)
    ensures
        final(out)@ == old(out)@ + expected(args.deep_view(), what@),
{
    push_str(out, "Expected ");
    extend_chars(out, what);
    if args.len() > 0 {
        assert(args.deep_view()[0] == args@[0]@);
        push_str(out, ", got \"");
        extend_chars(out, &args[0]);
        push_str(out, "\". Pass --help for usage information");
    } else {
        push_str(out, ", pass --help for usage information");
    }
    assert(out@ =~= old(out)@ + expected(args.deep_view(), what@));
}

/// The message shown for a failure on the arguments `args`.
pub fn error_message(args: &Vec<Vec<char>>, e: &ParseError) -> (r: String)
    ensures
        r@ == message(args.deep_view(), e.view()),
{
    let mut out: Vec<char> = Vec::new();
    match &e.kind {
        ErrKind::Missing(x) => push_expected(&mut out, args, x),
        ErrKind::NotApplicable(u) => push_expected(&mut out, args, u),
        ErrKind::GuardFailed(m) => extend_chars(&mut out, m),
        ErrKind::NoArgument(x, i) => {
            push_str(&mut out, "Expected an argument ");
            extend_chars(&mut out, x);
            push_str(&mut out, ", got ");
            push_arg_at(&mut out, args, *i);
        },
        ErrKind::Invalid(i, n) => {
            push_str(&mut out, "Couldn't parse \"");
            push_arg_at(&mut out, args, *i);
            push_str(&mut out, "\": ");
            match n {
                NumError::Empty => push_str(&mut out, "cannot parse integer from empty string"),
                NumError::InvalidDigit => push_str(&mut out, "invalid digit found in string"),
                NumError::PosOverflow => push_str(&mut out, "number too large to fit in target type"),
            }
        },
        ErrKind::Unexpected(i) => {
            push_arg_at(&mut out, args, *i);
            push_str(&mut out, " is not expected in this context");
        },
    }
    assert(out@ =~= message(args.deep_view(), e.view()));
    string_of(&out)
}

/// The characters of each argument.
pub open spec fn args_view(args: Seq<&str>) -> Seq<Seq<char>> {
    Seq::new(args.len(), |i: int| args[i]@)
}

/// Runs `g` on the arguments `args`: the value, or the message to show.
pub fn run_inner(g: &Grammar, args: &Vec<&str>) -> (r: Result<Value, String>)
    ensures
        match (r, parse_args(*g, args_view(args@))) {
            (Ok(v), Ok(w)) => v == w,
            (Err(m), Err(f)) => m@ == message(args_view(args@), f),
            _ => false,
        },
{
    let mut cs: Vec<Vec<char>> = Vec::new();
    let mut i: usize = 0;
    while i < args.len()
        invariant
            i <= args@.len(),
            cs.deep_view() == args_view(args@).take(i as int),
            cs@.len() == i,
        decreases args@.len() - i,
    {
        let c = chars_of(args[i]);
        let ghost prev = cs@;
        let ghost prev_deep = cs.deep_view();
        cs.push(c);
        proof {
            assert forall|j: int| 0 <= j < i + 1 implies cs.deep_view()[j] == args_view(args@)[j] by {
                assert(cs.deep_view()[j] == cs@[j]@);
                if j < i {
                    assert(cs@[j] == prev[j]);
                    assert(prev_deep[j] == args_view(args@).take(i as int)[j]);
                }
            }
        }
        i += 1;
        assert(cs.deep_view() =~= args_view(args@).take(i as int));
    }
    assert(cs.deep_view() =~= args_view(args@));
    match parse(g, &cs) {
        Ok(v) => Ok(v),
        Err(e) => Err(error_message(&cs, &e)),
    }
}

} // verus!
