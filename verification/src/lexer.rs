use crate::op::Op;
use vstd::prelude::*;

verus! {

/// Whether `char::is_alphanumeric` holds of `c`.
pub uninterp spec fn char_is_alphanumeric(c: char) -> bool;

/// One of the first 128 characters.
pub open spec fn is_ascii(c: char) -> bool {
    (c as u32) < 128
}

/// A digit or a letter among the first 128 characters.
pub open spec fn is_ascii_alphanumeric(c: char) -> bool {
    (48 <= c as u32 <= 57) || (65 <= c as u32 <= 90) || (97 <= c as u32 <= 122)
}

/// `char::is_alphanumeric` of the standard library. Its answer depends on the
/// character alone; `char_is_alphanumeric` is the name of that answer. It holds of
/// what is alphabetic or numeric in Unicode; among the first 128 characters
/// these are the digits and the letters.
#[verifier::external_body]
fn is_alphanumeric(c: char) -> (b: bool)
    ensures
        b == char_is_alphanumeric(c),
        is_ascii(c) ==> b == is_ascii_alphanumeric(c),
{
    c.is_alphanumeric()
}

/// Space, tab, carriage return and line feed separate tokens and mean nothing.
pub open spec fn is_blank(c: char) -> bool {
    c == ' ' || c == '\t' || c == '\r' || c == '\n'
}

/// The four symbols of which a repetition folds into one instruction.
pub open spec fn is_run_symbol(c: char) -> bool {
    c == '>' || c == '<' || c == '+' || c == '-'
}

/// The four symbols that each stand for one instruction.
pub open spec fn is_single_symbol(c: char) -> bool {
    c == '.' || c == ',' || c == '[' || c == ']'
}

/// A character that no program may hold: an alphanumeric one.
pub open spec fn is_illegal(c: char) -> bool {
    !is_blank(c) && !is_run_symbol(c) && !is_single_symbol(c) && char_is_alphanumeric(c)
}

/// How many copies of `c` stand in `s` from index `from` on without a break.
pub open spec fn run_len(s: Seq<char>, from: int, c: char) -> nat
    decreases s.len() - from,
{
    if 0 <= from < s.len() && s[from] == c {
        1 + run_len(s, from + 1, c)
    } else {
        0
    }
}

/// The instruction for a run of `n` copies of the run symbol `c`.
pub open spec fn run_op(c: char, n: nat) -> Op {
    if c == '>' {
        Op::PointerInc(n as usize)
    } else if c == '<' {
        Op::PointerDec(n as usize)
    } else if c == '+' {
        Op::ValueInc(n as usize)
    } else {
        Op::ValueDec(n as usize)
    }
}

/// The first index at or after `from` that holds no blank, or the length of `s`.
pub open spec fn skip_blanks(s: Seq<char>, from: int) -> int
    decreases s.len() - from,
{
    if 0 <= from < s.len() && is_blank(s[from]) {
        skip_blanks(s, from + 1)
    } else {
        from
    }
}

/// How many characters the token that starts at `at` takes: a whole run for a run
/// symbol, one character for anything else.
pub open spec fn token_len(s: Seq<char>, at: int) -> nat {
    if is_run_symbol(s[at]) {
        1 + run_len(s, at + 1, s[at])
    } else {
        1
    }
}

/// The instruction of the token that starts at `at`.
pub open spec fn token_op(s: Seq<char>, at: int) -> Op {
    let c = s[at];
    if is_run_symbol(c) {
        run_op(c, run_len(s, at, c))
    } else if c == '.' {
        Op::Output
    } else if c == ',' {
        Op::Input
    } else if c == '[' {
        Op::LLoop
    } else if c == ']' {
        Op::RLoop
    } else {
        Op::Proc(c)
    }
}

/// The instructions of `s` from index `from` to its end.
pub open spec fn lex(s: Seq<char>, from: int) -> Seq<Op>
    decreases s.len() - from,
{
    if from < 0 || from >= s.len() {
        Seq::empty()
    } else if is_blank(s[from]) {
        lex(s, from + 1)
    } else {
        proof {
            lemma_run_len_bound(s, from + 1, s[from]);
        }
        seq![token_op(s, from)] + lex(s, from + token_len(s, from))
    }
}

/// Whether `c` is illegal is what its code says, if `c` is one of the first 128
/// characters: it is illegal if and only if it is a digit or a letter.
pub open spec fn decided(c: char) -> bool {
    is_ascii(c) ==> (is_illegal(c) <==> is_ascii_alphanumeric(c))
}

/// Every character of `s` from index `from` up to index `to` is decided.
pub open spec fn all_decided(s: Seq<char>, from: int, to: int) -> bool {
    forall|k: int| from <= k < to ==> decided(#[trigger] s[k])
}

/// No character of `s` from index `from` up to index `to` is illegal.
pub open spec fn legal_between(s: Seq<char>, from: int, to: int) -> bool {
    forall|k: int| from <= k < to ==> !is_illegal(#[trigger] s[k])
}

/// No character of `s` from index `from` on is illegal.
pub open spec fn all_legal(s: Seq<char>, from: int) -> bool {
    forall|k: int| from <= k < s.len() ==> !is_illegal(#[trigger] s[k])
}

/// The first token at or after `from`, if there is one, does not start with an
/// illegal character.
pub open spec fn next_token_legal(s: Seq<char>, from: int) -> bool {
    skip_blanks(s, from) < s.len() ==> !is_illegal(s[skip_blanks(s, from)])
}

/// A run ends within the source, and it has a first character if the source has
/// the symbol at its start.
pub proof fn lemma_run_len_bound(s: Seq<char>, from: int, c: char)
    requires
        0 <= from <= s.len(),
    ensures
        from + run_len(s, from, c) <= s.len(),
        from < s.len() && s[from] == c ==> run_len(s, from, c) >= 1,
    decreases s.len() - from,
{
    if from < s.len() && s[from] == c {
        lemma_run_len_bound(s, from + 1, c);
    }
}

/// Blanks at the start change nothing: what is skipped is blank, and the
/// instructions from the first character that is not blank are the same.
pub proof fn lemma_skip_blanks(s: Seq<char>, from: int)
    requires
        0 <= from <= s.len(),
    ensures
        from <= skip_blanks(s, from) <= s.len(),
        skip_blanks(s, from) < s.len() ==> !is_blank(s[skip_blanks(s, from)]),
        lex(s, from) == lex(s, skip_blanks(s, from)),
        forall|k: int| from <= k < skip_blanks(s, from) ==> is_blank(#[trigger] s[k]),
    decreases s.len() - from,
{
    if from < s.len() && is_blank(s[from]) {
        lemma_skip_blanks(s, from + 1);
    }
}

/// `k` copies of `c`.
pub open spec fn repeated(c: char, k: nat) -> Seq<char> {
    Seq::new(k, |i: int| c)
}

/// The run length that an instruction carries, if it carries one.
pub open spec fn run_length(op: Op) -> Option<usize> {
    match op {
        Op::PointerInc(n) => Some(n),
        Op::PointerDec(n) => Some(n),
        Op::ValueInc(n) => Some(n),
        Op::ValueDec(n) => Some(n),
        _ => None,
    }
}

proof fn lemma_run_len_exact(s: Seq<char>, from: int, to: int, c: char)
    requires
        0 <= from <= to <= s.len(),
        forall|j: int| from <= j < to ==> s[j] == c,
        to == s.len() || s[to] != c,
    ensures
        run_len(s, from, c) == to - from,
    decreases to - from,
{
    if from < to {
        lemma_run_len_exact(s, from + 1, to, c);
    }
}

/// Run-length folding: a source that is nothing but `k` copies of one run symbol
/// gives exactly one instruction, which carries `k`.
pub proof fn lemma_run_folds(c: char, k: nat)
    requires
        is_run_symbol(c),
        k >= 1,
    ensures
        lex(repeated(c, k), 0) == seq![run_op(c, k)],
{
    let s = repeated(c, k);
    lemma_run_len_exact(s, 0, k as int, c);
    lemma_run_len_exact(s, 1, k as int, c);
    assert(lex(s, k as int) == Seq::<Op>::empty());
    assert(lex(s, 0) =~= seq![run_op(c, k)]);
}

/// Runs do not merge: `k1` copies of one run symbol followed at once by `k2` copies
/// of another give two instructions, the first with `k1` and the second with `k2`.
pub proof fn lemma_runs_stay_apart(c1: char, k1: nat, c2: char, k2: nat)
    requires
        is_run_symbol(c1),
        is_run_symbol(c2),
        c1 != c2,
        k1 >= 1,
        k2 >= 1,
    ensures
        lex(repeated(c1, k1) + repeated(c2, k2), 0) == seq![run_op(c1, k1), run_op(c2, k2)],
{
    let s = repeated(c1, k1) + repeated(c2, k2);
    let m = k1 as int;
    let n = (k1 + k2) as int;
    lemma_run_len_exact(s, 0, m, c1);
    lemma_run_len_exact(s, 1, m, c1);
    lemma_run_len_exact(s, m, n, c2);
    lemma_run_len_exact(s, m + 1, n, c2);
    assert(lex(s, n) == Seq::<Op>::empty());
    assert(lex(s, m) =~= seq![run_op(c2, k2)]);
    assert(lex(s, 0) =~= seq![run_op(c1, k1), run_op(c2, k2)]);
}

/// No instruction that the lexer gives carries a run length of zero.
pub proof fn lemma_no_empty_run(s: Seq<char>, from: int, i: int)
    requires
        0 <= from,
        s.len() <= usize::MAX,
        0 <= i < lex(s, from).len(),
    ensures
        run_length(lex(s, from)[i]) != Some(0usize),
    decreases s.len() - from,
{
    if from < s.len() {
        if is_blank(s[from]) {
            lemma_no_empty_run(s, from + 1, i);
        } else {
            lemma_run_len_bound(s, from, s[from]);
            lemma_run_len_bound(s, from + 1, s[from]);
            if i > 0 {
                lemma_no_empty_run(s, from + token_len(s, from), i - 1);
            }
        }
    }
}

/// Where lexing went wrong.
#[derive(Clone, Copy, Debug, PartialEq, Eq, Structural)]
pub enum LexError {
    /// The source holds an alphanumeric character, at `position`.
    IllegalCharacter { position: usize, character: char },
}

/// A cursor over the source characters. The cursor may stand past the end of the
/// source, where there is nothing to read.
pub struct Lexer {
    buffer: Vec<char>,
    ptr: usize,
}

fn is_symbol_or_blank(c: char) -> (b: bool)
    ensures
        b == (is_blank(c) || is_run_symbol(c) || is_single_symbol(c)),
{
    c == ' ' || c == '\t' || c == '\r' || c == '\n' || c == '>' || c == '<' || c == '+' || c == '-'
        || c == '.' || c == ',' || c == '[' || c == ']'
}

impl Lexer {
    /// The characters that the lexer was made with.
    pub closed spec fn source(&self) -> Seq<char> {
        self.buffer@
    }

    /// The index of the next character to read.
    pub closed spec fn position(&self) -> int {
        self.ptr as int
    }

    /// A lexer at the start of `source`.
    pub fn new(source: Vec<char>) -> (lexer: Lexer)
        ensures
            lexer.source() == source@,
            lexer.position() == 0,
    {
        Lexer { buffer: source, ptr: 0 }
    }

    /// The next character, which stays unread; `None` at the end of the source
    /// and past it.
    pub fn peek(&self) -> (next: Option<&char>)
        ensures
            0 <= self.position() <= usize::MAX,
            self.source().len() <= usize::MAX,
            match next {
                Some(c) => self.position() < self.source().len()
                    && *c == self.source()[self.position()],
                None => self.position() >= self.source().len(),
            },
    {
        if self.ptr < self.buffer.len() {
            Some(&self.buffer[self.ptr])
        } else {
            None
        }
    }

    /// Reads the next character and moves the cursor on by one, also where there
    /// is nothing left to read.
    pub fn eat(&mut self) -> (eaten: Option<&char>)
        requires
            old(self).position() < usize::MAX,
        ensures
            final(self).source() == old(self).source(),
            final(self).position() == old(self).position() + 1,
            match eaten {
                Some(c) => old(self).position() < old(self).source().len()
                    && *c == old(self).source()[old(self).position()],
                None => old(self).position() >= old(self).source().len(),
            },
    {
        let ptr = self.ptr;
        self.ptr += 1;
        if ptr < self.buffer.len() {
            Some(&self.buffer[ptr])
        } else {
            None
        }
    }

    /// Reads the whole run of `c` that starts at the cursor and folds it into one
    /// instruction.
    pub fn eat_while_same(&mut self, c: &char) -> (op: Op)
        requires
            is_run_symbol(*c),
        ensures
            final(self).source() == old(self).source(),
            final(self).position() == old(self).position() + run_len(
                old(self).source(),
                old(self).position(),
                *c,
            ),
            op == run_op(*c, run_len(old(self).source(), old(self).position(), *c)),
    {
        let mut count: usize = 0;
        while self.ptr < self.buffer.len() && self.buffer[self.ptr] == *c
            invariant
                self.buffer@ == old(self).buffer@,
                old(self).ptr <= self.ptr,
                self.ptr <= self.buffer.len() || self.ptr == old(self).ptr,
                count == self.ptr - old(self).ptr,
                run_len(self.buffer@, old(self).ptr as int, *c) == count + run_len(
                    self.buffer@,
                    self.ptr as int,
                    *c,
                ),
            decreases self.buffer.len() - self.ptr,
        {
            self.ptr += 1;
            count += 1;
        }
        match *c {
            '>' => Op::PointerInc(count),
            '<' => Op::PointerDec(count),
            '+' => Op::ValueInc(count),
            _ => Op::ValueDec(count),
        }
    }

    /// Reads the next instruction, or returns `None` at the end of the source.
    pub fn get_op(&mut self) -> (op: Option<Op>)
        requires
            next_token_legal(old(self).source(), old(self).position()),
        ensures
            final(self).source() == old(self).source(),
            0 <= old(self).position() <= final(self).position(),
            final(self).position() <= old(self).source().len()
                || final(self).position() == old(self).position(),
            ({
                let s = old(self).source();
                let at = skip_blanks(s, old(self).position());
                if at < s.len() {
                    op == Some(token_op(s, at)) && final(self).position() == at + token_len(s, at)
                } else {
                    op is None && final(self).position() == at
                }
            }),
        decreases old(self).source().len() - old(self).position(),
    {
        proof {
            if self.ptr < self.buffer@.len() {
                lemma_run_len_bound(self.buffer@, self.ptr as int, self.buffer@[self.ptr as int]);
                lemma_run_len_bound(self.buffer@, self.ptr + 1, self.buffer@[self.ptr as int]);
            }
        }
        let c = match self.peek() {
            Some(c) => *c,
            None => {
                return None;
            },
        };
        match c {
            '>' | '<' | '+' | '-' => Some(self.eat_while_same(&c)),
            '.' => {
                self.eat();
                Some(Op::Output)
            },
            ',' => {
                self.eat();
                Some(Op::Input)
            },
            '[' => {
                self.eat();
                Some(Op::LLoop)
            },
            ']' => {
                self.eat();
                Some(Op::RLoop)
            },
            '\n' | '\r' | ' ' | '\t' => {
                self.eat();
                self.get_op()
            },
            ch => {
                self.eat();
                Some(Op::Proc(ch))
            },
        }
    }

    /// Reads the rest of the source.
    pub fn run(&mut self) -> (ops: Vec<Op>)
        requires
            all_legal(old(self).source(), old(self).position()),
        ensures
            final(self).source() == old(self).source(),
            final(self).position() == if old(self).position() <= old(self).source().len() {
                old(self).source().len() as int
            } else {
                old(self).position()
            },
            ops@ == lex(old(self).source(), old(self).position()),
    {
        let mut vec: Vec<Op> = Vec::new();
        loop
            invariant
                self.source() == old(self).source(),
                0 <= old(self).position() <= self.position(),
                self.position() <= self.source().len() || self.position() == old(self).position(),
                all_legal(self.source(), old(self).position()),
                lex(self.source(), old(self).position()) == vec@ + lex(
                    self.source(),
                    self.position(),
                ),
            ensures
                self.source() == old(self).source(),
                self.position() >= self.source().len(),
                self.position() <= self.source().len() || self.position() == old(self).position(),
                vec@ == lex(self.source(), old(self).position()),
            decreases self.source().len() - self.position(),
        {
            proof {
                if self.position() <= self.source().len() {
                    lemma_skip_blanks(self.source(), self.position());
                }
            }
            let ghost before = self.position();
            match self.get_op() {
                Some(op) => {
                    proof {
                        let s = self.source();
                        let at = skip_blanks(s, before);
                        lemma_run_len_bound(s, at, s[at]);
                        assert(vec@ + (seq![op] + lex(s, self.position())) == vec@.push(op) + lex(
                            s,
                            self.position(),
                        ));
                    }
                    vec.push(op);
                },
                None => {
                    break ;
                },
            }
        }
        vec
    }

    /// The index of the first illegal character at or after the cursor.
    pub fn first_illegal(&self) -> (found: Option<usize>)
        ensures
            match found {
                Some(k) => self.position() <= k < self.source().len()
                    && is_illegal(self.source()[k as int])
                    && legal_between(self.source(), self.position(), k as int)
                    && all_decided(self.source(), self.position(), k + 1),
                None => all_legal(self.source(), self.position()) && all_decided(
                    self.source(),
                    self.position(),
                    self.source().len() as int,
                ),
            },
    {
        let mut i: usize = self.ptr;
        while i < self.buffer.len()
            invariant
                self.ptr <= i,
                forall|k: int| self.ptr <= k < i ==> !is_illegal(#[trigger] self.buffer@[k]),
                all_decided(self.buffer@, self.ptr as int, i as int),
            decreases self.buffer.len() - i,
        {
            let c = self.buffer[i];
            if !is_symbol_or_blank(c) && is_alphanumeric(c) {
                assert(decided(c));
                return Some(i);
            }
            assert(decided(c));
            i += 1;
        }
        None
    }

    /// Reads the rest of the source if it holds no illegal character, and says where
    /// the first one stands if it does; the cursor then stays where it was.
    pub fn try_run(&mut self) -> (outcome: Result<Vec<Op>, LexError>)
        ensures
            final(self).source() == old(self).source(),
            match outcome {
                Ok(ops) => all_legal(old(self).source(), old(self).position())
                    && all_decided(
                    old(self).source(),
                    old(self).position(),
                    old(self).source().len() as int,
                ) && ops@ == lex(old(self).source(), old(self).position())
                    && final(self).position() == if old(self).position() <= old(self).source().len() {
                    old(self).source().len() as int
                } else {
                    old(self).position()
                },
                Err(LexError::IllegalCharacter { position, character }) => old(self).position()
                    <= position < old(self).source().len()
                    && character == old(self).source()[position as int]
                    && is_illegal(character)
                    && legal_between(
                    old(self).source(),
                    old(self).position(),
                    position as int,
                )
                    && all_decided(old(self).source(), old(self).position(), position + 1)
                    && final(self).position() == old(self).position(),
            },
    {
        match self.first_illegal() {
            Some(position) => {
                Err(LexError::IllegalCharacter { position, character: self.buffer[position] })
            },
            None => Ok(self.run()),
        }
    }
}

} // verus!
