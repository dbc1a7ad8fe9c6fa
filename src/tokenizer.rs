//! Turning input lines into tokens, one character at a time.
//!
//! `&` and `|` are held back until the next character shows whether they are
//! doubled. A backslash takes the next character literally, and a backslash
//! before a newline joins the next line to the current argument. A newline ends
//! the statement unless the last token is `&&`, `||` or `|`, in which case the
//! statement goes on on the next line.

use vstd::prelude::*;
use crate::text::{is_space, is_space_char, push_char};
use crate::token::{
    argument_token, continues_line, operator, token_views, CommandLineToken,
    CommandLineTokenType, TokenModel,
};

verus! {

/// An operator character read but not yet known to be single or doubled.
#[derive(PartialEq, Eq, Structural, Clone, Copy, Debug)]
pub enum PendingOperator {
    Idle,
    PendingAmpersand,
    PendingPipe,
}

/// The state of a tokenizer, as plain values.
pub struct TokenizerModel {
    pub tokens: Seq<TokenModel>,
    pub buffer: Seq<char>,
    pub pending: PendingOperator,
    pub escaped: bool,
    pub complete: bool,
}

/// The state before any input.
pub open spec fn initial_model() -> TokenizerModel {
    TokenizerModel {
        tokens: seq![],
        buffer: seq![],
        pending: PendingOperator::Idle,
        escaped: false,
        complete: false,
    }
}

/// Emits the pending argument, if there is one.
pub open spec fn flush_argument(m: TokenizerModel) -> TokenizerModel {
    if m.buffer.len() > 0 {
        TokenizerModel { tokens: m.tokens.push(argument_token(m.buffer)), buffer: seq![], ..m }
    } else {
        m
    }
}

/// Emits a held-back `&` or `|` as a single-character operator.
pub open spec fn flush_operator(m: TokenizerModel) -> TokenizerModel {
    match m.pending {
        PendingOperator::Idle => m,
        PendingOperator::PendingAmpersand => TokenizerModel {
            tokens: m.tokens.push(operator(CommandLineTokenType::Ampersand)),
            pending: PendingOperator::Idle,
            ..m
        },
        PendingOperator::PendingPipe => TokenizerModel {
            tokens: m.tokens.push(operator(CommandLineTokenType::Pipe)),
            pending: PendingOperator::Idle,
            ..m
        },
    }
}

/// Emits the pending argument, then the operator token of class `class`.
pub open spec fn emit_operator(m: TokenizerModel, class: CommandLineTokenType) -> TokenizerModel {
    let f = flush_argument(m);
    TokenizerModel { tokens: f.tokens.push(operator(class)), ..f }
}

/// Whether the tokens so far end in an operator that carries over a newline.
pub open spec fn awaits_more(tokens: Seq<TokenModel>) -> bool {
    tokens.len() > 0 && continues_line(tokens.last().class)
}

/// Reads `c` with no operator held back.
pub open spec fn read_plain(m: TokenizerModel, c: char) -> TokenizerModel {
    if is_space(c) {
        let f = flush_argument(m);
        if c == '\n' && !awaits_more(f.tokens) {
            TokenizerModel {
                tokens: f.tokens.push(operator(CommandLineTokenType::EOL)),
                complete: true,
                ..f
            }
        } else {
            f
        }
    } else if c == ';' {
        emit_operator(m, CommandLineTokenType::Semicolon)
    } else if c == '(' {
        emit_operator(m, CommandLineTokenType::OpenParen)
    } else if c == ')' {
        emit_operator(m, CommandLineTokenType::CloseParen)
    } else if c == '&' {
        TokenizerModel { pending: PendingOperator::PendingAmpersand, ..flush_argument(m) }
    } else if c == '|' {
        TokenizerModel { pending: PendingOperator::PendingPipe, ..flush_argument(m) }
    } else {
        TokenizerModel { buffer: m.buffer.push(c), ..m }
    }
}

/// Reads one character.
pub open spec fn read_char(m: TokenizerModel, c: char) -> TokenizerModel {
    if m.complete {
        m
    } else if m.escaped {
        TokenizerModel {
            buffer: if c == '\n' {
                m.buffer
            } else {
                m.buffer.push(c)
            },
            escaped: false,
            ..m
        }
    } else if c == '\\' {
        TokenizerModel { escaped: true, ..flush_operator(m) }
    } else if m.pending == PendingOperator::PendingAmpersand && c == '&' {
        TokenizerModel {
            tokens: m.tokens.push(operator(CommandLineTokenType::AndOp)),
            pending: PendingOperator::Idle,
            ..m
        }
    } else if m.pending == PendingOperator::PendingPipe && c == '|' {
        TokenizerModel {
            tokens: m.tokens.push(operator(CommandLineTokenType::OrOp)),
            pending: PendingOperator::Idle,
            ..m
        }
    } else {
        read_plain(flush_operator(m), c)
    }
}

/// Reads the characters `cs` in order.
pub open spec fn read_all(m: TokenizerModel, cs: Seq<char>) -> TokenizerModel
    decreases cs.len(),
{
    if cs.len() == 0 {
        m
    } else {
        read_char(read_all(m, cs.drop_last()), cs.last())
    }
}

/// The tokens once the input has ended: what is still held is emitted, and a
/// statement that the input cut short is closed by an end-of-line token.
pub open spec fn end_of_input(m: TokenizerModel) -> Seq<TokenModel> {
    if m.complete {
        m.tokens
    } else {
        let t = flush_operator(flush_argument(m)).tokens;
        if t.len() == 0 {
            t
        } else {
            t.push(operator(CommandLineTokenType::EOL))
        }
    }
}

/// The tokens of the first statement of `input`.
pub open spec fn tokens_of(input: Seq<char>) -> Seq<TokenModel> {
    end_of_input(read_all(initial_model(), input))
}

/// The tokens read so far have the shape of a statement: an end-of-line token
/// stands only last, and only once the statement is complete, and no argument
/// is empty.
pub open spec fn shaped(t: Seq<TokenModel>, complete: bool) -> bool {
    &&& forall|k: int|
        0 <= k < t.len() && #[trigger] t[k].class == CommandLineTokenType::EOL ==> complete && k
            == t.len() - 1
    &&& complete ==> t.len() > 0 && t.last().class == CommandLineTokenType::EOL
    &&& forall|k: int|
        0 <= k < t.len() && #[trigger] t[k].class == CommandLineTokenType::Argument
            ==> t[k].lexeme.len() > 0
}

/// What holds of a tokenizer's state between characters.
pub open spec fn model_shaped(m: TokenizerModel) -> bool {
    &&& shaped(m.tokens, m.complete)
    &&& m.complete ==> m.buffer.len() == 0 && m.pending == PendingOperator::Idle
}

proof fn lemma_read_char_shaped(m: TokenizerModel, c: char)
    requires
        model_shaped(m),
    ensures
        model_shaped(read_char(m, c)),
{
    if !m.complete {
        let f = flush_argument(m);
        assert(shaped(f.tokens, f.complete));
        let o = flush_operator(m);
        assert(shaped(o.tokens, o.complete));
        let fo = flush_argument(o);
        assert(shaped(fo.tokens, fo.complete));
    }
}

proof fn lemma_read_all_shaped(m: TokenizerModel, cs: Seq<char>)
    requires
        model_shaped(m),
    ensures
        model_shaped(read_all(m, cs)),
    decreases cs.len(),
{
    if cs.len() > 0 {
        lemma_read_all_shaped(m, cs.drop_last());
        lemma_read_char_shaped(read_all(m, cs.drop_last()), cs.last());
    }
}

/// Whatever the input, its first statement is either empty (the input held
/// nothing) or ends with exactly one end-of-line token; and no argument token
/// is empty.
pub proof fn lemma_statement_shape(input: Seq<char>)
    ensures
        tokens_of(input).len() == 0 || (tokens_of(input).last().class == CommandLineTokenType::EOL
            && forall|k: int|
            0 <= k < tokens_of(input).len() - 1 ==> #[trigger] tokens_of(input)[k].class
                != CommandLineTokenType::EOL),
        forall|k: int|
            0 <= k < tokens_of(input).len() && #[trigger] tokens_of(input)[k].class
                == CommandLineTokenType::Argument ==> tokens_of(input)[k].lexeme.len() > 0,
{
    let m = read_all(initial_model(), input);
    lemma_read_all_shaped(initial_model(), input);
    if !m.complete {
        let f = flush_operator(flush_argument(m));
        assert(shaped(flush_argument(m).tokens, false));
        assert(shaped(f.tokens, false));
        if f.tokens.len() > 0 {
            let t = f.tokens.push(operator(CommandLineTokenType::EOL));
            assert(shaped(t, true));
        }
    }
}

/// Feeding input in pieces reads it as one text: reading `a` and then `b`
/// ends in the state that reading `a + b` does.
pub proof fn lemma_read_in_pieces(m: TokenizerModel, a: Seq<char>, b: Seq<char>)
    ensures
        read_all(read_all(m, a), b) == read_all(m, a + b),
    decreases b.len(),
{
    if b.len() == 0 {
        assert(a + b =~= a);
    } else {
        lemma_read_in_pieces(m, a, b.drop_last());
        assert((a + b).drop_last() =~= a + b.drop_last());
        assert((a + b).last() == b.last());
    }
}

/// Tokenizes input that arrives line by line.
pub struct Tokenizer {
    tokens: Vec<CommandLineToken>,
    buffer: String,
    pending: PendingOperator,
    escaped: bool,
    complete: bool,
}

impl View for Tokenizer {
    type V = TokenizerModel;

    closed spec fn view(&self) -> TokenizerModel {
        TokenizerModel {
            tokens: token_views(self.tokens@),
            buffer: self.buffer@,
            pending: self.pending,
            escaped: self.escaped,
            complete: self.complete,
        }
    }
}

impl Tokenizer {
    pub fn new() -> (r: Tokenizer)
        ensures
            r@ == initial_model(),
    {
        let r = Tokenizer {
            tokens: Vec::new(),
            buffer: String::new(),
            pending: PendingOperator::Idle,
            escaped: false,
            complete: false,
        };
        assert(r@.tokens =~= seq![]);
        r
    }

    /// Whether a whole statement has been read.
    pub fn is_complete(&self) -> (r: bool)
        ensures
            r == self@.complete,
    {
        self.complete
    }

    fn push_token(&mut self, t: CommandLineToken)
        ensures
            final(self)@ == (TokenizerModel { tokens: old(self)@.tokens.push(t@), ..old(self)@ }),
    {
        self.tokens.push(t);
        assert(token_views(self.tokens@) =~= token_views(old(self).tokens@).push(t@));
    }

    fn flush_argument(&mut self)
        ensures
            final(self)@ == flush_argument(old(self)@),
    {
        if !self.buffer.as_str().is_empty() {
            let mut text = String::new();
            std::mem::swap(&mut self.buffer, &mut text);
            self.push_token(CommandLineToken::argument(text));
        }
    }

    fn flush_operator(&mut self)
        ensures
            final(self)@ == flush_operator(old(self)@),
    {
        match self.pending {
            PendingOperator::Idle => {},
            PendingOperator::PendingAmpersand => {
                self.push_token(CommandLineToken::ampersand());
                self.pending = PendingOperator::Idle;
            },
            PendingOperator::PendingPipe => {
                self.push_token(CommandLineToken::pipe());
                self.pending = PendingOperator::Idle;
            },
        }
    }

    fn awaits_more(&self) -> (r: bool)
        ensures
            r == awaits_more(self@.tokens),
    {
        let n = self.tokens.len();
        if n == 0 {
            false
        } else {
            self.tokens[n - 1].should_continue()
        }
    }

    fn read_plain(&mut self, c: char)
        ensures
            final(self)@ == read_plain(old(self)@, c),
    {
        if is_space_char(c) {
            self.flush_argument();
            if c == '\n' && !self.awaits_more() {
                self.push_token(CommandLineToken::eol());
                self.complete = true;
            }
        } else if c == ';' {
            self.flush_argument();
            self.push_token(CommandLineToken::semicolon());
        } else if c == '(' {
            self.flush_argument();
            self.push_token(CommandLineToken::open_paren());
        } else if c == ')' {
            self.flush_argument();
            self.push_token(CommandLineToken::close_paren());
        } else if c == '&' {
            self.flush_argument();
            self.pending = PendingOperator::PendingAmpersand;
        } else if c == '|' {
            self.flush_argument();
            self.pending = PendingOperator::PendingPipe;
        } else {
            push_char(&mut self.buffer, c);
        }
    }

    /// Reads one character.
    pub fn read_char(&mut self, c: char)
        ensures
            final(self)@ == read_char(old(self)@, c),
    {
        if self.complete {
        } else if self.escaped {
            if c != '\n' {
                push_char(&mut self.buffer, c);
            }
            self.escaped = false;
        } else if c == '\\' {
            self.flush_operator();
            self.escaped = true;
        } else if self.pending == PendingOperator::PendingAmpersand && c == '&' {
            self.push_token(CommandLineToken::and_op());
            self.pending = PendingOperator::Idle;
        } else if self.pending == PendingOperator::PendingPipe && c == '|' {
            self.push_token(CommandLineToken::or_op());
            self.pending = PendingOperator::Idle;
        } else {
            self.flush_operator();
            self.read_plain(c);
        }
    }

    /// Reads a line (or any text); returns whether the statement is complete.
    /// Once it is, further input is ignored.
    pub fn feed(&mut self, line: &str) -> (r: bool)
        ensures
            final(self)@ == read_all(old(self)@, line@),
            r == final(self)@.complete,
    {
        for c in it: line.chars()
            invariant
                it.seq() == line@,
                self@ == read_all(old(self)@, line@.subrange(0, it.index() as int)),
        {
            let ghost k = it.index() as int;
            proof {
                let s = line@.subrange(0, k + 1);
                assert(s.drop_last() =~= line@.subrange(0, k));
            }
            self.read_char(c);
        }
        proof {
            assert(line@.subrange(0, line@.len() as int) =~= line@);
        }
        self.complete
    }

    /// The tokens read, once the input has ended or the statement is complete.
    pub fn finish(self) -> (r: Vec<CommandLineToken>)
        ensures
            token_views(r@) == end_of_input(self@),
    {
        let mut t = self;
        if !t.complete {
            t.flush_argument();
            t.flush_operator();
            if t.tokens.len() > 0 {
                t.push_token(CommandLineToken::eol());
            }
        }
        t.tokens
    }
}

/// The tokens of the first statement of `input`, which may span several lines.
pub fn tokenize(input: &str) -> (r: Vec<CommandLineToken>)
    ensures
        token_views(r@) == tokens_of(input@),
{
    let mut t = Tokenizer::new();
    t.feed(input);
    t.finish()
}

} // verus!
