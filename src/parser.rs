//! Building command lists out of tokens.
//!
//! A list is a sequence of pipelines and parenthesised subshells. `;` sets the
//! condition of the next pipeline to `Always`, `&&` to `IfTrue` and `||` to
//! `IfFalse`. A subshell itself always runs: a condition written before it is
//! kept for the pipeline that follows it. A lone `&`, a stray `|` and an empty
//! pipeline are ignored. A list ends at an end-of-line token, which it consumes,
//! or at a `)`, which it leaves to the subshell that it closes.

use vstd::prelude::*;
use crate::command::{
    item_view, list_view, Command, CommandList, CommandListItem, ItemModel,
    Pipeline, PipelineModel, RunConditions,
};
use crate::token::{token_views, CommandLineToken, CommandLineTokenType, TokenModel};

verus! {

/// Whether token `i` exists and has class `c`.
pub open spec fn is_at(t: Seq<TokenModel>, i: int, c: CommandLineTokenType) -> bool {
    0 <= i < t.len() && t[i].class == c
}

/// The index after the run of argument tokens that starts at `i`.
pub open spec fn command_end(t: Seq<TokenModel>, i: int) -> int
    decreases t.len() - i,
{
    if is_at(t, i, CommandLineTokenType::Argument) {
        command_end(t, i + 1)
    } else {
        i
    }
}

/// The texts of the run of argument tokens that starts at `i`.
pub open spec fn command_arguments(t: Seq<TokenModel>, i: int) -> Seq<Seq<char>>
    decreases t.len() - i,
{
    if is_at(t, i, CommandLineTokenType::Argument) {
        seq![t[i].lexeme] + command_arguments(t, i + 1)
    } else {
        seq![]
    }
}

/// The index after the run of argument and `|` tokens that starts at `i`.
pub open spec fn pipeline_end(t: Seq<TokenModel>, i: int) -> int
    decreases t.len() - i,
{
    if is_at(t, i, CommandLineTokenType::Argument) || is_at(t, i, CommandLineTokenType::Pipe) {
        pipeline_end(t, i + 1)
    } else {
        i
    }
}

/// The commands of the pipeline that starts at `i`: each maximal run of
/// arguments is one command, and `|` separates them.
pub open spec fn pipeline_commands(t: Seq<TokenModel>, i: int) -> Seq<Seq<Seq<char>>>
    decreases t.len() - i,
    via pipeline_commands_decreases
{
    if is_at(t, i, CommandLineTokenType::Argument) {
        seq![command_arguments(t, i)] + pipeline_commands(t, command_end(t, i))
    } else if is_at(t, i, CommandLineTokenType::Pipe) {
        pipeline_commands(t, i + 1)
    } else {
        seq![]
    }
}

#[via_fn]
proof fn pipeline_commands_decreases(t: Seq<TokenModel>, i: int) {
    if is_at(t, i, CommandLineTokenType::Argument) {
        lemma_command_end_bounds(t, i + 1);
    }
}

pub proof fn lemma_command_end_bounds(t: Seq<TokenModel>, i: int)
    requires
        0 <= i,
    ensures
        i <= command_end(t, i),
        i <= t.len() ==> command_end(t, i) <= t.len(),
        is_at(t, i, CommandLineTokenType::Argument) ==> i < command_end(t, i) <= t.len(),
    decreases t.len() - i,
{
    if is_at(t, i, CommandLineTokenType::Argument) {
        lemma_command_end_bounds(t, i + 1);
        if !is_at(t, i + 1, CommandLineTokenType::Argument) {
            assert(command_end(t, i + 1) == i + 1);
        }
    }
}

pub proof fn lemma_pipeline_end_bounds(t: Seq<TokenModel>, i: int)
    requires
        0 <= i,
    ensures
        i <= pipeline_end(t, i),
        i <= t.len() ==> pipeline_end(t, i) <= t.len(),
        is_at(t, i, CommandLineTokenType::Argument) ==> i < pipeline_end(t, i) <= t.len(),
    decreases t.len() - i,
{
    if is_at(t, i, CommandLineTokenType::Argument) || is_at(t, i, CommandLineTokenType::Pipe) {
        lemma_pipeline_end_bounds(t, i + 1);
        if !(is_at(t, i + 1, CommandLineTokenType::Argument) || is_at(
            t,
            i + 1,
            CommandLineTokenType::Pipe,
        )) {
            assert(pipeline_end(t, i + 1) == i + 1);
        }
    }
}

/// A run of arguments belongs to the pipeline that it starts.
proof fn lemma_pipeline_end_skips_command(t: Seq<TokenModel>, i: int)
    requires
        0 <= i,
    ensures
        pipeline_end(t, i) == pipeline_end(t, command_end(t, i)),
    decreases t.len() - i,
{
    if is_at(t, i, CommandLineTokenType::Argument) {
        lemma_pipeline_end_skips_command(t, i + 1);
    }
}

/// The pipeline that starts at `i`, under condition `c`.
pub open spec fn pipeline_at(t: Seq<TokenModel>, i: int, c: RunConditions) -> ItemModel {
    ItemModel::Pipeline(PipelineModel { commands: pipeline_commands(t, i), condition: c })
}

/// The index after the `)` that closes a subshell whose body ended at `j`.
pub open spec fn after_close(t: Seq<TokenModel>, j: int) -> int {
    if is_at(t, j, CommandLineTokenType::CloseParen) {
        j + 1
    } else {
        j
    }
}

/// The items of the list that starts at `i`, where `c` is the condition for the
/// next pipeline, and the index at which the list ends.
pub open spec fn parse_list(t: Seq<TokenModel>, i: int, c: RunConditions) -> (Seq<ItemModel>, int)
    decreases t.len() - i,
    via parse_list_decreases
{
    if !(0 <= i < t.len()) {
        (seq![], i)
    } else {
        match t[i].class {
            CommandLineTokenType::Argument => {
                let rest = parse_list(t, pipeline_end(t, i), RunConditions::Always);
                (seq![pipeline_at(t, i, c)] + rest.0, rest.1)
            },
            CommandLineTokenType::Semicolon => parse_list(t, i + 1, RunConditions::Always),
            CommandLineTokenType::AndOp => parse_list(t, i + 1, RunConditions::IfTrue),
            CommandLineTokenType::OrOp => parse_list(t, i + 1, RunConditions::IfFalse),
            CommandLineTokenType::OpenParen => {
                let body = parse_list(t, i + 1, RunConditions::Always);
                let next = after_close(t, body.1);
                // The body never ends before it starts (see
                // `lemma_parse_list_advances`); the test only makes that
                // evident to the termination check.
                if i < next <= t.len() {
                    let rest = parse_list(t, next, c);
                    (seq![ItemModel::Subshell(body.0)] + rest.0, rest.1)
                } else {
                    (seq![ItemModel::Subshell(body.0)], next)
                }
            },
            CommandLineTokenType::EOL => (seq![], i + 1),
            CommandLineTokenType::CloseParen => (seq![], i),
            _ => parse_list(t, i + 1, c),
        }
    }
}

#[via_fn]
proof fn parse_list_decreases(t: Seq<TokenModel>, i: int, c: RunConditions) {
    if 0 <= i < t.len() && t[i].class == CommandLineTokenType::Argument {
        lemma_pipeline_end_bounds(t, i);
    }
}

/// A list never ends before it starts, nor past the end of the tokens.
pub proof fn lemma_parse_list_advances(t: Seq<TokenModel>, i: int, c: RunConditions)
    requires
        0 <= i <= t.len(),
    ensures
        i <= parse_list(t, i, c).1 <= t.len(),
    decreases t.len() - i,
{
    if i < t.len() {
        match t[i].class {
            CommandLineTokenType::Argument => {
                lemma_pipeline_end_bounds(t, i);
                lemma_parse_list_advances(t, pipeline_end(t, i), RunConditions::Always);
            },
            CommandLineTokenType::Semicolon => {
                lemma_parse_list_advances(t, i + 1, RunConditions::Always);
            },
            CommandLineTokenType::AndOp => {
                lemma_parse_list_advances(t, i + 1, RunConditions::IfTrue);
            },
            CommandLineTokenType::OrOp => {
                lemma_parse_list_advances(t, i + 1, RunConditions::IfFalse);
            },
            CommandLineTokenType::OpenParen => {
                lemma_parse_list_advances(t, i + 1, RunConditions::Always);
                let next = after_close(t, parse_list(t, i + 1, RunConditions::Always).1);
                lemma_parse_list_advances(t, next, c);
            },
            CommandLineTokenType::EOL => {},
            CommandLineTokenType::CloseParen => {},
            _ => {
                lemma_parse_list_advances(t, i + 1, c);
            },
        }
    }
}

/// Whether an item holds no empty pipeline and no empty command, at any depth.
pub open spec fn item_formed(item: ItemModel) -> bool
    decreases item,
{
    match item {
        ItemModel::Pipeline(p) => p.commands.len() > 0 && forall|k: int|
            0 <= k < p.commands.len() ==> #[trigger] p.commands[k].len() > 0,
        ItemModel::Subshell(l) => items_formed(l),
    }
}

/// Whether no item of `items` holds an empty pipeline or an empty command.
pub open spec fn items_formed(items: Seq<ItemModel>) -> bool
    decreases items,
{
    if items.len() == 0 {
        true
    } else {
        proof {
            vstd::seq::axiom_seq_subrange_decreases(items, 0, items.len() - 1);
            vstd::seq::axiom_seq_index_decreases(items, items.len() - 1);
        }
        items_formed(items.drop_last()) && item_formed(items.last())
    }
}

proof fn lemma_items_formed_prepend(x: ItemModel, rest: Seq<ItemModel>)
    requires
        item_formed(x),
        items_formed(rest),
    ensures
        items_formed(seq![x] + rest),
    decreases rest.len(),
{
    let s = seq![x] + rest;
    if rest.len() == 0 {
        assert(s.drop_last() =~= Seq::<ItemModel>::empty());
        assert(s.last() == x);
        assert(items_formed(s.drop_last()));
    } else {
        assert(items_formed(rest.drop_last()) && item_formed(rest.last()));
        lemma_items_formed_prepend(x, rest.drop_last());
        assert(s.drop_last() =~= seq![x] + rest.drop_last());
        assert(s.last() == rest.last());
    }
}

proof fn lemma_pipeline_commands_formed(t: Seq<TokenModel>, i: int)
    requires
        0 <= i,
    ensures
        forall|k: int|
            0 <= k < pipeline_commands(t, i).len() ==> #[trigger] pipeline_commands(t, i)[k].len()
                > 0,
        is_at(t, i, CommandLineTokenType::Argument) ==> pipeline_commands(t, i).len() > 0,
    decreases t.len() - i,
{
    if is_at(t, i, CommandLineTokenType::Argument) {
        lemma_command_end_bounds(t, i);
        lemma_pipeline_commands_formed(t, command_end(t, i));
        let rest = pipeline_commands(t, command_end(t, i));
        let all = seq![command_arguments(t, i)] + rest;
        assert(pipeline_commands(t, i) == all);
        assert(command_arguments(t, i).len() > 0);
        assert forall|k: int| 0 <= k < all.len() implies #[trigger] all[k].len() > 0 by {
            if k > 0 {
                assert(all[k] == rest[k - 1]);
            }
        }
    } else if is_at(t, i, CommandLineTokenType::Pipe) {
        lemma_pipeline_commands_formed(t, i + 1);
        assert(pipeline_commands(t, i) == pipeline_commands(t, i + 1));
    } else {
        assert(pipeline_commands(t, i).len() == 0);
    }
}

/// The parser builds no empty pipeline and no empty command: every pipeline
/// of a list, at any depth, has at least one command, and every command at
/// least one word.
pub proof fn lemma_parse_list_formed(t: Seq<TokenModel>, i: int, c: RunConditions)
    requires
        0 <= i,
    ensures
        items_formed(parse_list(t, i, c).0),
    decreases t.len() - i,
{
    if 0 <= i < t.len() {
        match t[i].class {
            CommandLineTokenType::Argument => {
                lemma_pipeline_end_bounds(t, i);
                lemma_pipeline_commands_formed(t, i);
                lemma_parse_list_formed(t, pipeline_end(t, i), RunConditions::Always);
                lemma_items_formed_prepend(
                    pipeline_at(t, i, c),
                    parse_list(t, pipeline_end(t, i), RunConditions::Always).0,
                );
            },
            CommandLineTokenType::Semicolon => {
                lemma_parse_list_formed(t, i + 1, RunConditions::Always);
            },
            CommandLineTokenType::AndOp => {
                lemma_parse_list_formed(t, i + 1, RunConditions::IfTrue);
            },
            CommandLineTokenType::OrOp => {
                lemma_parse_list_formed(t, i + 1, RunConditions::IfFalse);
            },
            CommandLineTokenType::OpenParen => {
                let body = parse_list(t, i + 1, RunConditions::Always);
                lemma_parse_list_formed(t, i + 1, RunConditions::Always);
                let next = after_close(t, body.1);
                if i < next <= t.len() {
                    lemma_parse_list_formed(t, next, c);
                    lemma_items_formed_prepend(
                        ItemModel::Subshell(body.0),
                        parse_list(t, next, c).0,
                    );
                } else {
                    lemma_items_formed_prepend(ItemModel::Subshell(body.0), seq![]);
                    assert(seq![ItemModel::Subshell(body.0)] + Seq::<ItemModel>::empty()
                        =~= seq![ItemModel::Subshell(body.0)]);
                }
            },
            CommandLineTokenType::EOL => {},
            CommandLineTokenType::CloseParen => {},
            _ => {
                lemma_parse_list_formed(t, i + 1, c);
            },
        }
    }
}

/// The command list of a whole statement.
pub open spec fn statement(t: Seq<TokenModel>) -> Seq<ItemModel> {
    parse_list(t, 0, RunConditions::Always).0
}

/// Whether reading a statement met the end of the input.
#[derive(PartialEq, Eq, Structural, Clone, Copy, Debug)]
pub enum ParserStatus {
    EOF,
    Parsed,
}

/// Parses statements and keeps them until they are taken.
pub struct CommandParser {
    token_index: usize,
    command_list_buffer: Vec<CommandList>,
    tokens: Vec<CommandLineToken>,
}

/// A parser as plain values: the tokens of the statement being read, the
/// index of the next one, and the lists not yet taken, oldest first.
pub struct ParserModel {
    pub token_index: int,
    pub buffered: Seq<Seq<ItemModel>>,
    pub tokens: Seq<TokenModel>,
}

/// The views of a sequence of command lists.
pub open spec fn list_views(v: Seq<CommandList>) -> Seq<Seq<ItemModel>> {
    v.map_values(|l: CommandList| list_view(l@))
}

impl View for CommandParser {
    type V = ParserModel;

    closed spec fn view(&self) -> ParserModel {
        ParserModel {
            token_index: self.token_index as int,
            buffered: list_views(self.command_list_buffer@),
            tokens: token_views(self.tokens@),
        }
    }
}

/// The index of a parser's next token is never negative, so the lemmas on
/// `parse_list` apply to it.
pub proof fn lemma_token_index_nonneg(p: &CommandParser)
    ensures
        p@.token_index >= 0,
{
}

impl CommandParser {
    pub fn new() -> (r: CommandParser)
        ensures
            r@ == (ParserModel { token_index: 0, buffered: seq![], tokens: seq![] }),
    {
        let r = CommandParser {
            token_index: 0,
            command_list_buffer: Vec::new(),
            tokens: Vec::new(),
        };
        assert(r@.buffered =~= seq![]);
        assert(r@.tokens =~= seq![]);
        r
    }

    /// Takes the oldest list not yet taken, if there is one. When there is
    /// none, the caller reads the next statement and hands its tokens to
    /// `parse_input`.
    pub fn get_next_command_list(&mut self) -> (r: Option<CommandList>)
        ensures
            old(self)@.buffered.len() == 0 ==> r is None && final(self)@ == old(self)@,
            old(self)@.buffered.len() > 0 ==> (r matches Some(l) && list_view(l@)
                == old(self)@.buffered[0] && final(self)@ == (ParserModel {
                buffered: old(self)@.buffered.drop_first(),
                ..old(self)@
            })),
    {
        if self.command_list_buffer.len() == 0 {
            None
        } else {
            let l = self.command_list_buffer.remove(0);
            assert(list_views(self.command_list_buffer@) =~= list_views(
                old(self).command_list_buffer@,
            ).drop_first());
            Some(l)
        }
    }

    /// Parses the tokens of one statement and keeps its list. No tokens at all
    /// mean that the input has ended.
    pub fn parse_input(&mut self, tokens: Vec<CommandLineToken>) -> (r: ParserStatus)
        ensures
            tokens@.len() == 0 ==> r == ParserStatus::EOF && final(self)@ == old(self)@,
            tokens@.len() > 0 ==> r == ParserStatus::Parsed && final(self)@.buffered
                == old(self)@.buffered.push(statement(token_views(tokens@))),
    {
        if tokens.len() == 0 {
            return ParserStatus::EOF;
        }
        self.parse_command_line(tokens);
        ParserStatus::Parsed
    }

    /// Parses the tokens of one statement and keeps its list.
    pub fn parse_command_line(&mut self, tokens: Vec<CommandLineToken>)
        ensures
            final(self)@.buffered == old(self)@.buffered.push(statement(token_views(tokens@))),
            final(self)@.tokens == token_views(tokens@),
            final(self)@.token_index == parse_list(
                token_views(tokens@),
                0,
                RunConditions::Always,
            ).1,
    {
        self.token_index = 0;
        self.tokens = tokens;
        let command_list = self.parse_command_list();
        self.command_list_buffer.push(command_list);
        assert(list_views(self.command_list_buffer@) =~= old(self)@.buffered.push(
            statement(token_views(tokens@)),
        ));
    }

    /// Parses the list that starts at the current token.
    pub fn parse_command_list(&mut self) -> (r: CommandList)
        ensures
            list_view(r@) == parse_list(
                old(self)@.tokens,
                old(self)@.token_index,
                RunConditions::Always,
            ).0,
            final(self)@ == (ParserModel {
                token_index: parse_list(
                    old(self)@.tokens,
                    old(self)@.token_index,
                    RunConditions::Always,
                ).1,
                ..old(self)@
            }),
        decreases old(self)@.tokens.len() - old(self)@.token_index, 0nat,
    {
        let ghost t = self@.tokens;
        let ghost start = self@.token_index;
        let mut command_list: CommandList = Vec::new();
        let mut condition = RunConditions::Always;
        assert(list_view(command_list@) =~= seq![]);
        while self.token_index < self.tokens.len()
            invariant
                self@.tokens == t,
                self@.buffered == old(self)@.buffered,
                start <= self@.token_index,
                list_view(command_list@) + parse_list(t, self@.token_index, condition).0
                    == parse_list(t, start, RunConditions::Always).0,
                parse_list(t, self@.token_index, condition).1 == parse_list(
                    t,
                    start,
                    RunConditions::Always,
                ).1,
                t == old(self)@.tokens,
                start == old(self)@.token_index,
            decreases t.len() - self@.token_index,
        {
            let ghost i = self@.token_index;
            let ghost before = list_view(command_list@);
            let ghost items = command_list@;
            let class = self.tokens[self.token_index].class;
            assert(t[i] == self.tokens@[i]@);
            match class {
                CommandLineTokenType::Argument => {
                    let mut pipeline = Pipeline::always();
                    pipeline.run_conditions = condition;
                    proof {
                        lemma_pipeline_end_bounds(t, i);
                    }
                    self.parse_pipeline(&mut pipeline);
                    assert(pipeline@.commands =~= pipeline_commands(t, i));
                    let item = CommandListItem::Pipeline(pipeline);
                    let ghost g = item;
                    assert(item_view(g) == pipeline_at(t, i, condition));
                    command_list.push(item);
                    assert(command_list@.drop_last() =~= items);
                    assert(command_list@.last() == g);
                    assert(list_view(command_list@) == before.push(item_view(g)));
                    assert(list_view(command_list@) + parse_list(
                        t,
                        self@.token_index,
                        RunConditions::Always,
                    ).0 =~= before + parse_list(t, i, condition).0);
                    condition = RunConditions::Always;
                },
                CommandLineTokenType::Semicolon => {
                    condition = RunConditions::Always;
                    self.token_index = self.token_index + 1;
                },
                CommandLineTokenType::AndOp => {
                    condition = RunConditions::IfTrue;
                    self.token_index = self.token_index + 1;
                },
                CommandLineTokenType::OrOp => {
                    condition = RunConditions::IfFalse;
                    self.token_index = self.token_index + 1;
                },
                CommandLineTokenType::OpenParen => {
                    self.token_index = self.token_index + 1;
                    proof {
                        lemma_parse_list_advances(t, i + 1, RunConditions::Always);
                    }
                    let body = self.parse_subshell();
                    if self.token_index < self.tokens.len() {
                        if self.tokens[self.token_index].class == CommandLineTokenType::CloseParen {
                            self.token_index = self.token_index + 1;
                        }
                    }
                    assert(self@.token_index == after_close(
                        t,
                        parse_list(t, i + 1, RunConditions::Always).1,
                    )) by {
                        let j = parse_list(t, i + 1, RunConditions::Always).1;
                        if 0 <= j < t.len() {
                            assert(t[j] == self.tokens@[j]@);
                        }
                    }
                    let item = CommandListItem::Subshell(body);
                    let ghost g = item;
                    command_list.push(item);
                    assert(command_list@.drop_last() =~= items);
                    assert(command_list@.last() == g);
                    assert(list_view(command_list@) == before.push(item_view(g)));
                    assert(list_view(command_list@) + parse_list(t, self@.token_index, condition).0
                        =~= before + parse_list(t, i, condition).0);
                },
                CommandLineTokenType::EOL => {
                    self.token_index = self.token_index + 1;
                    assert(before + seq![] =~= before);
                    return command_list;
                },
                CommandLineTokenType::CloseParen => {
                    assert(before + seq![] =~= before);
                    return command_list;
                },
                _ => {
                    self.token_index = self.token_index + 1;
                },
            }
        }
        assert(list_view(command_list@) + seq![] =~= list_view(command_list@));
        command_list
    }

    /// Parses the body of a subshell, whose `(` has been consumed. The `)`
    /// that ends it is left for the caller that opened the paren.
    pub fn parse_subshell(&mut self) -> (r: CommandList)
        ensures
            list_view(r@) == parse_list(
                old(self)@.tokens,
                old(self)@.token_index,
                RunConditions::Always,
            ).0,
            final(self)@ == (ParserModel {
                token_index: parse_list(
                    old(self)@.tokens,
                    old(self)@.token_index,
                    RunConditions::Always,
                ).1,
                ..old(self)@
            }),
        decreases old(self)@.tokens.len() - old(self)@.token_index, 1nat,
    {
        self.parse_command_list()
    }

    /// Appends to `pipeline` the commands of the pipeline that starts at the
    /// current token.
    pub fn parse_pipeline(&mut self, pipeline: &mut Pipeline)
        ensures
            final(pipeline)@ == (PipelineModel {
                commands: old(pipeline)@.commands + pipeline_commands(
                    old(self)@.tokens,
                    old(self)@.token_index,
                ),
                condition: old(pipeline)@.condition,
            }),
            final(self)@ == (ParserModel {
                token_index: pipeline_end(old(self)@.tokens, old(self)@.token_index),
                ..old(self)@
            }),
    {
        let ghost t = self@.tokens;
        let ghost start = self@.token_index;
        while self.token_index < self.tokens.len()
            invariant
                self@ == (ParserModel { token_index: self@.token_index, ..old(self)@ }),
                t == old(self)@.tokens,
                start == old(self)@.token_index,
                pipeline@.condition == old(pipeline)@.condition,
                pipeline@.commands + pipeline_commands(t, self@.token_index)
                    == old(pipeline)@.commands + pipeline_commands(t, start),
                pipeline_end(t, self@.token_index) == pipeline_end(t, start),
            decreases t.len() - self@.token_index,
        {
            let ghost i = self@.token_index;
            let class = self.tokens[self.token_index].class;
            assert(t[i] == self.tokens@[i]@);
            if class == CommandLineTokenType::Argument {
                proof {
                    lemma_command_end_bounds(t, i);
                    lemma_pipeline_end_skips_command(t, i);
                }
                let command = self.parse_command();
                let ghost before = pipeline@.commands;
                pipeline.push_command(command);
                assert(pipeline@.commands + pipeline_commands(t, self@.token_index) =~= before
                    + pipeline_commands(t, i));
            } else if class != CommandLineTokenType::Pipe {
                assert(old(pipeline)@.commands + pipeline_commands(t, start) =~= pipeline@.commands);
                return;
            } else {
                self.token_index = self.token_index + 1;
            }
        }
        assert(pipeline@.commands + pipeline_commands(t, self@.token_index) =~= pipeline@.commands);
    }

    /// Parses the run of arguments that starts at the current token.
    pub fn parse_command(&mut self) -> (r: Command)
        ensures
            r@ == command_arguments(old(self)@.tokens, old(self)@.token_index),
            final(self)@ == (ParserModel {
                token_index: command_end(old(self)@.tokens, old(self)@.token_index),
                ..old(self)@
            }),
    {
        let ghost t = self@.tokens;
        let ghost start = self@.token_index;
        let mut command = Command::new();
        while self.token_index < self.tokens.len()
            invariant
                self@ == (ParserModel { token_index: self@.token_index, ..old(self)@ }),
                t == old(self)@.tokens,
                start == old(self)@.token_index,
                command@ + command_arguments(t, self@.token_index) == command_arguments(t, start),
                command_end(t, self@.token_index) == command_end(t, start),
            decreases t.len() - self@.token_index,
        {
            let ghost i = self@.token_index;
            let token = &self.tokens[self.token_index];
            assert(t[i] == self.tokens@[i]@);
            if token.class == CommandLineTokenType::Argument {
                let ghost before = command@;
                command.push_argument(token.lexeme.clone());
                assert(command@ + command_arguments(t, i + 1) =~= before + command_arguments(t, i));
            } else {
                assert(command@ + seq![] =~= command@);
                return command;
            }
            self.token_index = self.token_index + 1;
        }
        assert(command@ + seq![] =~= command@);
        command
    }
}

} // verus!
