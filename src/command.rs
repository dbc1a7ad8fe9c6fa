//! The command tree that the parser builds and the executor walks.

use vstd::prelude::*;

verus! {

/// When a pipeline runs, given the status of the item before it.
#[derive(PartialEq, Eq, Structural, Clone, Copy, Debug)]
pub enum RunConditions {
    Always,
    IfTrue,
    IfFalse,
}

/// Whether a pipeline with condition `c` runs after an item that ended with `status`.
pub open spec fn runs_after(c: RunConditions, status: i8) -> bool {
    match c {
        RunConditions::Always => true,
        RunConditions::IfTrue => status == 0,
        RunConditions::IfFalse => status != 0,
    }
}

/// A command: its program name followed by its arguments.
#[derive(Debug)]
pub struct Command {
    pub arguments: Vec<String>,
}

/// The texts of a sequence of strings.
pub open spec fn texts(v: Seq<String>) -> Seq<Seq<char>> {
    v.map_values(|s: String| s@)
}

impl View for Command {
    type V = Seq<Seq<char>>;

    open spec fn view(&self) -> Seq<Seq<char>> {
        texts(self.arguments@)
    }
}

/// Commands meant to be connected by `|`, with the condition under which they run.
#[derive(Debug)]
pub struct Pipeline {
    pub commands: Vec<Command>,
    pub run_conditions: RunConditions,
}

/// A pipeline as plain values.
pub struct PipelineModel {
    pub commands: Seq<Seq<Seq<char>>>,
    pub condition: RunConditions,
}

/// The views of a sequence of commands.
pub open spec fn command_views(v: Seq<Command>) -> Seq<Seq<Seq<char>>> {
    v.map_values(|c: Command| c@)
}

impl View for Pipeline {
    type V = PipelineModel;

    open spec fn view(&self) -> PipelineModel {
        PipelineModel { commands: command_views(self.commands@), condition: self.run_conditions }
    }
}

/// One item of a command list.
#[derive(Debug)]
pub enum CommandListItem {
    Pipeline(Pipeline),
    Subshell(CommandList),
}

/// The items of one statement, or of the body of a parenthesised group.
pub type CommandList = Vec<CommandListItem>;

/// A command list item as plain values.
pub enum ItemModel {
    Pipeline(PipelineModel),
    Subshell(Seq<ItemModel>),
}

/// The view of one item.
pub open spec fn item_view(item: CommandListItem) -> ItemModel
    decreases item,
{
    match item {
        CommandListItem::Pipeline(p) => ItemModel::Pipeline(p@),
        CommandListItem::Subshell(l) => {
            proof {
                vstd::std_specs::vec::axiom_vec_decreases_to_view(l);
            }
            ItemModel::Subshell(list_view(l@))
        },
    }
}

/// The views of a sequence of items.
pub open spec fn list_view(items: Seq<CommandListItem>) -> Seq<ItemModel>
    decreases items,
{
    if items.len() == 0 {
        seq![]
    } else {
        proof {
            vstd::seq::axiom_seq_subrange_decreases(items, 0, items.len() - 1);
            vstd::seq::axiom_seq_index_decreases(items, items.len() - 1);
        }
        list_view(items.drop_last()).push(item_view(items.last()))
    }
}

/// The view of a sequence of items has one entry per item, in order.
pub proof fn lemma_list_view_index(items: Seq<CommandListItem>)
    ensures
        list_view(items).len() == items.len(),
        forall|k: int| 0 <= k < items.len() ==> #[trigger] list_view(items)[k] == item_view(items[k]),
    decreases items.len(),
{
    if items.len() > 0 {
        lemma_list_view_index(items.drop_last());
    }
}

impl View for CommandListItem {
    type V = ItemModel;

    open spec fn view(&self) -> ItemModel {
        item_view(*self)
    }
}

impl Command {
    pub fn new() -> (r: Command)
        ensures
            r@ == Seq::<Seq<char>>::empty(),
    {
        let r = Command { arguments: Vec::new() };
        assert(r@ =~= Seq::<Seq<char>>::empty());
        r
    }

    pub fn push_argument(&mut self, argument: String)
        ensures
            final(self)@ == old(self)@.push(argument@),
    {
        self.arguments.push(argument);
        assert(final(self)@ =~= old(self)@.push(argument@));
    }
}

impl Pipeline {
    fn with_condition(c: RunConditions) -> (r: Pipeline)
        ensures
            r@ == (PipelineModel { commands: seq![], condition: c }),
    {
        let r = Pipeline { commands: Vec::new(), run_conditions: c };
        assert(r@.commands =~= seq![]);
        r
    }

    pub fn always() -> (r: Pipeline)
        ensures
            r@ == (PipelineModel { commands: seq![], condition: RunConditions::Always }),
    {
        Pipeline::with_condition(RunConditions::Always)
    }

    pub fn if_true() -> (r: Pipeline)
        ensures
            r@ == (PipelineModel { commands: seq![], condition: RunConditions::IfTrue }),
    {
        Pipeline::with_condition(RunConditions::IfTrue)
    }

    pub fn if_false() -> (r: Pipeline)
        ensures
            r@ == (PipelineModel { commands: seq![], condition: RunConditions::IfFalse }),
    {
        Pipeline::with_condition(RunConditions::IfFalse)
    }

    pub fn push_command(&mut self, command: Command)
        ensures
            final(self)@ == (PipelineModel {
                commands: old(self)@.commands.push(command@),
                condition: old(self)@.condition,
            }),
    {
        self.commands.push(command);
        assert(final(self)@.commands =~= old(self)@.commands.push(command@));
    }

    pub fn len(&self) -> (r: usize)
        ensures
            r == self@.commands.len(),
    {
        self.commands.len()
    }
}

} // verus!
