//! Commands to run, and what came of running one.

use vstd::prelude::*;
use vstd::string::*;

use crate::text;

verus! {

/// What a command consists of.
#[verifier::ext_equal]
pub struct CommandView {
    pub program: Seq<char>,
    pub args: Seq<Seq<char>>,
}

/// A program to run, and its arguments.
#[derive(Debug, Clone, PartialEq, Eq)]
pub struct Command {
    pub program: String,
    pub args: Vec<String>,
}

impl View for Command {
    type V = CommandView;

    open spec fn view(&self) -> CommandView {
        CommandView { program: self.program@, args: text::views(self.args@) }
    }
}

/// The contents of each command of a list.
pub open spec fn command_views(list: Seq<Command>) -> Seq<CommandView> {
    list.map_values(|c: Command| c@)
}

/// The contents of each string of a list.
pub open spec fn str_views(list: Seq<&str>) -> Seq<Seq<char>> {
    list.map_values(|s: &str| s@)
}

/// The strings of `list`, owned.
pub fn strings(list: &[&str]) -> (r: Vec<String>)
    ensures
        text::views(r@) == str_views(list@),
{
    broadcast use text::lemma_views_push;

    let mut out: Vec<String> = Vec::new();
    let mut i: usize = 0;
    assert(text::views(out@) =~= str_views(list@).take(0));
    while i < list.len()
        invariant
            i <= list@.len(),
            text::views(out@) == str_views(list@).take(i as int),
        decreases list@.len() - i,
    {
        let item: &str = list[i];
        let ghost before = text::views(out@);
        out.push(item.to_owned());
        assert(before.push(item@) =~= str_views(list@).take(i + 1));
        i = i + 1;
    }
    assert(text::views(out@) =~= str_views(list@));
    out
}

/// The command that runs `program` with `args`.
pub fn command(program: &str, args: &[&str]) -> (r: Command)
    ensures
        r@ == (CommandView { program: program@, args: str_views(args@) }),
{
    Command { program: program.to_owned(), args: strings(args) }
}

/// What came of running a command whose output is of no interest.
#[derive(Debug, Clone, PartialEq, Eq)]
pub enum Exit {
    Success,
    /// It ran and failed, with a status that is described in words.
    Failure { status: String },
    /// It could not be run.
    NotRun { err: String },
}

} // verus!
