//! The parsed form of a command line: a pipeline of simple commands, each
//! with its words and optional redirections, and whether it runs in the
//! background.

use vstd::prelude::*;
use crate::text::owned;

verus! {

/// What a `SimpleCommand` holds, as sequences of characters.
pub struct SimpleCommandModel {
    pub arguments: Seq<Seq<char>>,
    pub out_file: Option<Seq<char>>,
    pub in_file: Option<Seq<char>>,
    pub err_file: Option<Seq<char>>,
}

/// What a `Command` holds, as sequences of characters.
pub struct CommandModel {
    pub simple_commands: Seq<SimpleCommandModel>,
    pub background: bool,
    pub cmd_line: Seq<char>,
}

/// One program of a pipeline: its name and arguments, and where its
/// standard streams are redirected.
#[derive(Debug)]
pub struct SimpleCommand {
    pub arguments: Vec<String>,
    pub out_file: Option<String>,
    pub in_file: Option<String>,
    pub err_file: Option<String>,
}

impl View for SimpleCommand {
    type V = SimpleCommandModel;

    open spec fn view(&self) -> SimpleCommandModel {
        SimpleCommandModel {
            arguments: self.arguments.deep_view(),
            out_file: self.out_file.deep_view(),
            in_file: self.in_file.deep_view(),
            err_file: self.err_file.deep_view(),
        }
    }
}

/// A simple command with the given words and no redirection.
pub open spec fn simple_model(arguments: Seq<Seq<char>>) -> SimpleCommandModel {
    SimpleCommandModel { arguments, out_file: None, in_file: None, err_file: None }
}

impl SimpleCommand {
    /// A simple command with no words and no redirection.
    pub fn new() -> (res: Self)
        ensures
            res@ == simple_model(Seq::empty()),
    {
        let res = SimpleCommand { arguments: Vec::new(), out_file: None, in_file: None, err_file: None };
        assert(res@.arguments =~= Seq::<Seq<char>>::empty());
        res
    }

    /// A simple command whose only word is `cmd`.
    pub fn new_with_command(cmd: &str) -> (res: Self)
        ensures
            res@ == simple_model(seq![cmd@]),
    {
        let mut arguments: Vec<String> = Vec::new();
        arguments.push(owned(cmd));
        let res = SimpleCommand { arguments, out_file: None, in_file: None, err_file: None };
        assert(res@.arguments =~= seq![cmd@]);
        res
    }

    /// Appends `argument` to the words, leaving the redirections as they are.
    pub fn insert_argument(&mut self, argument: String)
        ensures
            final(self)@ == (SimpleCommandModel {
                arguments: old(self)@.arguments.push(argument@),
                ..old(self)@
            }),
    {
        let ghost before = self.arguments.deep_view();
        self.arguments.push(argument);
        assert(self.arguments.deep_view() =~= before.push(argument@));
    }
}

/// A pipeline of simple commands, with the line it was parsed from.
#[derive(Debug)]
pub struct Command {
    pub simple_commands: Vec<SimpleCommand>,
    pub background: bool,
    pub cmd_line: String,
}

/// The models of the simple commands in `v`, in order.
pub open spec fn simple_models(v: Seq<SimpleCommand>) -> Seq<SimpleCommandModel> {
    Seq::new(v.len(), |i: int| v[i]@)
}

impl View for Command {
    type V = CommandModel;

    open spec fn view(&self) -> CommandModel {
        CommandModel {
            simple_commands: simple_models(self.simple_commands@),
            background: self.background,
            cmd_line: self.cmd_line@,
        }
    }
}

/// The command with no simple command, in the foreground, from an empty line.
pub open spec fn empty_command() -> CommandModel {
    CommandModel { simple_commands: Seq::empty(), background: false, cmd_line: Seq::empty() }
}

impl Command {
    /// An empty pipeline in the foreground.
    pub fn new() -> (res: Self)
        ensures
            res@ == empty_command(),
    {
        let res = Command { simple_commands: Vec::new(), background: false, cmd_line: String::new() };
        assert(res@.simple_commands =~= Seq::<SimpleCommandModel>::empty());
        res
    }

    /// Appends `simple_command` at the end of the pipeline.
    pub fn insert_simple_command(&mut self, simple_command: SimpleCommand)
        ensures
            final(self)@ == (CommandModel {
                simple_commands: old(self)@.simple_commands.push(simple_command@),
                ..old(self)@
            }),
    {
        let ghost before = simple_models(self.simple_commands@);
        let ghost added = simple_command@;
        self.simple_commands.push(simple_command);
        assert(simple_models(self.simple_commands@) =~= before.push(added));
    }

    /// Empties the pipeline, puts it back in the foreground and forgets its line.
    pub fn clear(&mut self)
        ensures
            final(self)@ == empty_command(),
    {
        self.simple_commands.clear();
        self.background = false;
        self.cmd_line = String::new();
        assert(simple_models(self.simple_commands@) =~= Seq::<SimpleCommandModel>::empty());
    }
}

} // verus!

verus! {

/// An empty command has no simple command, runs in the foreground and has
/// an empty line.
pub proof fn law_empty_command()
    ensures
        empty_command().simple_commands.len() == 0,
        !empty_command().background,
        empty_command().cmd_line.len() == 0,
{
}

} // verus!
