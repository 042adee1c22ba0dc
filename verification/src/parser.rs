//! Parsing a line's tokens into a `Command`: words, pipes `|`, redirections
//! `>` and `<`, and a trailing `&`.

use vstd::prelude::*;
use crate::command::{simple_model, Command, CommandModel, SimpleCommand, SimpleCommandModel};
use crate::grammar::{accepted, lemma_operators_distinct, lemma_parse_grammar, parsed_model};
use crate::text::{join_spaced, owned, str_eq};

verus! {

/// What the previous token was, which decides what may come next.
#[allow(non_camel_case_types)]
#[derive(Clone, Copy, PartialEq, Eq, Debug)]
pub enum Vocab {
    /// After `&`: nothing may follow.
    NONE,
    /// After the first word of a simple command.
    CMD,
    /// After a further word of a simple command.
    WORD,
    /// After `|`, and at the start: a command word must follow.
    PIPE,
    /// After `>`: a file name must follow.
    GREAT,
    /// After `<`: a file name must follow.
    LESS,
    /// After the file name of a redirection.
    REDIR_WORD,
}

/// Whether an operator may follow a token of this kind.
pub open spec fn after_word(v: Vocab) -> bool {
    v == Vocab::CMD || v == Vocab::WORD || v == Vocab::REDIR_WORD
}

/// Whether the line may not end after a token of this kind.
pub open spec fn awaits_word(v: Vocab) -> bool {
    v == Vocab::PIPE || v == Vocab::GREAT || v == Vocab::LESS
}

/// Whether `tok` is one of the operators `|`, `>`, `<`, `&`.
pub open spec fn is_operator(tok: Seq<char>) -> bool {
    tok == "|"@ || tok == ">"@ || tok == "<"@ || tok == "&"@
}

/// `cmd` with its last simple command changed by `f`, when it has one.
pub open spec fn map_last(cmd: CommandModel, f: spec_fn(SimpleCommandModel) -> SimpleCommandModel) -> CommandModel {
    if cmd.simple_commands.len() > 0 {
        CommandModel {
            simple_commands: cmd.simple_commands.update(
                cmd.simple_commands.len() - 1,
                f(cmd.simple_commands.last()),
            ),
            ..cmd
        }
    } else {
        cmd
    }
}

/// One token's effect: the next kind and command, or the error message.
pub open spec fn parse_step(last: Vocab, cmd: CommandModel, tok: Seq<char>) -> Result<(Vocab, CommandModel), Seq<char>> {
    if tok == "|"@ {
        if after_word(last) { Ok((Vocab::PIPE, cmd)) } else { Err("Unexpected |"@) }
    } else if tok == ">"@ {
        if after_word(last) { Ok((Vocab::GREAT, cmd)) } else { Err("Unexpected >"@) }
    } else if tok == "<"@ {
        if after_word(last) { Ok((Vocab::LESS, cmd)) } else { Err("Unexpected <"@) }
    } else if tok == "&"@ {
        if after_word(last) {
            Ok((Vocab::NONE, CommandModel { background: true, ..cmd }))
        } else {
            Err("Unexpected &"@)
        }
    } else {
        match last {
            Vocab::CMD | Vocab::WORD => Ok((
                Vocab::WORD,
                map_last(cmd, |s: SimpleCommandModel| SimpleCommandModel { arguments: s.arguments.push(tok), ..s }),
            )),
            Vocab::PIPE => Ok((
                Vocab::CMD,
                CommandModel { simple_commands: cmd.simple_commands.push(simple_model(seq![tok])), ..cmd },
            )),
            Vocab::GREAT => Ok((
                Vocab::REDIR_WORD,
                map_last(cmd, |s: SimpleCommandModel| SimpleCommandModel { out_file: Some(tok), ..s }),
            )),
            Vocab::LESS => Ok((
                Vocab::REDIR_WORD,
                map_last(cmd, |s: SimpleCommandModel| SimpleCommandModel { in_file: Some(tok), ..s }),
            )),
            Vocab::NONE | Vocab::REDIR_WORD => Err("Unexpected syntax: "@ + tok),
        }
    }
}

/// Parsing the rest `toks` from the state `(last, cmd)`.
pub open spec fn parse_from(last: Vocab, cmd: CommandModel, toks: Seq<Seq<char>>) -> Result<CommandModel, Seq<char>>
    decreases toks.len(),
{
    if toks.len() == 0 {
        if awaits_word(last) { Err("Incomplete command"@) } else { Ok(cmd) }
    } else {
        match parse_step(last, cmd, toks[0]) {
            Ok((next, c)) => parse_from(next, c, toks.drop_first()),
            Err(e) => Err(e),
        }
    }
}

/// The state before the first token.
pub open spec fn start_command(toks: Seq<Seq<char>>) -> CommandModel {
    CommandModel { simple_commands: Seq::empty(), background: false, cmd_line: join_spaced(toks) }
}

/// What parsing `toks` gives: the command, or the message of the first error.
pub open spec fn spec_parse(toks: Seq<Seq<char>>) -> Result<CommandModel, Seq<char>> {
    parse_from(Vocab::PIPE, start_command(toks), toks)
}

/// The result of a parse, by the models of its values.
pub open spec fn parse_result_model(res: Result<Command, String>) -> Result<CommandModel, Seq<char>> {
    match res {
        Ok(c) => Ok(c@),
        Err(e) => Err(e@),
    }
}

/// Applies one token to `output` after a token of kind `last`.
fn parse_token(last: Vocab, output: &mut Command, tok: &str) -> (res: Result<Vocab, String>)
    ensures
        match parse_step(last, old(output)@, tok@) {
            Ok((next, c)) => res == Ok::<Vocab, String>(next) && final(output)@ == c,
            Err(e) => res is Err && res->Err_0@ == e,
        },
{
    let follows = match last {
        Vocab::CMD | Vocab::WORD | Vocab::REDIR_WORD => true,
        _ => false,
    };
    if str_eq(tok, "|") {
        if follows { Ok(Vocab::PIPE) } else { Err(owned("Unexpected |")) }
    } else if str_eq(tok, ">") {
        if follows { Ok(Vocab::GREAT) } else { Err(owned("Unexpected >")) }
    } else if str_eq(tok, "<") {
        if follows { Ok(Vocab::LESS) } else { Err(owned("Unexpected <")) }
    } else if str_eq(tok, "&") {
        output.background = true;
        if follows { Ok(Vocab::NONE) } else { Err(owned("Unexpected &")) }
    } else {
        let n = output.simple_commands.len();
        let ghost before = output@;
        match last {
            Vocab::CMD | Vocab::WORD => {
                if n > 0 {
                    output.simple_commands[n - 1].insert_argument(owned(tok));
                    assert(output@.simple_commands =~= before.simple_commands.update(
                        n - 1,
                        SimpleCommandModel {
                            arguments: before.simple_commands.last().arguments.push(tok@),
                            ..before.simple_commands.last()
                        },
                    ));
                }
                Ok(Vocab::WORD)
            },
            Vocab::PIPE => {
                output.insert_simple_command(SimpleCommand::new_with_command(tok));
                Ok(Vocab::CMD)
            },
            Vocab::GREAT => {
                if n > 0 {
                    output.simple_commands[n - 1].out_file = Some(owned(tok));
                    assert(output@.simple_commands =~= before.simple_commands.update(
                        n - 1,
                        SimpleCommandModel { out_file: Some(tok@), ..before.simple_commands.last() },
                    ));
                }
                Ok(Vocab::REDIR_WORD)
            },
            Vocab::LESS => {
                if n > 0 {
                    output.simple_commands[n - 1].in_file = Some(owned(tok));
                    assert(output@.simple_commands =~= before.simple_commands.update(
                        n - 1,
                        SimpleCommandModel { in_file: Some(tok@), ..before.simple_commands.last() },
                    ));
                }
                Ok(Vocab::REDIR_WORD)
            },
            Vocab::NONE | Vocab::REDIR_WORD => {
                let msg = owned("Unexpected syntax: ").concat(tok);
                Err(msg)
            },
        }
    }
}

/// Joins `tokens` with single spaces.
fn join_tokens(tokens: &Vec<&str>) -> (res: String)
    ensures
        res@ == join_spaced(tokens.deep_view()),
{
    let mut res = String::new();
    let n = tokens.len();
    let mut i: usize = 0;
    while i < n
        invariant
            n == tokens@.len(),
            i <= n,
            res@ == join_spaced(tokens.deep_view().take(i as int)),
        decreases n - i,
    {
        let ghost toks = tokens.deep_view();
        assert(toks.take(i + 1).drop_last() =~= toks.take(i as int));
        if i > 0 {
            res.append(" ");
        }
        res.append(tokens[i]);
        i = i + 1;
    }
    assert(tokens.deep_view().take(n as int) =~= tokens.deep_view());
    res
}

/// Parses the tokens of a line (see `crate::grammar` for the language
/// stated directly). A line is simple commands separated by `|`;
/// a simple command is a word followed by words and by redirections `> file`
/// and `< file` (no word may follow a redirection); the line may end with `&`
/// to run in the background. On the first token that breaks these rules, or
/// when the line ends awaiting a word, the error message is returned.
pub fn parse_tokens(tokens: Vec<&str>) -> (res: Result<Command, String>)
    ensures
        parse_result_model(res) == spec_parse(tokens.deep_view()),
        res is Ok <==> accepted(tokens.deep_view()),
        res matches Ok(c) ==> c@ == parsed_model(tokens.deep_view()),
{
    let ghost toks = tokens.deep_view();
    proof {
        lemma_parse_grammar(toks);
    }
    let mut last_token = Vocab::PIPE;
    let mut output = Command::new();
    output.cmd_line = join_tokens(&tokens);
    let n = tokens.len();
    let mut i: usize = 0;
    assert(toks.skip(0) =~= toks);
    while i < n
        invariant
            n == tokens@.len(),
            toks == tokens.deep_view(),
            i <= n,
            spec_parse(toks) == parse_from(last_token, output@, toks.skip(i as int)),
            spec_parse(toks) is Ok <==> accepted(toks),
            accepted(toks) ==> spec_parse(toks) == Ok::<CommandModel, Seq<char>>(parsed_model(toks)),
        decreases n - i,
    {
        let ghost rest = toks.skip(i as int);
        assert(rest[0] == toks[i as int]);
        assert(rest.drop_first() =~= toks.skip(i + 1));
        match parse_token(last_token, &mut output, tokens[i]) {
            Ok(next) => {
                last_token = next;
            },
            Err(e) => {
                return Err(e);
            },
        }
        i = i + 1;
    }
    match last_token {
        Vocab::PIPE | Vocab::GREAT | Vocab::LESS => Err(owned("Incomplete command")),
        _ => Ok(output),
    }
}

} // verus!

verus! {

/// How many of `toks` are `|`.
pub open spec fn count_pipes(toks: Seq<Seq<char>>) -> nat
    decreases toks.len(),
{
    if toks.len() == 0 {
        0
    } else {
        (if toks[0] == "|"@ { 1nat } else { 0nat }) + count_pipes(toks.drop_first())
    }
}

/// Every simple command has a first word, and no word is an operator.
pub open spec fn well_formed_commands(cmds: Seq<SimpleCommandModel>) -> bool {
    forall|i: int|
        0 <= i < cmds.len() ==> #[trigger] cmds[i].arguments.len() >= 1 && forall|j: int|
            0 <= j < cmds[i].arguments.len() ==> !is_operator(#[trigger] cmds[i].arguments[j])
}

/// What holds of the result of parsing the rest of a line from a reachable state.
proof fn lemma_parse_from(last: Vocab, cmd: CommandModel, toks: Seq<Seq<char>>)
    requires
        well_formed_commands(cmd.simple_commands),
        cmd.background ==> last == Vocab::NONE,
    ensures
        parse_from(last, cmd, toks) matches Ok(c) ==> {
            &&& c.simple_commands.len() == cmd.simple_commands.len() + count_pipes(toks) + (if last
                == Vocab::PIPE {
                1int
            } else {
                0int
            })
            &&& well_formed_commands(c.simple_commands)
            &&& c.background == (if toks.len() == 0 {
                cmd.background
            } else {
                toks.last() == "&"@
            })
            &&& c.cmd_line == cmd.cmd_line
        },
    decreases toks.len(),
{
    reveal_strlit("|");
    reveal_strlit(">");
    reveal_strlit("<");
    reveal_strlit("&");
    if toks.len() > 0 {
        let tok = toks[0];
        let rest = toks.drop_first();
        if let Ok((next, c)) = parse_step(last, cmd, tok) {
            let n = cmd.simple_commands.len();
            if !is_operator(tok) && (last == Vocab::CMD || last == Vocab::WORD || last == Vocab::GREAT
                || last == Vocab::LESS) && n > 0 {
                let s = cmd.simple_commands.last();
                assert(c.simple_commands[n - 1].arguments.len() >= 1);
                assert forall|i: int| 0 <= i < c.simple_commands.len() implies #[trigger] c.simple_commands[i].arguments.len() >= 1 && forall|j: int|
                    0 <= j < c.simple_commands[i].arguments.len() ==> !is_operator(#[trigger] c.simple_commands[i].arguments[j]) by {
                    if i == n - 1 {
                        assert forall|j: int| 0 <= j < c.simple_commands[i].arguments.len() implies !is_operator(#[trigger] c.simple_commands[i].arguments[j]) by {
                            if j < s.arguments.len() {
                                assert(c.simple_commands[i].arguments[j] == cmd.simple_commands[n - 1].arguments[j]);
                            }
                        }
                    } else {
                        assert(c.simple_commands[i] == cmd.simple_commands[i]);
                    }
                }
            }
            if !is_operator(tok) && last == Vocab::PIPE {
                assert forall|i: int| 0 <= i < c.simple_commands.len() implies #[trigger] c.simple_commands[i].arguments.len() >= 1 && forall|j: int|
                    0 <= j < c.simple_commands[i].arguments.len() ==> !is_operator(#[trigger] c.simple_commands[i].arguments[j]) by {
                    if i < n {
                        assert(c.simple_commands[i] == cmd.simple_commands[i]);
                    } else {
                        assert(c.simple_commands[i].arguments =~= seq![tok]);
                    }
                }
            }
            lemma_parse_from(next, c, rest);
            if rest.len() > 0 {
                assert(rest.last() == toks.last());
            }
        }
    }
}

/// A line that parses has one simple command more than it has `|` tokens;
/// each simple command has a first word; no word is an operator; the command
/// runs in the background exactly when the last token is `&`; and its line is
/// the tokens joined with single spaces.
pub proof fn lemma_parse_shape(toks: Seq<Seq<char>>)
    ensures
        spec_parse(toks) matches Ok(c) ==> {
            &&& c.simple_commands.len() == count_pipes(toks) + 1
            &&& well_formed_commands(c.simple_commands)
            &&& c.background == (toks.len() > 0 && toks.last() == "&"@)
            &&& c.cmd_line == join_spaced(toks)
        },
{
    lemma_parse_from(Vocab::PIPE, start_command(toks), toks);
}

} // verus!

verus! {

/// The messages that parsing can fail with.
pub open spec fn is_parse_error(e: Seq<char>, toks: Seq<Seq<char>>) -> bool {
    ||| e == "Unexpected |"@
    ||| e == "Unexpected >"@
    ||| e == "Unexpected <"@
    ||| e == "Unexpected &"@
    ||| e == "Incomplete command"@
    ||| exists|i: int| 0 <= i < toks.len() && e == "Unexpected syntax: "@ + #[trigger] toks[i]
}

/// Every failure is reported with one of the fixed messages, or as
/// unexpected syntax at one of the line's own tokens.
proof fn lemma_parse_from_errors(last: Vocab, cmd: CommandModel, toks: Seq<Seq<char>>)
    ensures
        parse_from(last, cmd, toks) matches Err(e) ==> is_parse_error(e, toks),
    decreases toks.len(),
{
    if toks.len() > 0 {
        match parse_step(last, cmd, toks[0]) {
            Ok((next, c)) => {
                lemma_parse_from_errors(next, c, toks.drop_first());
                if let Err(e) = parse_from(next, c, toks.drop_first()) {
                    if !(e == "Unexpected |"@ || e == "Unexpected >"@ || e == "Unexpected <"@ || e == "Unexpected &"@
                        || e == "Incomplete command"@) {
                        let i = choose|i: int| 0 <= i < toks.drop_first().len() && e == "Unexpected syntax: "@ + #[trigger] toks.drop_first()[i];
                        assert(toks[i + 1] == toks.drop_first()[i]);
                    }
                }
            },
            Err(e) => {
                assert(toks[0] == toks[0]);
            },
        }
    }
}

/// What a failed parse reports: one of the fixed messages, or unexpected
/// syntax at one of the line's tokens. A line that begins with an operator
/// fails at it, naming it, and an empty line is incomplete.
pub proof fn law_parse_errors(toks: Seq<Seq<char>>)
    ensures
        spec_parse(toks) matches Err(e) ==> is_parse_error(e, toks),
        toks.len() == 0 ==> spec_parse(toks) == Err::<CommandModel, Seq<char>>("Incomplete command"@),
        toks.len() > 0 && toks[0] == "|"@ ==> spec_parse(toks) == Err::<CommandModel, Seq<char>>("Unexpected |"@),
        toks.len() > 0 && toks[0] == ">"@ ==> spec_parse(toks) == Err::<CommandModel, Seq<char>>("Unexpected >"@),
        toks.len() > 0 && toks[0] == "<"@ ==> spec_parse(toks) == Err::<CommandModel, Seq<char>>("Unexpected <"@),
        toks.len() > 0 && toks[0] == "&"@ ==> spec_parse(toks) == Err::<CommandModel, Seq<char>>("Unexpected &"@),
{
    lemma_operators_distinct();
    lemma_parse_from_errors(Vocab::PIPE, start_command(toks), toks);
}

} // verus!

verus! {

/// A parse result's model keeps success or failure, and the message.
pub proof fn law_parse_result_model(c: Command, e: String)
    ensures
        parse_result_model(Ok(c)) == Ok::<CommandModel, Seq<char>>(c@),
        parse_result_model(Err(e)) == Err::<CommandModel, Seq<char>>(e@),
{
}

} // verus!
