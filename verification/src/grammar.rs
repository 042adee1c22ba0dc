//! The language that the parser accepts, stated directly as a grammar, and
//! what it builds of each part of a line.
//!
//! A line is `body` or `body &`; `body` is split at each `|` into segments;
//! each segment is a word, more words, then redirections `> word` or
//! `< word`. A segment's words are its arguments, and of several
//! redirections of one kind the last one wins.

use vstd::prelude::*;
use crate::command::{simple_model, CommandModel, SimpleCommandModel};
use crate::parser::{after_word, awaits_word, is_operator, parse_from, parse_step, spec_parse, start_command, Vocab};

verus! {

/// A token that is not an operator.
pub open spec fn is_word(t: Seq<char>) -> bool {
    !is_operator(t)
}

/// A redirection operator.
pub open spec fn is_redir(t: Seq<char>) -> bool {
    t == ">"@ || t == "<"@
}

/// How many words begin `s`.
pub open spec fn word_count(s: Seq<Seq<char>>) -> nat
    decreases s.len(),
{
    if s.len() == 0 || !is_word(s[0]) {
        0
    } else {
        1 + word_count(s.drop_first())
    }
}

/// `r` is a sequence of redirections, each an operator `>` or `<` and a word.
pub open spec fn redirections_ok(r: Seq<Seq<char>>) -> bool
    decreases r.len(),
{
    if r.len() == 0 {
        true
    } else {
        r.len() >= 2 && is_redir(r[0]) && is_word(r[1]) && redirections_ok(r.skip(2))
    }
}

/// The word of the last redirection with operator `op` in `r`.
pub open spec fn last_target(r: Seq<Seq<char>>, op: Seq<char>) -> Option<Seq<char>>
    decreases r.len(),
{
    if r.len() < 2 {
        None
    } else {
        match last_target(r.skip(2), op) {
            Some(t) => Some(t),
            None => if r[0] == op { Some(r[1]) } else { None },
        }
    }
}

/// A file slot after the redirections `r`: the last target for `op`, or `old` when there is none.
pub open spec fn with_target(old: Option<Seq<char>>, r: Seq<Seq<char>>, op: Seq<char>) -> Option<Seq<char>> {
    match last_target(r, op) {
        Some(t) => Some(t),
        None => old,
    }
}

/// A well-formed segment: a word, more words, then redirections.
pub open spec fn segment_ok(seg: Seq<Seq<char>>) -> bool {
    seg.len() >= 1 && is_word(seg[0]) && redirections_ok(seg.skip(word_count(seg) as int))
}

/// The simple command of a well-formed segment: its words, and the last
/// target of each kind of redirection.
pub open spec fn segment_model(seg: Seq<Seq<char>>) -> SimpleCommandModel {
    let k = word_count(seg) as int;
    SimpleCommandModel {
        arguments: seg.take(k),
        out_file: last_target(seg.skip(k), ">"@),
        in_file: last_target(seg.skip(k), "<"@),
        err_file: None,
    }
}

/// How many tokens precede the first `|` of `s` (all of them when there is none).
pub open spec fn segment_len(s: Seq<Seq<char>>) -> nat
    decreases s.len(),
{
    if s.len() == 0 || s[0] == "|"@ {
        0
    } else {
        1 + segment_len(s.drop_first())
    }
}

/// The segment is free of `|`, and `|` or the end follows it.
pub proof fn lemma_segment_len(s: Seq<Seq<char>>)
    ensures
        segment_len(s) <= s.len(),
        forall|j: int| 0 <= j < segment_len(s) ==> s[j] != "|"@,
        segment_len(s) < s.len() ==> s[segment_len(s) as int] == "|"@,
    decreases s.len(),
{
    if s.len() > 0 && s[0] != "|"@ {
        lemma_segment_len(s.drop_first());
        assert forall|j: int| 0 <= j < segment_len(s) implies s[j] != "|"@ by {
            if j > 0 {
                assert(s[j] == s.drop_first()[j - 1]);
            }
        }
    }
}

/// The segments between the `|` tokens of `s`, in order.
pub open spec fn pipe_segments(s: Seq<Seq<char>>) -> Seq<Seq<Seq<char>>>
    decreases s.len(),
{
    let k = segment_len(s);
    proof {
        lemma_segment_len(s);
    }
    if k >= s.len() {
        seq![s]
    } else {
        seq![s.take(k as int)] + pipe_segments(s.skip((k + 1) as int))
    }
}

/// Whether the line ends with `&`.
pub open spec fn ends_in_background(toks: Seq<Seq<char>>) -> bool {
    toks.len() > 0 && toks.last() == "&"@
}

/// The line without its trailing `&`.
pub open spec fn line_body(toks: Seq<Seq<char>>) -> Seq<Seq<char>> {
    if ends_in_background(toks) { toks.drop_last() } else { toks }
}

/// The lines that parse: every segment of the body is well formed.
pub open spec fn accepted(toks: Seq<Seq<char>>) -> bool {
    forall|i: int| 0 <= i < pipe_segments(line_body(toks)).len() ==> segment_ok(#[trigger] pipe_segments(line_body(toks))[i])
}

/// What an accepted line parses into.
pub open spec fn parsed_model(toks: Seq<Seq<char>>) -> CommandModel {
    CommandModel {
        simple_commands: pipe_segments(line_body(toks)).map_values(|seg: Seq<Seq<char>>| segment_model(seg)),
        background: ends_in_background(toks),
        cmd_line: start_command(toks).cmd_line,
    }
}

/// The parser's steps over `toks`, without the check at the end of the line.
pub open spec fn run(last: Vocab, cmd: CommandModel, toks: Seq<Seq<char>>) -> Result<(Vocab, CommandModel), Seq<char>>
    decreases toks.len(),
{
    if toks.len() == 0 {
        Ok((last, cmd))
    } else {
        match parse_step(last, cmd, toks[0]) {
            Ok((next, c)) => run(next, c, toks.drop_first()),
            Err(e) => Err(e),
        }
    }
}

/// Parsing is the steps followed by the check at the end.
pub proof fn lemma_parse_from_run(last: Vocab, cmd: CommandModel, toks: Seq<Seq<char>>)
    ensures
        parse_from(last, cmd, toks) == (match run(last, cmd, toks) {
            Ok((v, c)) => if awaits_word(v) { Err("Incomplete command"@) } else { Ok(c) },
            Err(e) => Err(e),
        }),
    decreases toks.len(),
{
    if toks.len() > 0 {
        if let Ok((next, c)) = parse_step(last, cmd, toks[0]) {
            lemma_parse_from_run(next, c, toks.drop_first());
        }
    }
}

/// The steps over two parts of a line are the steps over the first, then the second.
pub proof fn lemma_run_concat(last: Vocab, cmd: CommandModel, a: Seq<Seq<char>>, b: Seq<Seq<char>>)
    ensures
        run(last, cmd, a + b) == (match run(last, cmd, a) {
            Ok((v, c)) => run(v, c, b),
            Err(e) => Err(e),
        }),
    decreases a.len(),
{
    if a.len() == 0 {
        assert(a + b =~= b);
    } else {
        assert((a + b)[0] == a[0]);
        assert((a + b).drop_first() =~= a.drop_first() + b);
        if let Ok((next, c)) = parse_step(last, cmd, a[0]) {
            lemma_run_concat(next, c, a.drop_first(), b);
        }
    }
}

} // verus!

verus! {

/// `cmd` with its last simple command replaced by `s`.
pub open spec fn set_last(cmd: CommandModel, s: SimpleCommandModel) -> CommandModel {
    CommandModel { simple_commands: cmd.simple_commands.update(cmd.simple_commands.len() - 1, s), ..cmd }
}

/// No token of `s` is `|`.
pub open spec fn no_pipe(s: Seq<Seq<char>>) -> bool {
    forall|j: int| 0 <= j < s.len() ==> s[j] != "|"@
}

/// The leading words are words, and what follows them is not a word.
pub proof fn lemma_word_count(s: Seq<Seq<char>>)
    ensures
        word_count(s) <= s.len(),
        forall|j: int| 0 <= j < word_count(s) ==> is_word(#[trigger] s[j]),
        word_count(s) < s.len() ==> !is_word(s[word_count(s) as int]),
    decreases s.len(),
{
    if s.len() > 0 && is_word(s[0]) {
        lemma_word_count(s.drop_first());
        assert forall|j: int| 0 <= j < word_count(s) implies is_word(#[trigger] s[j]) by {
            if j > 0 {
                assert(s[j] == s.drop_first()[j - 1]);
            }
        }
    }
}

/// The four operators are told apart by their single characters.
pub proof fn lemma_operators_distinct()
    ensures
        "|"@ != ">"@,
        "|"@ != "<"@,
        "|"@ != "&"@,
        ">"@ != "<"@,
        ">"@ != "&"@,
        "<"@ != "&"@,
{
    reveal_strlit("|");
    reveal_strlit(">");
    reveal_strlit("<");
    reveal_strlit("&");
    assert("|"@[0] != ">"@[0]);
    assert("|"@[0] != "<"@[0]);
    assert("|"@[0] != "&"@[0]);
    assert(">"@[0] != "<"@[0]);
    assert(">"@[0] != "&"@[0]);
    assert("<"@[0] != "&"@[0]);
}

/// The words of a simple command: each leading word of `s` is appended to
/// the last simple command's arguments.
proof fn lemma_run_words(v: Vocab, cmd: CommandModel, s: Seq<Seq<char>>)
    requires
        v == Vocab::CMD || v == Vocab::WORD,
        cmd.simple_commands.len() > 0,
    ensures
        run(v, cmd, s) == run(
            if word_count(s) > 0 { Vocab::WORD } else { v },
            set_last(
                cmd,
                SimpleCommandModel {
                    arguments: cmd.simple_commands.last().arguments + s.take(word_count(s) as int),
                    ..cmd.simple_commands.last()
                },
            ),
            s.skip(word_count(s) as int),
        ),
    decreases s.len(),
{
    let last = cmd.simple_commands.last();
    let k = word_count(s);
    if k == 0 {
        assert(last.arguments + s.take(0) =~= last.arguments);
        assert(s.skip(0) =~= s);
        assert(set_last(cmd, SimpleCommandModel { arguments: last.arguments + s.take(0), ..last }).simple_commands =~= cmd.simple_commands);
        assert(set_last(cmd, SimpleCommandModel { arguments: last.arguments + s.take(0), ..last }) == cmd);
    } else {
        let t = s[0];
        let c1 = set_last(cmd, SimpleCommandModel { arguments: last.arguments.push(t), ..last });
        assert(parse_step(v, cmd, t) == Ok::<(Vocab, CommandModel), Seq<char>>((Vocab::WORD, c1)));
        let d = s.drop_first();
        lemma_run_words(Vocab::WORD, c1, d);
        let k1 = word_count(d);
        lemma_word_count(d);
        assert(k == k1 + 1);
        assert(c1.simple_commands.last() == SimpleCommandModel { arguments: last.arguments.push(t), ..last });
        assert(last.arguments.push(t) + d.take(k1 as int) =~= last.arguments + s.take(k as int));
        assert(d.skip(k1 as int) =~= s.skip(k as int));
        assert(set_last(c1, SimpleCommandModel { arguments: last.arguments.push(t) + d.take(k1 as int), ..last }).simple_commands
            =~= set_last(cmd, SimpleCommandModel { arguments: last.arguments + s.take(k as int), ..last }).simple_commands);
    }
}

} // verus!

verus! {

/// The last simple command after the redirections `r`.
pub open spec fn redirected(s: SimpleCommandModel, r: Seq<Seq<char>>) -> SimpleCommandModel {
    SimpleCommandModel {
        out_file: with_target(s.out_file, r, ">"@),
        in_file: with_target(s.in_file, r, "<"@),
        ..s
    }
}

/// The redirections of a simple command: well-formed ones set the last
/// command's files, the last of each kind winning; otherwise the steps fail
/// or stop in a state after which no operator may come (and after `&` only
/// when `r` ends with it).
proof fn lemma_run_redirections(v: Vocab, cmd: CommandModel, r: Seq<Seq<char>>)
    requires
        after_word(v),
        cmd.simple_commands.len() > 0,
        no_pipe(r),
        r.len() == 0 || !is_word(r[0]),
    ensures
        redirections_ok(r) ==> run(v, cmd, r) == Ok::<(Vocab, CommandModel), Seq<char>>((
            if r.len() == 0 { v } else { Vocab::REDIR_WORD },
            set_last(cmd, redirected(cmd.simple_commands.last(), r)),
        )),
        !redirections_ok(r) ==> (run(v, cmd, r) is Err || (run(v, cmd, r) matches Ok((w, _)) && !after_word(w) && (
            w == Vocab::NONE ==> r.len() > 0 && r.last() == "&"@))),
    decreases r.len(),
{
    lemma_operators_distinct();
    let last = cmd.simple_commands.last();
    if r.len() == 0 {
        assert(set_last(cmd, redirected(last, r)).simple_commands =~= cmd.simple_commands);
        assert(redirected(last, r) == last);
        assert(set_last(cmd, redirected(last, r)) == cmd);
    } else {
        let t0 = r[0];
        assert(t0 != "|"@);
        let r1 = r.drop_first();
        if t0 == "&"@ {
            let c1 = CommandModel { background: true, ..cmd };
            assert(parse_step(v, cmd, t0) == Ok::<(Vocab, CommandModel), Seq<char>>((Vocab::NONE, c1)));
            if r.len() > 1 {
                assert(run(Vocab::NONE, c1, r1) is Err);
            } else {
                assert(r1.len() == 0);
                assert(r.last() == t0);
            }
        } else {
            let g = if t0 == ">"@ { Vocab::GREAT } else { Vocab::LESS };
            assert(parse_step(v, cmd, t0) == Ok::<(Vocab, CommandModel), Seq<char>>((g, cmd)));
            if r.len() == 1 {
                assert(run(g, cmd, r1) == Ok::<(Vocab, CommandModel), Seq<char>>((g, cmd)));
            } else {
                let t1 = r[1];
                assert(r1[0] == t1);
                assert(t1 != "|"@) by {
                    assert(r[1] != "|"@);
                }
                if is_word(t1) {
                    let s1 = if t0 == ">"@ {
                        SimpleCommandModel { out_file: Some(t1), ..last }
                    } else {
                        SimpleCommandModel { in_file: Some(t1), ..last }
                    };
                    let c2 = set_last(cmd, s1);
                    assert(parse_step(g, cmd, t1) == Ok::<(Vocab, CommandModel), Seq<char>>((Vocab::REDIR_WORD, c2)));
                    let rest = r.skip(2);
                    assert(r1.drop_first() =~= rest);
                    assert(run(v, cmd, r) == run(Vocab::REDIR_WORD, c2, rest));
                    if rest.len() > 0 && is_word(rest[0]) {
                        assert(!redirections_ok(rest));
                        assert(run(Vocab::REDIR_WORD, c2, rest) is Err);
                    } else {
                        assert(no_pipe(rest)) by {
                            assert forall|j: int| 0 <= j < rest.len() implies rest[j] != "|"@ by {
                                assert(rest[j] == r[j + 2]);
                            }
                        }
                        lemma_run_redirections(Vocab::REDIR_WORD, c2, rest);
                        assert(c2.simple_commands.last() == s1);
                        if redirections_ok(r) {
                            assert(redirected(s1, rest) == redirected(last, r));
                            assert(set_last(c2, redirected(s1, rest)).simple_commands =~= set_last(cmd, redirected(last, r)).simple_commands);
                        }
                        if rest.len() > 0 {
                            assert(rest.last() == r.last());
                        }
                    }
                } else {
                    assert(parse_step(g, cmd, t1) is Err);
                    assert(run(g, cmd, r1) is Err);
                }
            }
        }
    }
}

} // verus!

verus! {

/// `cmd` with `m` appended to its simple commands.
pub open spec fn push_command(cmd: CommandModel, m: SimpleCommandModel) -> CommandModel {
    CommandModel { simple_commands: cmd.simple_commands.push(m), ..cmd }
}

/// A segment, read from the start of a simple command: a well-formed one
/// adds its simple command and ends where an operator may follow;
/// otherwise the steps fail or stop where no operator may follow (after `&`
/// only when the segment ends with it).
proof fn lemma_run_segment(cmd: CommandModel, seg: Seq<Seq<char>>)
    requires
        no_pipe(seg),
    ensures
        segment_ok(seg) ==> (run(Vocab::PIPE, cmd, seg) matches Ok((v, c)) && after_word(v) && c == push_command(
            cmd,
            segment_model(seg),
        )),
        !segment_ok(seg) ==> (run(Vocab::PIPE, cmd, seg) is Err || (run(Vocab::PIPE, cmd, seg) matches Ok((w, _))
            && !after_word(w) && (w == Vocab::NONE ==> seg.len() > 0 && seg.last() == "&"@))),
{
    lemma_operators_distinct();
    if seg.len() == 0 {
        assert(run(Vocab::PIPE, cmd, seg) == Ok::<(Vocab, CommandModel), Seq<char>>((Vocab::PIPE, cmd)));
    } else if !is_word(seg[0]) {
        assert(seg[0] != "|"@);
        assert(parse_step(Vocab::PIPE, cmd, seg[0]) is Err);
    } else {
        let w0 = seg[0];
        let c1 = push_command(cmd, simple_model(seq![w0]));
        assert(parse_step(Vocab::PIPE, cmd, w0) == Ok::<(Vocab, CommandModel), Seq<char>>((Vocab::CMD, c1)));
        let d = seg.drop_first();
        assert(run(Vocab::PIPE, cmd, seg) == run(Vocab::CMD, c1, d));
        lemma_run_words(Vocab::CMD, c1, d);
        lemma_word_count(d);
        lemma_word_count(seg);
        let k1 = word_count(d);
        let v1 = if k1 > 0 { Vocab::WORD } else { Vocab::CMD };
        let s2 = SimpleCommandModel { arguments: seq![w0] + d.take(k1 as int), ..simple_model(seq![w0]) };
        let c2 = set_last(c1, s2);
        assert(c1.simple_commands.last() == simple_model(seq![w0]));
        let r = d.skip(k1 as int);
        assert(no_pipe(r)) by {
            assert forall|j: int| 0 <= j < r.len() implies r[j] != "|"@ by {
                assert(r[j] == seg[j + k1 + 1]);
            }
        }
        if r.len() > 0 {
            assert(r[0] == d[k1 as int]);
        }
        lemma_run_redirections(v1, c2, r);
        let k = word_count(seg);
        assert(k == k1 + 1);
        assert(seg.skip(k as int) =~= r);
        assert(seg.take(k as int) =~= seq![w0] + d.take(k1 as int));
        assert(c2.simple_commands.last() == s2);
        if segment_ok(seg) {
            assert(redirected(s2, r) == segment_model(seg));
            assert(set_last(c2, redirected(s2, r)).simple_commands =~= push_command(cmd, segment_model(seg)).simple_commands);
        } else {
            if r.len() > 0 {
                assert(r.last() == seg.last());
            }
        }
    }
}

} // verus!

verus! {

/// Every segment of `s` is well formed.
pub open spec fn segments_ok(s: Seq<Seq<char>>) -> bool {
    forall|i: int| 0 <= i < pipe_segments(s).len() ==> segment_ok(#[trigger] pipe_segments(s)[i])
}

/// The simple commands of the segments of `s`.
pub open spec fn segment_models(s: Seq<Seq<char>>) -> Seq<SimpleCommandModel> {
    pipe_segments(s).map_values(|seg: Seq<Seq<char>>| segment_model(seg))
}

/// A pipeline read from its start: when every segment is well formed, one
/// simple command per segment is added and it ends where an operator may
/// follow; otherwise the steps fail or stop where no operator may follow
/// (after `&` only when the tokens end with it).
proof fn lemma_run_pipeline(cmd: CommandModel, toks: Seq<Seq<char>>)
    ensures
        segments_ok(toks) ==> (run(Vocab::PIPE, cmd, toks) matches Ok((v, c)) && after_word(v) && c == CommandModel {
            simple_commands: cmd.simple_commands + segment_models(toks),
            ..cmd
        }),
        !segments_ok(toks) ==> (run(Vocab::PIPE, cmd, toks) is Err || (run(Vocab::PIPE, cmd, toks) matches Ok((w, _))
            && !after_word(w) && (w == Vocab::NONE ==> toks.len() > 0 && toks.last() == "&"@))),
    decreases toks.len(), 0int,
{
    lemma_operators_distinct();
    lemma_segment_len(toks);
    let k = segment_len(toks);
    let seg = toks.take(k as int);
    assert(no_pipe(seg));
    lemma_run_segment(cmd, seg);
    if k >= toks.len() {
        assert(seg =~= toks);
        assert(pipe_segments(toks) == seq![toks]);
        assert(pipe_segments(toks)[0] == toks);
        if segments_ok(toks) {
            assert(segment_ok(pipe_segments(toks)[0]));
        }
        if segment_ok(toks) {
            assert forall|i: int| 0 <= i < pipe_segments(toks).len() implies segment_ok(#[trigger] pipe_segments(toks)[i]) by {
                assert(i == 0);
            }
        }
        assert(segment_models(toks) =~= seq![segment_model(toks)]);
        assert(cmd.simple_commands + segment_models(toks) =~= cmd.simple_commands.push(segment_model(toks)));
    } else {
        let rest = toks.skip((k + 1) as int);
        let tail = toks.skip(k as int);
        assert(toks =~= seg + tail);
        assert(tail[0] == "|"@);
        assert(tail.drop_first() =~= rest);
        lemma_run_concat(Vocab::PIPE, cmd, seg, tail);
        let ps = pipe_segments(toks);
        let pr = pipe_segments(rest);
        assert(ps == seq![seg] + pr);
        if segments_ok(toks) {
            assert(segment_ok(ps[0]));
            assert forall|i: int| 0 <= i < pr.len() implies segment_ok(#[trigger] pr[i]) by {
                assert(ps[i + 1] == pr[i]);
                assert(segment_ok(ps[i + 1]));
            }
        }
        if segment_ok(seg) && segments_ok(rest) {
            assert forall|i: int| 0 <= i < ps.len() implies segment_ok(#[trigger] ps[i]) by {
                if i > 0 {
                    assert(ps[i] == pr[i - 1]);
                }
            }
        }
        lemma_run_pipeline_rest(cmd, seg, rest, tail);
    }
}

/// The step from one segment over its `|` to the rest of the pipeline.
proof fn lemma_run_pipeline_rest(cmd: CommandModel, seg: Seq<Seq<char>>, rest: Seq<Seq<char>>, tail: Seq<Seq<char>>)
    requires
        no_pipe(seg),
        tail.len() > 0,
        tail[0] == "|"@,
        tail.drop_first() == rest,
    ensures
        segment_ok(seg) && segments_ok(rest) ==> (run(Vocab::PIPE, cmd, seg) matches Ok((v, c)) && run(v, c, tail) matches Ok((v2, c2))
            && after_word(v2) && c2 == CommandModel {
            simple_commands: cmd.simple_commands + (seq![seg] + pipe_segments(rest)).map_values(|s: Seq<Seq<char>>| segment_model(s)),
            ..cmd
        }),
        !(segment_ok(seg) && segments_ok(rest)) ==> (match run(Vocab::PIPE, cmd, seg) {
            Ok((v, c)) => run(v, c, tail),
            Err(e) => Err(e),
        } matches Ok((w, _)) ==> !after_word(w) && (w == Vocab::NONE ==> rest.len() > 0 && rest.last() == "&"@)),
    decreases rest.len(), 1int,
{
    lemma_operators_distinct();
    lemma_run_segment(cmd, seg);
    if let Ok((v, c)) = run(Vocab::PIPE, cmd, seg) {
        if after_word(v) {
            assert(parse_step(v, c, tail[0]) == Ok::<(Vocab, CommandModel), Seq<char>>((Vocab::PIPE, c)));
            assert(run(v, c, tail) == run(Vocab::PIPE, c, rest));
            lemma_run_pipeline(c, rest);
            if segment_ok(seg) && segments_ok(rest) {
                let m = (seq![seg] + pipe_segments(rest)).map_values(|s: Seq<Seq<char>>| segment_model(s));
                assert(m =~= seq![segment_model(seg)] + segment_models(rest));
                assert(cmd.simple_commands.push(segment_model(seg)) + segment_models(rest) =~= cmd.simple_commands + m);
            }
        } else {
            assert(parse_step(v, c, tail[0]) is Err);
        }
    }
}

} // verus!

verus! {

/// A line parses exactly when it is in the language: every segment of its
/// body (the line without a trailing `&`) is a word, more words, then
/// redirections. It then parses into one simple command per segment, whose
/// arguments are the segment's words and whose files are the targets of its
/// last `>` and last `<`; it runs in the background exactly when it ends
/// with `&`.
pub proof fn lemma_parse_grammar(toks: Seq<Seq<char>>)
    ensures
        spec_parse(toks) is Ok <==> accepted(toks),
        accepted(toks) ==> spec_parse(toks) == Ok::<CommandModel, Seq<char>>(parsed_model(toks)),
{
    lemma_operators_distinct();
    let init = start_command(toks);
    let body = line_body(toks);
    lemma_parse_from_run(Vocab::PIPE, init, toks);
    lemma_run_pipeline(init, body);
    assert(accepted(toks) == segments_ok(body));
    assert(init.simple_commands + segment_models(body) =~= segment_models(body));
    if ends_in_background(toks) {
        let amp = seq![toks.last()];
        assert(toks =~= body + amp);
        lemma_run_concat(Vocab::PIPE, init, body, amp);
        if let Ok((v, c)) = run(Vocab::PIPE, init, body) {
            assert(amp[0] == "&"@);
            assert(amp.drop_first() =~= Seq::<Seq<char>>::empty());
            if after_word(v) {
                let c2 = CommandModel { background: true, ..c };
                assert(parse_step(v, c, amp[0]) == Ok::<(Vocab, CommandModel), Seq<char>>((Vocab::NONE, c2)));
                assert(run(v, c, amp) == run(Vocab::NONE, c2, amp.drop_first()));
                if accepted(toks) {
                    assert(c2 == parsed_model(toks));
                }
            } else {
                assert(parse_step(v, c, amp[0]) is Err);
            }
        }
    } else {
        if let Ok((v, c)) = run(Vocab::PIPE, init, body) {
            if accepted(toks) {
                assert(c == parsed_model(toks));
            }
        }
    }
}

} // verus!
