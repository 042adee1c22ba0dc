//! Expansion of a `$NAME` token to the value of an environment variable.

use vstd::prelude::*;
use crate::text::{owned, spec_starts_with, starts_with};

verus! {

/// The variable that a token refers to: the rest of a token that begins
/// with `$` and has more after it.
pub open spec fn spec_var_name(token: Seq<char>) -> Option<Seq<char>> {
    if spec_starts_with(token, "$"@) && token.len() > 1 {
        Some(token.drop_first())
    } else {
        None
    }
}

/// The name of the variable that `token` refers to, if it refers to one.
pub fn env_var_name(token: &str) -> (res: Option<String>)
    ensures
        res.deep_view() == spec_var_name(token@),
{
    let n = token.unicode_len();
    if starts_with(token, "$") && n > 1 {
        proof {
            reveal_strlit("$");
            assert("$"@.len() == 1);
        }
        let rest = token.substring_char(1, n);
        assert(rest@ =~= token@.drop_first());
        Some(owned(rest))
    } else {
        None
    }
}

/// The token after expansion: the variable's value when the token refers to
/// a variable and `value` (its value in the environment) is known; the token
/// itself otherwise, also for an unset variable.
pub open spec fn spec_get_env(token: Seq<char>, value: Option<Seq<char>>) -> Seq<char> {
    if spec_var_name(token) is Some && value is Some {
        value->Some_0
    } else {
        token
    }
}

/// Expands `token` given `value`, what the environment holds for the
/// variable that `env_var_name(token)` names (`None` when it is unset).
pub fn get_env(token: &str, value: Option<String>) -> (res: String)
    ensures
        res@ == spec_get_env(token@, value.deep_view()),
{
    let n = token.unicode_len();
    if starts_with(token, "$") && n > 1 {
        match value {
            Some(v) => v,
            None => owned(token),
        }
    } else {
        owned(token)
    }
}

} // verus!

verus! {

/// `$name` with a non-empty name refers to `name`: it becomes the
/// variable's value when it is set and stays as it is otherwise; a token
/// that does not begin with `$`, or `$` alone, is never changed.
pub proof fn law_get_env(name: Seq<char>, value: Seq<char>, token: Seq<char>, any: Option<Seq<char>>)
    requires
        name.len() > 0,
    ensures
        spec_var_name(seq!['$'] + name) == Some(name),
        spec_get_env(seq!['$'] + name, Some(value)) == value,
        spec_get_env(seq!['$'] + name, None) == seq!['$'] + name,
        token.len() == 0 || token[0] != '$' ==> spec_get_env(token, any) == token && spec_var_name(token) is None,
        spec_get_env(seq!['$'], any) == seq!['$'],
{
    reveal_strlit("$");
    assert("$"@ =~= seq!['$']);
    let t = seq!['$'] + name;
    assert(t.subrange(0, 1) =~= seq!['$']);
    assert(t.drop_first() =~= name);
    if token.len() > 0 && spec_starts_with(token, "$"@) {
        assert(token[0] == token.subrange(0, 1)[0]);
    }
}

} // verus!
