//! Expansion of a leading `~` to the home directory.

use vstd::prelude::*;
use crate::text::{owned, spec_starts_with, starts_with, str_eq};

verus! {

/// Whether a token names the home directory: `~` alone, or a path under `~/`.
pub open spec fn names_home(token: Seq<char>) -> bool {
    token == "~"@ || spec_starts_with(token, "~/"@)
}

/// The token with its leading `~` replaced by `home`, when it names the home
/// directory and `home` is known; otherwise the token unchanged.
pub open spec fn spec_expand_tilde(token: Seq<char>, home: Option<Seq<char>>) -> Seq<char> {
    if names_home(token) && home is Some {
        home->Some_0 + token.drop_first()
    } else {
        token
    }
}

/// Expands `~` and `~/...` with `home`, the value of the home directory
/// variable when it is set. Any other token, such as `~user` or `a~`, is kept.
pub fn expand_tilde(token: &str, home: Option<String>) -> (res: String)
    ensures
        res@ == spec_expand_tilde(token@, home.deep_view()),
{
    if str_eq(token, "~") || starts_with(token, "~/") {
        proof {
            reveal_strlit("~");
            reveal_strlit("~/");
            assert("~"@.len() == 1);
            assert("~/"@.len() == 2);
        }
        match home {
            Some(h) => {
                let n = token.unicode_len();
                let rest = token.substring_char(1, n);
                assert(rest@ =~= token@.drop_first());
                h.concat(rest)
            },
            None => owned(token),
        }
    } else {
        owned(token)
    }
}

} // verus!

verus! {

/// With a home directory `h`: `~` becomes `h`, and `~/rest` becomes
/// `h/rest`. A token that does not begin with `~`, a `~` followed by
/// anything but `/`, or any token when the home is unknown, is kept.
pub proof fn law_expand_tilde(token: Seq<char>, h: Seq<char>, rest: Seq<char>)
    ensures
        spec_expand_tilde("~"@, Some(h)) == h,
        spec_expand_tilde("~/"@ + rest, Some(h)) == h + "/"@ + rest,
        token.len() == 0 || token[0] != '~' ==> spec_expand_tilde(token, Some(h)) == token,
        token.len() >= 2 && token[1] != '/' ==> spec_expand_tilde(token, Some(h)) == token,
        spec_expand_tilde(token, None) == token,
{
    reveal_strlit("~");
    reveal_strlit("~/");
    reveal_strlit("/");
    assert("~"@.len() == 1);
    assert("~/"@.len() == 2);
    assert("~"@.drop_first() =~= Seq::<char>::empty());
    assert(h + Seq::<char>::empty() =~= h);
    let t = "~/"@ + rest;
    assert(t.subrange(0, 2) =~= "~/"@);
    assert(t.drop_first() =~= "/"@ + rest);
    assert(h + ("/"@ + rest) =~= h + "/"@ + rest);
    if token.len() == 0 || token[0] != '~' {
        if token == "~"@ {
            assert(token[0] == '~');
        }
        if spec_starts_with(token, "~/"@) {
            assert(token[0] == token.subrange(0, 2)[0]);
        }
    }
    if token.len() >= 2 && token[1] != '/' {
        if spec_starts_with(token, "~/"@) {
            assert(token[1] == token.subrange(0, 2)[1]);
        }
    }
}

} // verus!
