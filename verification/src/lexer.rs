//! Splitting an input line into tokens.

use vstd::prelude::*;
use crate::text::{join_spaced, lemma_pieces_lack_separator, split_on, split_str};

verus! {

/// The non-empty pieces of `pieces`, in order.
pub open spec fn non_empty(pieces: Seq<Seq<char>>) -> Seq<Seq<char>> {
    pieces.filter(|t: Seq<char>| t.len() > 0)
}

/// The tokens of a line: what `split(' ')` yields, without the empty pieces.
pub open spec fn spec_tokens(s: Seq<char>) -> Seq<Seq<char>> {
    non_empty(split_on(s, ' '))
}

/// Appending one piece keeps it in the filtered result exactly when it is not empty.
pub proof fn lemma_non_empty_push(p: Seq<Seq<char>>, x: Seq<char>)
    ensures
        non_empty(p.push(x)) == (if x.len() > 0 { non_empty(p).push(x) } else { non_empty(p) }),
{
    reveal(Seq::filter);
    assert(p.push(x).drop_last() =~= p);
}

/// Every kept piece is one of the pieces, and is not empty.
proof fn lemma_non_empty_keeps(p: Seq<Seq<char>>, x: Seq<char>)
    requires
        non_empty(p).contains(x),
    ensures
        p.contains(x),
        x.len() > 0,
    decreases p.len(),
{
    if p.len() == 0 {
        reveal(Seq::filter);
    } else {
        let q = p.drop_last();
        assert(q.push(p.last()) =~= p);
        lemma_non_empty_push(q, p.last());
        if non_empty(q).contains(x) {
            lemma_non_empty_keeps(q, x);
            let j = choose|j: int| 0 <= j < q.len() && q[j] == x;
            assert(p[j] == x);
        } else {
            let f = non_empty(q);
            let j = choose|j: int| 0 <= j < non_empty(p).len() && non_empty(p)[j] == x;
            if p.last().len() > 0 {
                if j < f.len() {
                    assert(non_empty(p)[j] == f[j]);
                }
                assert(x == p.last());
                assert(p[p.len() - 1] == x);
            } else {
                assert(f.contains(x));
            }
        }
    }
}

/// Every token is non-empty and holds no space.
pub proof fn lemma_tokens_are_words(s: Seq<char>)
    ensures
        forall|k: int|
            0 <= k < spec_tokens(s).len() ==> #[trigger] spec_tokens(s)[k].len() > 0
                && !spec_tokens(s)[k].contains(' '),
{
    lemma_pieces_lack_separator(s, ' ');
    assert forall|k: int| 0 <= k < spec_tokens(s).len() implies #[trigger] spec_tokens(s)[k].len()
        > 0 && !spec_tokens(s)[k].contains(' ') by {
        let x = spec_tokens(s)[k];
        assert(spec_tokens(s).contains(x));
        lemma_non_empty_keeps(split_on(s, ' '), x);
        let j = choose|j: int| 0 <= j < split_on(s, ' ').len() && split_on(s, ' ')[j] == x;
        assert(!split_on(s, ' ')[j].contains(' '));
    }
}

/// Splits `input` at spaces and keeps the non-empty pieces, in order: the
/// maximal runs of characters other than a space.
pub fn get_tokens(input: &str) -> (res: Vec<&str>)
    ensures
        res.deep_view() == spec_tokens(input@),
        res.deep_view() == maximal_runs(input@),
{
    proof {
        lemma_tokens_are_maximal_runs(input@);
    }
    let pieces = split_str(input, ' ');
    let ghost all = pieces.deep_view();
    let mut res: Vec<&str> = Vec::new();
    let n = pieces.len();
    let mut i: usize = 0;
    assert(res.deep_view() =~= non_empty(all.take(0))) by {
        reveal(Seq::filter);
    }
    while i < n
        invariant
            n == pieces@.len(),
            all == pieces.deep_view(),
            i <= n,
            res.deep_view() == non_empty(all.take(i as int)),
        decreases n - i,
    {
        let piece = pieces[i];
        assert(all.take(i + 1) =~= all.take(i as int).push(piece@));
        proof {
            lemma_non_empty_push(all.take(i as int), piece@);
        }
        if piece.unicode_len() > 0 {
            let ghost before = res.deep_view();
            res.push(piece);
            assert(res.deep_view() =~= before.push(piece@));
        }
        i = i + 1;
    }
    assert(all.take(n as int) =~= all);
    res
}

} // verus!

verus! {

/// How many characters other than a space begin `s`.
pub open spec fn run_len(s: Seq<char>) -> nat
    decreases s.len(),
{
    if s.len() == 0 || s[0] == ' ' {
        0
    } else {
        1 + run_len(s.drop_first())
    }
}

/// The leading run holds no space, and a space or the end follows it.
pub proof fn lemma_run_len(s: Seq<char>)
    ensures
        run_len(s) <= s.len(),
        forall|j: int| 0 <= j < run_len(s) ==> s[j] != ' ',
        run_len(s) < s.len() ==> s[run_len(s) as int] == ' ',
    decreases s.len(),
{
    if s.len() > 0 && s[0] != ' ' {
        lemma_run_len(s.drop_first());
        assert forall|j: int| 0 <= j < run_len(s) implies s[j] != ' ' by {
            if j > 0 {
                assert(s[j] == s.drop_first()[j - 1]);
            }
        }
    }
}

/// The maximal runs of characters other than a space in `s`, in order.
pub open spec fn maximal_runs(s: Seq<char>) -> Seq<Seq<char>>
    decreases s.len(),
{
    if s.len() == 0 {
        Seq::empty()
    } else if s[0] == ' ' {
        maximal_runs(s.drop_first())
    } else {
        let k = run_len(s);
        proof {
            lemma_run_len(s);
        }
        seq![s.take(k as int)] + maximal_runs(s.skip(k as int))
    }
}

/// Cutting at a separator splits the pieces of both sides.
pub proof fn lemma_split_concat(a: Seq<char>, b: Seq<char>, sep: char)
    ensures
        split_on(a + seq![sep] + b, sep) == split_on(a, sep) + split_on(b, sep),
    decreases b.len(),
{
    let x = a + seq![sep] + b;
    if b.len() == 0 {
        assert(x.drop_last() =~= a);
        assert(split_on(x, sep) =~= split_on(a, sep) + split_on(b, sep));
    } else {
        let b0 = b.drop_last();
        assert(x.drop_last() =~= a + seq![sep] + b0);
        lemma_split_concat(a, b0, sep);
        crate::text::lemma_split_nonempty(b0, sep);
        let pa = split_on(a, sep);
        let pb = split_on(b0, sep);
        if b.last() == sep {
            assert(split_on(x, sep) =~= pa + split_on(b, sep));
        } else {
            let p = pa + pb;
            assert(p.last() == pb.last());
            assert(p.update(p.len() - 1, p.last().push(b.last())) =~= pa + pb.update(
                pb.len() - 1,
                pb.last().push(b.last()),
            ));
        }
    }
}

/// A piece without separator splits into itself.
pub proof fn lemma_split_word(w: Seq<char>, sep: char)
    requires
        !w.contains(sep),
    ensures
        split_on(w, sep) == seq![w],
    decreases w.len(),
{
    if w.len() == 0 {
        assert(w =~= Seq::<char>::empty());
        assert(split_on(w, sep) =~= seq![w]);
    } else {
        let w0 = w.drop_last();
        assert(!w0.contains(sep)) by {
            if w0.contains(sep) {
                let j = choose|j: int| 0 <= j < w0.len() && w0[j] == sep;
                assert(w[j] == sep);
            }
        }
        assert(w.last() != sep) by {
            assert(w[w.len() - 1] == w.last());
        }
        lemma_split_word(w0, sep);
        assert(w0.push(w.last()) =~= w);
        assert(w.drop_last() == w0);
        assert(seq![w0].update(0, w0.push(w.last())) =~= seq![w]);
    }
}

/// The tokens of a line are its maximal runs of characters other than a
/// space, in order; tabs and newlines belong to the runs.
pub proof fn lemma_tokens_are_maximal_runs(s: Seq<char>)
    ensures
        spec_tokens(s) == maximal_runs(s),
    decreases s.len(),
{
    broadcast use Seq::filter_distributes_over_add;
    if s.len() == 0 {
        lemma_non_empty_push(Seq::<Seq<char>>::empty(), Seq::<char>::empty());
        assert(non_empty(Seq::<Seq<char>>::empty()) =~= Seq::<Seq<char>>::empty()) by {
            reveal(Seq::filter);
        }
        assert(seq![Seq::<char>::empty()] =~= Seq::<Seq<char>>::empty().push(Seq::<char>::empty()));
        assert(split_on(s, ' ') == seq![Seq::<char>::empty()]);
    } else if s[0] == ' ' {
        let rest = s.drop_first();
        assert(s =~= Seq::<char>::empty() + seq![' '] + rest);
        lemma_split_concat(Seq::<char>::empty(), rest, ' ');
        lemma_split_word(Seq::<char>::empty(), ' ');
        lemma_non_empty_push(Seq::<Seq<char>>::empty(), Seq::<char>::empty());
        assert(non_empty(Seq::<Seq<char>>::empty()) =~= Seq::<Seq<char>>::empty()) by {
            reveal(Seq::filter);
        }
        assert(seq![Seq::<char>::empty()] =~= Seq::<Seq<char>>::empty().push(Seq::<char>::empty()));
        lemma_tokens_are_maximal_runs(rest);
        assert(spec_tokens(s) =~= spec_tokens(rest));
    } else {
        lemma_run_len(s);
        let k = run_len(s);
        let w = s.take(k as int);
        assert(!w.contains(' ')) by {
            if w.contains(' ') {
                let j = choose|j: int| 0 <= j < w.len() && w[j] == ' ';
                assert(s[j] == ' ');
            }
        }
        lemma_split_word(w, ' ');
        lemma_non_empty_push(Seq::<Seq<char>>::empty(), w);
        assert(non_empty(Seq::<Seq<char>>::empty()) =~= Seq::<Seq<char>>::empty()) by {
            reveal(Seq::filter);
        }
        assert(seq![w] =~= Seq::<Seq<char>>::empty().push(w));
        assert(non_empty(seq![w]) == seq![w]);
        if k == s.len() {
            assert(w =~= s);
            let e = s.skip(k as int);
            assert(e.len() == 0);
            assert(maximal_runs(e) == Seq::<Seq<char>>::empty());
            assert(maximal_runs(s) =~= seq![w]);
        } else {
            let rest = s.skip((k + 1) as int);
            assert(s =~= w + seq![' '] + rest);
            lemma_split_concat(w, rest, ' ');
            lemma_tokens_are_maximal_runs(rest);
            let after = s.skip(k as int);
            assert(after[0] == ' ');
            assert(after.drop_first() =~= rest);
            assert(maximal_runs(after) == maximal_runs(rest));
            assert(spec_tokens(s) =~= seq![w] + spec_tokens(rest));
        }
    }
}

/// Joining words without spaces by single spaces and splitting again gives
/// the words back.
pub proof fn lemma_split_join(v: Seq<Seq<char>>)
    requires
        v.len() >= 1,
        forall|i: int| 0 <= i < v.len() ==> !(#[trigger] v[i]).contains(' '),
    ensures
        split_on(join_spaced(v), ' ') == v,
    decreases v.len(),
{
    reveal_strlit(" ");
    if v.len() == 1 {
        lemma_split_word(v[0], ' ');
        assert(seq![v[0]] =~= v);
    } else {
        let v0 = v.drop_last();
        assert(forall|i: int| 0 <= i < v0.len() ==> v0[i] == v[i]);
        lemma_split_join(v0);
        assert(" "@ =~= seq![' ']);
        lemma_split_concat(join_spaced(v0), v.last(), ' ');
        assert(!v[v.len() - 1].contains(' '));
        lemma_split_word(v.last(), ' ');
        assert(v0 + seq![v.last()] =~= v);
    }
}

/// Keeping the non-empty pieces of pieces that are all non-empty keeps them all.
proof fn lemma_non_empty_all(v: Seq<Seq<char>>)
    requires
        forall|i: int| 0 <= i < v.len() ==> (#[trigger] v[i]).len() > 0,
    ensures
        non_empty(v) == v,
    decreases v.len(),
{
    if v.len() == 0 {
        reveal(Seq::filter);
    } else {
        let v0 = v.drop_last();
        assert(forall|i: int| 0 <= i < v0.len() ==> v0[i] == v[i]);
        lemma_non_empty_all(v0);
        assert(v0.push(v.last()) =~= v);
        assert(v[v.len() - 1].len() > 0);
        lemma_non_empty_push(v0, v.last());
    }
}

/// Tokenizing the tokens joined by single spaces gives the same tokens.
pub proof fn lemma_tokens_round_trip(v: Seq<Seq<char>>)
    requires
        forall|i: int| 0 <= i < v.len() ==> (#[trigger] v[i]).len() > 0 && !v[i].contains(' '),
    ensures
        spec_tokens(join_spaced(v)) == v,
{
    if v.len() == 0 {
        assert(split_on(join_spaced(v), ' ') =~= seq![Seq::<char>::empty()]);
        lemma_non_empty_push(Seq::<Seq<char>>::empty(), Seq::<char>::empty());
        assert(non_empty(Seq::<Seq<char>>::empty()) =~= Seq::<Seq<char>>::empty()) by {
            reveal(Seq::filter);
        }
        assert(seq![Seq::<char>::empty()] =~= Seq::<Seq<char>>::empty().push(Seq::<char>::empty()));
        assert(spec_tokens(join_spaced(v)) =~= v);
    } else {
        lemma_split_join(v);
        lemma_non_empty_all(v);
    }
}

/// Tokenizing the tokens of a line, joined by single spaces, gives them back.
pub proof fn lemma_get_tokens_idempotent(s: Seq<char>)
    ensures
        spec_tokens(join_spaced(spec_tokens(s))) == spec_tokens(s),
{
    lemma_tokens_are_words(s);
    lemma_tokens_round_trip(spec_tokens(s));
}

} // verus!
