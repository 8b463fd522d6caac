use vstd::prelude::*;

verus! {

/// Appends one character to a string.
///
/// Calls `String::push`, which std documents as appending the given
/// `char` to the end of the string; the contract states exactly that.
#[verifier::external_body]
pub(crate) fn push_char(s: &mut String, c: char)
    ensures
        final(s)@ == old(s)@.push(c),
{
    s.push(c);
}

/// The pieces of `s` between occurrences of `sep`, in order, as `str::split`
/// with a character pattern yields them: `k` separators give `k + 1` pieces,
/// some of which may be empty.
pub open spec fn split_on(s: Seq<char>, sep: char) -> Seq<Seq<char>>
    decreases s.len(),
{
    if s.len() == 0 {
        seq![Seq::<char>::empty()]
    } else {
        let init = split_on(s.drop_last(), sep);
        if s.last() == sep {
            init.push(Seq::<char>::empty())
        } else {
            init.update(init.len() - 1, init.last().push(s.last()))
        }
    }
}

/// There is always at least one piece.
pub proof fn lemma_split_on_nonempty(s: Seq<char>, sep: char)
    ensures
        split_on(s, sep).len() >= 1,
    decreases s.len(),
{
    if s.len() > 0 {
        lemma_split_on_nonempty(s.drop_last(), sep);
    }
}

/// Pieces put back together with `sep` between each two.
pub open spec fn join_with(pieces: Seq<Seq<char>>, sep: char) -> Seq<char>
    decreases pieces.len(),
{
    if pieces.len() == 0 {
        Seq::empty()
    } else if pieces.len() == 1 {
        pieces[0]
    } else {
        join_with(pieces.drop_last(), sep).push(sep) + pieces.last()
    }
}

/// Splitting loses nothing and cuts at every separator: no piece holds the
/// separator, and joining the pieces with it gives back the text. (These two
/// facts determine the pieces.)
pub proof fn lemma_split_on_join(s: Seq<char>, sep: char)
    ensures
        join_with(split_on(s, sep), sep) == s,
        forall|i: int, k: int|
            0 <= i < split_on(s, sep).len() && 0 <= k < split_on(s, sep)[i].len()
                ==> #[trigger] split_on(s, sep)[i][k] != sep,
    decreases s.len(),
{
    if s.len() == 0 {
        assert(split_on(s, sep) =~= seq![Seq::<char>::empty()]);
        assert(s =~= Seq::<char>::empty());
    } else {
        let init = s.drop_last();
        let c = s.last();
        lemma_split_on_join(init, sep);
        lemma_split_on_nonempty(init, sep);
        let p = split_on(init, sep);
        let r = split_on(s, sep);
        if c == sep {
            assert(r == p.push(Seq::<char>::empty()));
            assert(r.drop_last() =~= p);
            assert(join_with(r, sep) =~= s);
            assert forall|i: int, k: int| 0 <= i < r.len() && 0 <= k < r[i].len() implies #[trigger] r[i][k] != sep by {
                assert(i < p.len());
                assert(r[i] == p[i]);
            }
        } else {
            let last = p.last().push(c);
            assert(r == p.update(p.len() - 1, last));
            if p.len() == 1 {
                assert(join_with(p, sep) == p[0]);
                assert(join_with(r, sep) == r[0]);
                assert(r[0] == last);
                assert(last =~= s);
            } else {
                assert(r.drop_last() =~= p.drop_last());
                assert(join_with(p, sep) == join_with(p.drop_last(), sep).push(sep) + p.last());
                assert(join_with(r, sep) == join_with(p.drop_last(), sep).push(sep) + last);
                assert(join_with(r, sep) =~= join_with(p, sep).push(c));
                assert(join_with(p, sep).push(c) =~= s);
            }
            assert forall|i: int, k: int| 0 <= i < r.len() && 0 <= k < r[i].len() implies #[trigger] r[i][k] != sep by {
                if i < p.len() - 1 {
                    assert(r[i] == p[i]);
                } else {
                    assert(r[i] == last);
                    if k < p.last().len() {
                        assert(last[k] == p[p.len() - 1][k]);
                    }
                }
            }
        }
    }
}

/// Splits `s` at every occurrence of `sep`.
pub fn split_on_char(s: &str, sep: char) -> (pieces: Vec<String>)
    ensures
        pieces.deep_view() == split_on(s@, sep),
{
    let mut done: Vec<String> = Vec::new();
    let mut current = String::new();
    let ghost mut seen: Seq<char> = Seq::empty();
    for c in it: s.chars()
        invariant
            seen == it.seq().take(it.index() as int),
            it.seq() == s@,
            split_on(seen, sep) == done.deep_view().push(current@),
    {
        proof {
            lemma_split_on_nonempty(seen, sep);
        }
        let ghost prev = seen;
        if c == sep {
            let finished = current;
            done.push(finished);
            current = String::new();
        } else {
            push_char(&mut current, c);
        }
        proof {
            seen = seen.push(c);
            assert(seen.drop_last() =~= prev);
        }
    }
    done.push(current);
    proof {
        assert(seen =~= s@);
    }
    done
}

} // verus!
