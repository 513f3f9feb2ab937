//! Stable, first-occurrence-wins removal of repeated transcript lines.

use vstd::prelude::*;

verus! {

/// The character sequences of a list of strings.
pub open spec fn lines_view(v: Seq<String>) -> Seq<Seq<char>> {
    v.map_values(|s: String| s@)
}

/// `xs` with every repeated element dropped, keeping the first occurrence.
pub open spec fn dedupe(xs: Seq<Seq<char>>) -> Seq<Seq<char>>
    decreases xs.len(),
{
    if xs.len() == 0 {
        Seq::empty()
    } else {
        let prev = dedupe(xs.drop_last());
        if prev.contains(xs.last()) {
            prev
        } else {
            prev.push(xs.last())
        }
    }
}

/// The index at which `x` first occurs in `xs`, where it occurs.
pub open spec fn first_index(xs: Seq<Seq<char>>, x: Seq<char>) -> int
    decreases xs.len(),
{
    if xs.len() == 0 {
        0
    } else if xs.drop_last().contains(x) {
        first_index(xs.drop_last(), x)
    } else {
        xs.len() - 1
    }
}

/// Removes duplicate messages, keeping the first occurrence of each in order.
pub fn filter_duplicates(chat_history: Vec<String>) -> (r: Vec<String>)
    ensures
        lines_view(r@) == dedupe(lines_view(chat_history@)),
{
    let mut filtered: Vec<String> = Vec::new();
    let mut i: usize = 0;
    while i < chat_history.len()
        invariant
            i <= chat_history@.len(),
            lines_view(filtered@) == dedupe(lines_view(chat_history@.subrange(0, i as int))),
        decreases chat_history@.len() - i,
    {
        let message = &chat_history[i];
        let mut seen = false;
        let mut j: usize = 0;
        while j < filtered.len()
            invariant
                j <= filtered@.len(),
                seen <==> lines_view(filtered@).subrange(0, j as int).contains(message@),
            decreases filtered@.len() - j,
        {
            if filtered[j] == *message {
                seen = true;
            }
            proof {
                let f = lines_view(filtered@);
                let g = f.subrange(0, j as int);
                let x = f[j as int];
                assert(f.subrange(0, j + 1) == g.push(x));
                if g.contains(message@) {
                    let k = choose|k: int| 0 <= k < g.len() && g[k] == message@;
                    assert(g.push(x)[k] == message@);
                }
                if g.push(x).contains(message@) && x != message@ {
                    let k = choose|k: int| 0 <= k < g.len() + 1 && g.push(x)[k] == message@;
                    assert(g[k] == message@);
                }
                if x == message@ {
                    assert(g.push(x)[j as int] == message@);
                }
            }
            j = j + 1;
        }
        proof {
            let h = lines_view(chat_history@.subrange(0, i + 1));
            assert(h.drop_last() == lines_view(chat_history@.subrange(0, i as int)));
            assert(h.last() == message@);
            assert(lines_view(filtered@).subrange(0, filtered@.len() as int) == lines_view(
                filtered@,
            ));
        }
        if !seen {
            let ghost before = filtered@;
            filtered.push(message.clone());
            proof {
                assert(lines_view(filtered@) == lines_view(before).push(message@));
            }
        }
        i = i + 1;
    }
    proof {
        assert(chat_history@.subrange(0, chat_history@.len() as int) == chat_history@);
    }
    filtered
}

/// Every element of the deduplicated sequence comes from the input, and every
/// element of the input is kept.
pub proof fn lemma_dedupe_same_elements(xs: Seq<Seq<char>>)
    ensures
        forall|x: Seq<char>| dedupe(xs).contains(x) <==> xs.contains(x),
        dedupe(xs).to_set() == xs.to_set(),
    decreases xs.len(),
{
    if xs.len() > 0 {
        lemma_dedupe_same_elements(xs.drop_last());
        assert forall|x: Seq<char>| dedupe(xs).contains(x) <==> xs.contains(x) by {
            if xs.contains(x) && x != xs.last() {
                let k = choose|k: int| 0 <= k < xs.len() && xs[k] == x;
                assert(xs.drop_last()[k] == x);
            }
            if xs.drop_last().contains(x) {
                let k = choose|k: int| 0 <= k < xs.drop_last().len() && xs.drop_last()[k] == x;
                assert(xs[k] == x);
            }
            if x == xs.last() {
                assert(xs[xs.len() - 1] == x);
            }
            let prev = dedupe(xs.drop_last());
            if !prev.contains(xs.last()) {
                if prev.push(xs.last()).contains(x) && x != xs.last() {
                    let k = choose|k: int| 0 <= k < prev.len() + 1 && prev.push(xs.last())[k] == x;
                    assert(prev[k] == x);
                }
                if prev.contains(x) {
                    let k = choose|k: int| 0 <= k < prev.len() && prev[k] == x;
                    assert(prev.push(xs.last())[k] == x);
                }
                assert(prev.push(xs.last())[prev.len() as int] == xs.last());
            }
        }
    }
    assert(dedupe(xs).to_set() =~= xs.to_set());
}

/// The deduplicated sequence holds no element twice.
pub proof fn lemma_dedupe_no_duplicates(xs: Seq<Seq<char>>)
    ensures
        dedupe(xs).no_duplicates(),
    decreases xs.len(),
{
    if xs.len() > 0 {
        lemma_dedupe_no_duplicates(xs.drop_last());
    }
}

/// A sequence without repeats is its own deduplication.
pub proof fn lemma_dedupe_unique_unchanged(xs: Seq<Seq<char>>)
    requires
        xs.no_duplicates(),
    ensures
        dedupe(xs) == xs,
    decreases xs.len(),
{
    if xs.len() > 0 {
        let p = xs.drop_last();
        assert(p.no_duplicates());
        lemma_dedupe_unique_unchanged(p);
        if p.contains(xs.last()) {
            let k = choose|k: int| 0 <= k < p.len() && p[k] == xs.last();
            assert(xs[k] == xs[xs.len() - 1]);
        }
        assert(p.push(xs.last()) == xs);
    }
}

/// Deduplicating twice is the same as deduplicating once.
pub proof fn lemma_dedupe_idempotent(xs: Seq<Seq<char>>)
    ensures
        dedupe(dedupe(xs)) == dedupe(xs),
{
    lemma_dedupe_no_duplicates(xs);
    lemma_dedupe_unique_unchanged(dedupe(xs));
}

/// Where `x` occurs in `xs`, its first index lies within `xs` and holds `x`.
pub proof fn lemma_first_index_in_bounds(xs: Seq<Seq<char>>, x: Seq<char>)
    requires
        xs.contains(x),
    ensures
        0 <= first_index(xs, x) < xs.len(),
        xs[first_index(xs, x)] == x,
    decreases xs.len(),
{
    if xs.drop_last().contains(x) {
        lemma_first_index_in_bounds(xs.drop_last(), x);
    } else {
        let k = choose|k: int| 0 <= k < xs.len() && xs[k] == x;
        if k < xs.len() - 1 {
            assert(xs.drop_last()[k] == x);
        }
    }
}

/// The deduplicated sequence lists the elements in the order of their first
/// occurrence in the input.
pub proof fn lemma_dedupe_first_occurrence_order(xs: Seq<Seq<char>>)
    ensures
        forall|i: int, j: int|
            0 <= i < j < dedupe(xs).len() ==> first_index(xs, dedupe(xs)[i]) < first_index(
                xs,
                dedupe(xs)[j],
            ),
    decreases xs.len(),
{
    if xs.len() > 0 {
        let p = xs.drop_last();
        let prev = dedupe(p);
        lemma_dedupe_first_occurrence_order(p);
        lemma_dedupe_same_elements(p);
        assert forall|i: int| 0 <= i < prev.len() implies first_index(xs, prev[i]) == first_index(
            p,
            prev[i],
        ) && first_index(p, prev[i]) < p.len() by {
            assert(prev.contains(prev[i]));
            lemma_first_index_in_bounds(p, prev[i]);
        }
        if !prev.contains(xs.last()) {
            let out = prev.push(xs.last());
            assert(!p.contains(xs.last()));
            assert forall|i: int, j: int|
                0 <= i < j < out.len() implies first_index(xs, out[i]) < first_index(
                xs,
                out[j],
            ) by {
                if j == prev.len() {
                    assert(out[j] == xs.last());
                    assert(out[i] == prev[i]);
                } else {
                    assert(out[i] == prev[i]);
                    assert(out[j] == prev[j]);
                }
            }
        }
    }
}

} // verus!
