use vstd::prelude::*;

use crate::lines::lemma_trailing_terminator_irrelevant;
use crate::lines::line_seq;
use crate::matching::contains_at;
use crate::matching::contains_seq;
use crate::matching::lower_of;
use crate::search_case_insensitive_spec;
use crate::search_spec;

verus! {

/// Every element of a filtered sequence is an element of the original.
proof fn lemma_filter_subset<A>(s: Seq<A>, pred: spec_fn(A) -> bool)
    ensures
        forall|i: int|
            0 <= i < s.filter(pred).len() ==> s.contains(#[trigger] s.filter(pred)[i]),
    decreases s.len(),
{
    reveal(Seq::filter);
    if s.len() > 0 {
        let out = s.filter(pred);
        let sub = s.drop_last().filter(pred);
        lemma_filter_subset(s.drop_last(), pred);
        assert forall|i: int| 0 <= i < out.len() implies s.contains(out[i]) by {
            if pred(s.last()) && i == out.len() - 1 {
                assert(s[s.len() - 1] == out[i]);
            } else {
                assert(out[i] == sub[i]);
                assert(s.drop_last().contains(sub[i]));
                let j = choose|j: int|
                    0 <= j < s.drop_last().len() && s.drop_last()[j] == sub[i];
                assert(s[j] == sub[i]);
            }
        }
    }
}

/// Filtering with a predicate that holds everywhere returns the sequence
/// unchanged.
proof fn lemma_filter_all_true<A>(s: Seq<A>, pred: spec_fn(A) -> bool)
    requires
        forall|i: int| 0 <= i < s.len() ==> pred(#[trigger] s[i]),
    ensures
        s.filter(pred) == s,
    decreases s.len(),
{
    reveal(Seq::filter);
    if s.len() == 0 {
        assert(s.filter(pred) =~= s);
    } else {
        assert forall|i: int| 0 <= i < s.drop_last().len() implies pred(
            #[trigger] s.drop_last()[i],
        ) by {
            assert(s.drop_last()[i] == s[i]);
        }
        lemma_filter_all_true(s.drop_last(), pred);
        assert(pred(s[s.len() - 1]));
        assert(s.filter(pred) =~= s);
    }
}

/// Case-sensitive search is sound and complete: it returns only lines of
/// `contents` that contain `query` as an exact substring, and every line of
/// `contents` that contains `query` is among the results.
pub proof fn lemma_search_sound_and_complete(query: Seq<char>, contents: Seq<char>)
    ensures
        forall|i: int|
            0 <= i < search_spec(query, contents).len() ==> contains_seq(
                #[trigger] search_spec(query, contents)[i],
                query,
            ),
        forall|i: int|
            0 <= i < search_spec(query, contents).len() ==> line_seq(contents).contains(
                #[trigger] search_spec(query, contents)[i],
            ),
        forall|j: int|
            0 <= j < line_seq(contents).len() && contains_seq(
                #[trigger] line_seq(contents)[j],
                query,
            ) ==> search_spec(query, contents).contains(line_seq(contents)[j]),
{
    broadcast use vstd::seq_lib::group_filter_ensures;

    let all = line_seq(contents);
    let pred = |line: Seq<char>| contains_seq(line, query);
    lemma_filter_subset(all, pred);
    assert forall|j: int|
        0 <= j < all.len() && contains_seq(#[trigger] all[j], query) implies search_spec(
        query,
        contents,
    ).contains(all[j]) by {
        assert(pred(all[j]));
        assert(all.filter(pred).contains(all[j]));
    }
}

/// Case-insensitive search is sound and complete: it returns exactly the
/// lines of `contents` whose lowercased form contains the lowercased
/// `query`, and each result is an original, non-lowercased line.
pub proof fn lemma_search_case_insensitive_sound_and_complete(
    query: Seq<char>,
    contents: Seq<char>,
)
    ensures
        forall|i: int|
            0 <= i < search_case_insensitive_spec(query, contents).len() ==> contains_seq(
                lower_of(#[trigger] search_case_insensitive_spec(query, contents)[i]),
                lower_of(query),
            ),
        forall|i: int|
            0 <= i < search_case_insensitive_spec(query, contents).len() ==> line_seq(
                contents,
            ).contains(#[trigger] search_case_insensitive_spec(query, contents)[i]),
        forall|j: int|
            0 <= j < line_seq(contents).len() && contains_seq(
                lower_of(#[trigger] line_seq(contents)[j]),
                lower_of(query),
            ) ==> search_case_insensitive_spec(query, contents).contains(line_seq(contents)[j]),
{
    broadcast use vstd::seq_lib::group_filter_ensures;

    let all = line_seq(contents);
    let pred = |line: Seq<char>| contains_seq(lower_of(line), lower_of(query));
    lemma_filter_subset(all, pred);
    assert forall|j: int|
        0 <= j < all.len() && contains_seq(lower_of(#[trigger] all[j]), lower_of(query))
        implies search_case_insensitive_spec(query, contents).contains(all[j]) by {
        assert(pred(all[j]));
        assert(all.filter(pred).contains(all[j]));
    }
}

/// Case-sensitive search is a function of its inputs alone: any two results
/// that meet its contract on identical inputs are identical.
pub proof fn lemma_search_deterministic(
    query: Seq<char>,
    contents: Seq<char>,
    first: Seq<Seq<char>>,
    second: Seq<Seq<char>>,
)
    requires
        first == search_spec(query, contents),
        second == search_spec(query, contents),
    ensures
        first == second,
{
}

/// Case-insensitive search is a function of its inputs alone: any two
/// results that meet its contract on identical inputs are identical.
pub proof fn lemma_search_case_insensitive_deterministic(
    query: Seq<char>,
    contents: Seq<char>,
    first: Seq<Seq<char>>,
    second: Seq<Seq<char>>,
)
    requires
        first == search_case_insensitive_spec(query, contents),
        second == search_case_insensitive_spec(query, contents),
    ensures
        first == second,
{
}

/// The empty query matches every line: searching for it returns all lines
/// of `contents`, unchanged and in order.
pub proof fn lemma_empty_query_returns_all_lines(contents: Seq<char>)
    ensures
        search_spec(Seq::<char>::empty(), contents) == line_seq(contents),
{
    let pred = |line: Seq<char>| contains_seq(line, Seq::<char>::empty());
    assert forall|line: Seq<char>| #[trigger] pred(line) by {
        assert(line.subrange(0, 0) =~= Seq::<char>::empty());
        assert(contains_at(line, Seq::<char>::empty(), 0));
    }
    let all = line_seq(contents);
    assert forall|i: int| 0 <= i < all.len() implies pred(#[trigger] all[i]) by {
        assert(pred(all[i]));
    }
    lemma_filter_all_true(all, pred);
}

/// An empty `contents` has no lines, so either search over it returns the
/// empty sequence, whatever the query.
pub proof fn lemma_empty_contents_yields_nothing(query: Seq<char>)
    ensures
        search_spec(query, Seq::<char>::empty()) == Seq::<Seq<char>>::empty(),
        search_case_insensitive_spec(query, Seq::<char>::empty()) == Seq::<Seq<char>>::empty(),
{
    reveal(Seq::filter);
    assert(line_seq(Seq::<char>::empty()) == Seq::<Seq<char>>::empty());
    assert(search_spec(query, Seq::<char>::empty()) =~= Seq::<Seq<char>>::empty());
    assert(search_case_insensitive_spec(query, Seq::<char>::empty()) =~= Seq::<
        Seq<char>,
    >::empty());
}

/// A final line needs no terminator: a text that does not end in a line
/// break yields the same search results as the same text with one appended.
pub proof fn lemma_search_trailing_terminator_irrelevant(query: Seq<char>, contents: Seq<char>)
    requires
        contents.len() > 0,
        contents.last() != '\n',
        contents.last() != '\r',
    ensures
        search_spec(query, contents.push('\n')) == search_spec(query, contents),
        search_case_insensitive_spec(query, contents.push('\n'))
            == search_case_insensitive_spec(query, contents),
{
    lemma_trailing_terminator_irrelevant(contents);
}

} // verus!
