//! The report order: results sorted by server name, ascending, results with
//! the same server kept in the order they came in.
use vstd::prelude::*;
use vstd::seq_lib::to_multiset_insert;
use crate::outcome::{views, ResultView, ServerResult};
use crate::text::{
    lemma_text_lt_irreflexive, lemma_text_lt_transitive, lemma_text_lt_trichotomy, text_le, text_less, text_lt,
};

verus! {

/// Where a result for `key` goes in `s`: before the first result whose server
/// comes strictly after `key`, so after every result for `key` already there.
pub open spec fn insertion_point(s: Seq<ResultView>, key: Seq<char>) -> nat
    decreases s.len(),
{
    if s.len() == 0 {
        0
    } else if text_lt(key, s[0].server) {
        0
    } else {
        1 + insertion_point(s.drop_first(), key)
    }
}

/// `s` with `x` put at its insertion point.
pub open spec fn insert_by_server(s: Seq<ResultView>, x: ResultView) -> Seq<ResultView> {
    s.insert(insertion_point(s, x.server) as int, x)
}

/// The stable sort of `s` by server: each result in turn, from the first,
/// goes to its insertion point among those sorted before it.
pub open spec fn sort_by_server(s: Seq<ResultView>) -> Seq<ResultView>
    decreases s.len(),
{
    if s.len() == 0 {
        s
    } else {
        insert_by_server(sort_by_server(s.drop_last()), s.last())
    }
}

/// Servers never decrease along `s`.
pub open spec fn is_sorted_by_server(s: Seq<ResultView>) -> bool {
    forall|i: int, j: int| 0 <= i < j < s.len() ==> text_le(#[trigger] s[i].server, #[trigger] s[j].server)
}

/// What the insertion point is: every result before it has a server that
/// does not come after `key`, and the one at it has a server after `key`.
pub proof fn lemma_insertion_point(s: Seq<ResultView>, key: Seq<char>)
    ensures
        insertion_point(s, key) <= s.len(),
        forall|q: int| 0 <= q < insertion_point(s, key) ==> !text_lt(key, #[trigger] s[q].server),
        insertion_point(s, key) < s.len() ==> text_lt(key, s[insertion_point(s, key) as int].server),
    decreases s.len(),
{
    if s.len() > 0 && !text_lt(key, s[0].server) {
        lemma_insertion_point(s.drop_first(), key);
        assert forall|q: int| 0 <= q < insertion_point(s, key) implies !text_lt(
            key,
            #[trigger] s[q].server,
        ) by {
            if q > 0 {
                assert(s[q] == s.drop_first()[q - 1]);
            }
        }
    }
}

/// Inserting at the insertion point keeps a sorted sequence sorted.
pub proof fn lemma_insert_keeps_sorted(s: Seq<ResultView>, x: ResultView)
    requires
        is_sorted_by_server(s),
    ensures
        is_sorted_by_server(insert_by_server(s, x)),
{
    lemma_insertion_point(s, x.server);
    let p = insertion_point(s, x.server) as int;
    let t = insert_by_server(s, x);
    assert forall|i: int, j: int| 0 <= i < j < t.len() implies text_le(
        #[trigger] t[i].server,
        #[trigger] t[j].server,
    ) by {
        if i < p && j == p {
            lemma_text_lt_trichotomy(s[i].server, x.server);
        } else if i == p && j > p {
            lemma_text_lt_trichotomy(s[j - 1].server, x.server);
            if s[p].server != s[j - 1].server {
                lemma_text_lt_transitive(x.server, s[p].server, s[j - 1].server);
            }
        } else if i < p && j > p {
            assert(text_le(s[i].server, s[j - 1].server));
        } else if j < p {
            assert(text_le(s[i].server, s[j].server));
        } else {
            assert(text_le(s[i - 1].server, s[j - 1].server));
        }
    }
}

/// The sort of any sequence is sorted by server.
pub proof fn lemma_sort_is_sorted(s: Seq<ResultView>)
    ensures
        is_sorted_by_server(sort_by_server(s)),
    decreases s.len(),
{
    if s.len() > 0 {
        lemma_sort_is_sorted(s.drop_last());
        lemma_insert_keeps_sorted(sort_by_server(s.drop_last()), s.last());
    }
}

/// The sort holds the same results as its input, each as many times.
pub proof fn lemma_sort_is_permutation(s: Seq<ResultView>)
    ensures
        sort_by_server(s).to_multiset() == s.to_multiset(),
        sort_by_server(s).len() == s.len(),
    decreases s.len(),
{
    if s.len() > 0 {
        let t = sort_by_server(s.drop_last());
        lemma_sort_is_permutation(s.drop_last());
        lemma_insertion_point(t, s.last().server);
        to_multiset_insert(t, insertion_point(t, s.last().server) as int, s.last());
        assert(s =~= s.drop_last().push(s.last()));
        s.drop_last().to_multiset_ensures();
    }
}

/// Whether a result belongs to server `key`.
pub open spec fn on_server(key: Seq<char>) -> spec_fn(ResultView) -> bool {
    |r: ResultView| r.server == key
}

/// The sort is stable: for every server, its results come out in the order
/// in which they went in.
pub proof fn lemma_sort_is_stable(s: Seq<ResultView>, key: Seq<char>)
    ensures
        sort_by_server(s).filter(on_server(key)) == s.filter(on_server(key)),
    decreases s.len(),
{
    if s.len() > 0 {
        let pred = on_server(key);
        let x = s.last();
        let t = sort_by_server(s.drop_last());
        lemma_sort_is_stable(s.drop_last(), key);
        lemma_sort_is_sorted(s.drop_last());
        lemma_insertion_point(t, x.server);
        let p = insertion_point(t, x.server) as int;
        let a = t.subrange(0, p);
        let b = t.subrange(p, t.len() as int);
        assert(t.insert(p, x) =~= (a + seq![x]) + b);
        assert(t =~= a + b);
        Seq::filter_distributes_over_add(a + seq![x], b, pred);
        Seq::filter_distributes_over_add(a, seq![x], pred);
        Seq::filter_distributes_over_add(a, b, pred);
        assert(s =~= s.drop_last().push(x));
        s.drop_last().lemma_filter_push(x, pred);
        Seq::<ResultView>::empty().lemma_filter_push(x, pred);
        assert(seq![x] =~= Seq::<ResultView>::empty().push(x));
        assert(Seq::<ResultView>::empty().filter(pred) =~= Seq::<ResultView>::empty()) by {
            Seq::<ResultView>::empty().lemma_all_neg_filter_empty(pred);
        }
        if x.server == key {
            assert forall|q: int| 0 <= q < b.len() implies !pred(#[trigger] b[q]) by {
                assert(text_le(t[p].server, t[p + q].server));
                if t[p].server != t[p + q].server {
                    lemma_text_lt_transitive(x.server, t[p].server, t[p + q].server);
                }
                lemma_text_lt_irreflexive(key);
            }
            b.lemma_all_neg_filter_empty(pred);
            assert(b.filter(pred) =~= Seq::<ResultView>::empty());
            assert(seq![x].filter(pred) =~= seq![x]);
            assert(t.filter(pred) =~= a.filter(pred));
            assert(sort_by_server(s).filter(pred) =~= a.filter(pred).push(x));
        } else {
            assert(seq![x].filter(pred) =~= Seq::<ResultView>::empty());
            assert(sort_by_server(s).filter(pred) =~= t.filter(pred));
        }
    }
}

/// The insertion point of `key` among the views of `v`.
fn find_insertion_point(v: &Vec<ServerResult>, key: &str) -> (p: usize)
    ensures
        p == insertion_point(views(v@), key@),
{
    let ghost s = views(v@);
    let mut p: usize = 0;
    assert(s.skip(0) =~= s);
    while p < v.len()
        invariant
            s == views(v@),
            p <= v@.len(),
            insertion_point(s, key@) == p + insertion_point(s.skip(p as int), key@),
        decreases v@.len() - p,
    {
        if text_less(key, v[p].server.as_str()) {
            return p;
        }
        assert(s.skip(p as int).drop_first() =~= s.skip(p + 1));
        p = p + 1;
    }
    p
}

/// Sorts `items` by server, ascending; results with equal servers keep their
/// order.
pub fn sorted_by_server(items: Vec<ServerResult>) -> (r: Vec<ServerResult>)
    ensures
        views(r@) == sort_by_server(views(items@)),
        is_sorted_by_server(views(r@)),
        views(r@).to_multiset() == views(items@).to_multiset(),
        forall|key: Seq<char>| #[trigger] views(r@).filter(on_server(key)) == views(items@).filter(on_server(key)),
{
    let ghost input = views(items@);
    let mut out: Vec<ServerResult> = Vec::new();
    let mut rest = items;
    let n = rest.len();
    let mut i: usize = 0;
    assert(input.take(0) =~= Seq::<ResultView>::empty());
    assert(views(out@) =~= sort_by_server(input.take(0)));
    assert(views(rest@) =~= input.skip(0));
    while i < n
        invariant
            n == input.len(),
            i <= n,
            rest@.len() == n - i,
            views(rest@) == input.skip(i as int),
            views(out@) == sort_by_server(input.take(i as int)),
        decreases n - i,
    {
        let ghost rest_before = rest@;
        let x = rest.remove(0);
        assert(views(rest_before)[0] == x@);
        assert(x@ == input[i as int]);
        assert forall|k: int| 0 <= k < rest@.len() implies views(rest@)[k] == input.skip(
            i + 1,
        )[k] by {
            assert(rest@[k] == rest_before[k + 1]);
            assert(views(rest_before)[k + 1] == input.skip(i as int)[k + 1]);
        }
        assert(views(rest@) =~= input.skip(i + 1));
        let p = find_insertion_point(&out, x.server.as_str());
        proof {
            lemma_insertion_point(views(out@), x@.server);
            assert(input.take(i + 1).drop_last() =~= input.take(i as int));
        }
        let ghost before = out@;
        out.insert(p, x);
        assert(views(out@) =~= views(before).insert(p as int, input[i as int]));
        i = i + 1;
    }
    assert(input.take(n as int) =~= input);
    proof {
        lemma_sort_is_sorted(input);
        lemma_sort_is_permutation(input);
        assert forall|key: Seq<char>| #[trigger] views(out@).filter(on_server(key)) == input.filter(on_server(key)) by {
            lemma_sort_is_stable(input, key);
        }
    }
    out
}

} // verus!
