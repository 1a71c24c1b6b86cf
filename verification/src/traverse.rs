//! Handling the items of a list one by one, up to the first that cannot be handled.
use vstd::prelude::*;

use crate::error::Stop;
use crate::model::{lemma_views_push, result_view, views};

verus! {

/// The results of `f` on the items of a list, up to the first item on which it stops, and why it
/// stopped there.
pub open spec fn traverse<T, U>(items: Seq<T>, f: spec_fn(T) -> Result<U, Stop>) -> (
    Seq<U>,
    Result<(), Stop>,
)
    decreases items.len(),
{
    if items.len() == 0 {
        (Seq::empty(), Ok(()))
    } else {
        let (done, r) = traverse(items.drop_last(), f);
        match r {
            Ok(()) => match f(items.last()) {
                Ok(value) => (done.push(value), Ok(())),
                Err(stop) => (done, Err(stop)),
            },
            Err(stop) => (done, Err(stop)),
        }
    }
}

/// The first item on which `f` stops decides: there is one result for each item in front of it, and
/// the reason to stop is the one that `f` gives for it. If `f` stops on none there is one result
/// for each item.
pub proof fn law_first_stop_decides<T, U>(items: Seq<T>, f: spec_fn(T) -> Result<U, Stop>)
    ensures
        ({
            let (done, r) = traverse(items, f);
            &&& done.len() <= items.len()
            &&& forall|i: int|
                0 <= i < done.len() ==> f(#[trigger] items[i]) == Ok::<U, Stop>(done[i])
            &&& match r {
                Ok(()) => done.len() == items.len(),
                Err(stop) => done.len() < items.len() && f(items[done.len() as int]) == Err::<
                    U,
                    Stop,
                >(stop),
            }
        }),
    decreases items.len(),
{
    if items.len() > 0 {
        law_first_stop_decides(items.drop_last(), f);
        let (before, _) = traverse(items.drop_last(), f);
        let (done, r) = traverse(items, f);
        assert forall|i: int| 0 <= i < done.len() implies f(#[trigger] items[i]) == Ok::<U, Stop>(
            done[i],
        ) by {
            if i < before.len() {
                assert(items[i] == items.drop_last()[i]);
            }
        }
        if before.len() < items.len() - 1 {
            assert(items[before.len() as int] == items.drop_last()[before.len() as int]);
        }
    }
}

/// Once the items of a prefix cannot all be handled, those that follow make no difference.
pub proof fn lemma_traverse_stop<T, U>(
    items: Seq<T>,
    f: spec_fn(T) -> Result<U, Stop>,
    count: int,
)
    requires
        0 <= count <= items.len(),
        traverse(items.take(count), f).1 is Err,
    ensures
        traverse(items, f) == traverse(items.take(count), f),
    decreases items.len(),
{
    if count < items.len() {
        assert(items.drop_last().take(count) =~= items.take(count));
        lemma_traverse_stop(items.drop_last(), f, count);
    } else {
        assert(items.take(count) =~= items);
    }
}

/// How far [`traverse`] gets with one more item.
pub proof fn lemma_traverse_step<T, U>(
    items: Seq<T>,
    f: spec_fn(T) -> Result<U, Stop>,
    count: int,
)
    requires
        0 <= count < items.len(),
        traverse(items.take(count), f).1 is Ok,
    ensures
        match f(items[count]) {
            Ok(value) => traverse(items.take(count + 1), f) == (
                traverse(items.take(count), f).0.push(value),
                Ok::<(), Stop>(()),
            ),
            Err(stop) => traverse(items, f) == (
                traverse(items.take(count), f).0,
                Err::<(), Stop>(stop),
            ),
        },
{
    assert(items.take(count + 1).drop_last() =~= items.take(count));
    if f(items[count]) is Err {
        lemma_traverse_stop(items, f, count + 1);
    }
}

/// It makes no difference whether the items are prepared beforehand or one by one.
pub proof fn lemma_traverse_map<S, T, U>(
    items: Seq<S>,
    prepare: spec_fn(S) -> T,
    f: spec_fn(T) -> Result<U, Stop>,
)
    ensures
        traverse(items, |item: S| f(prepare(item))) == traverse(items.map_values(prepare), f),
    decreases items.len(),
{
    if items.len() > 0 {
        assert(items.map_values(prepare).drop_last() =~= items.drop_last().map_values(prepare));
        lemma_traverse_map(items.drop_last(), prepare, f);
    }
}

/// All results, if there is one for every item.
pub open spec fn all_handled<U>(handled: (Seq<U>, Result<(), Stop>)) -> Result<Seq<U>, Stop> {
    match handled.1 {
        Ok(()) => Ok(handled.0),
        Err(stop) => Err(stop),
    }
}

/// Handles the items of a list with `f`, up to the first on which it stops.
pub(crate) fn handle<T, U: View, F: Fn(T) -> Result<U, Stop>>(
    items: Vec<T>,
    f: F,
    Ghost(g): Ghost<spec_fn(T) -> Result<U::V, Stop>>,
) -> (r: (Vec<U>, Result<(), Stop>))
    requires
        forall|item: T| call_requires(f, (item,)),
        forall|item: T, value: Result<U, Stop>|
            #[trigger] call_ensures(f, (item,), value) ==> result_view(value) == g(item),
    ensures
        (views(r.0@), r.1) == traverse(items@, g),
{
    broadcast use lemma_views_push;

    let mut done: Vec<U> = Vec::new();
    assert(views(done@) =~= Seq::empty());
    assert(items@.take(0) =~= Seq::empty());
    for item in it: items
        invariant
            it.seq() == items@,
            forall|item: T| call_requires(f, (item,)),
            forall|item: T, value: Result<U, Stop>|
                #[trigger] call_ensures(f, (item,), value) ==> result_view(value) == g(item),
            traverse(items@.take(it.index() as int), g) == (views(done@), Ok::<(), Stop>(())),
    {
        proof {
            lemma_traverse_step(items@, g, it.index() as int);
        }
        match f(item) {
            Ok(value) => done.push(value),
            Err(stop) => return (done, Err(stop)),
        }
    }
    assert(items@.take(items@.len() as int) =~= items@);
    (done, Ok(()))
}

/// Handles the items of a list with `f`, up to the first on which it stops. Each time `f` is given
/// the same `context`.
pub(crate) fn handle_in<C: Copy, T, U: View, F: Fn(C, T) -> Result<U, Stop>>(
    context: C,
    items: Vec<T>,
    f: F,
    Ghost(g): Ghost<spec_fn(T) -> Result<U::V, Stop>>,
) -> (r: (Vec<U>, Result<(), Stop>))
    requires
        forall|item: T| call_requires(f, (context, item)),
        forall|item: T, value: Result<U, Stop>|
            #[trigger] call_ensures(f, (context, item), value) ==> result_view(value) == g(item),
    ensures
        (views(r.0@), r.1) == traverse(items@, g),
{
    broadcast use lemma_views_push;

    let mut done: Vec<U> = Vec::new();
    assert(views(done@) =~= Seq::empty());
    assert(items@.take(0) =~= Seq::empty());
    for item in it: items
        invariant
            it.seq() == items@,
            forall|item: T| call_requires(f, (context, item)),
            forall|item: T, value: Result<U, Stop>|
                #[trigger] call_ensures(f, (context, item), value) ==> result_view(value) == g(
                    item,
                ),
            traverse(items@.take(it.index() as int), g) == (views(done@), Ok::<(), Stop>(())),
    {
        proof {
            lemma_traverse_step(items@, g, it.index() as int);
        }
        match f(context, item) {
            Ok(value) => done.push(value),
            Err(stop) => return (done, Err(stop)),
        }
    }
    assert(items@.take(items@.len() as int) =~= items@);
    (done, Ok(()))
}

} // verus!
