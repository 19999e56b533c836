use vstd::prelude::*;

use crate::registry::{lemma_resolve_step, resolve_step, IdentityView};

verus! {

/// The registry's contents after resolving `requests` one after another,
/// starting from the contents `entries`.
pub open spec fn resolve_all(entries: Seq<IdentityView>, requests: Seq<IdentityView>) -> Seq<
    IdentityView,
>
    decreases requests.len(),
{
    if requests.len() == 0 {
        entries
    } else {
        resolve_step(resolve_all(entries, requests.drop_last()), requests.last()).0
    }
}

/// The identifier and the "new" flag that request `i` of `requests` gets back.
pub open spec fn outcome(entries: Seq<IdentityView>, requests: Seq<IdentityView>, i: int) -> (
    nat,
    bool,
) {
    let r = resolve_step(resolve_all(entries, requests.take(i)), requests[i]);
    (r.1, r.2)
}

/// Resolving keeps the contents free of duplicates, only appends, and ends
/// up holding exactly what was there and what was requested.
proof fn lemma_resolve_all(entries: Seq<IdentityView>, requests: Seq<IdentityView>)
    requires
        entries.no_duplicates(),
    ensures
        resolve_all(entries, requests).no_duplicates(),
        entries.len() <= resolve_all(entries, requests).len(),
        forall|x: int| 0 <= x < entries.len() ==> #[trigger] resolve_all(entries, requests)[x] == entries[x],
        forall|y: IdentityView| #[trigger]
            resolve_all(entries, requests).contains(y) <==> (entries.contains(y) || requests.contains(y)),
    decreases requests.len(),
{
    if requests.len() > 0 {
        let d = requests.drop_last();
        lemma_resolve_all(entries, d);
        let before = resolve_all(entries, d);
        lemma_resolve_step(before, requests.last());
        assert forall|y: IdentityView| requests.contains(y) <==> (d.contains(y) || y == requests.last()) by {
            if requests.contains(y) {
                let x = choose|x: int| 0 <= x < requests.len() && requests[x] == y;
                if x < d.len() {
                    assert(d[x] == y);
                }
            }
            if d.contains(y) {
                let x = choose|x: int| 0 <= x < d.len() && d[x] == y;
                assert(requests[x] == y);
            }
        }
    }
}

/// The contents after the first `i` requests are a prefix of the contents
/// after all of them.
proof fn lemma_resolve_all_prefix(entries: Seq<IdentityView>, requests: Seq<IdentityView>, i: int)
    requires
        entries.no_duplicates(),
        0 <= i <= requests.len(),
    ensures
        resolve_all(entries, requests.take(i)).len() <= resolve_all(entries, requests).len(),
        forall|x: int|
            0 <= x < resolve_all(entries, requests.take(i)).len() ==> #[trigger] resolve_all(
                entries,
                requests,
            )[x] == resolve_all(entries, requests.take(i))[x],
    decreases requests.len(),
{
    if i == requests.len() {
        assert(requests.take(i) =~= requests);
    } else {
        let d = requests.drop_last();
        assert(requests.take(i) =~= d.take(i));
        lemma_resolve_all_prefix(entries, d, i);
        lemma_resolve_all(entries, d);
        lemma_resolve_step(resolve_all(entries, d), requests.last());
    }
}

/// Request `i` gets the place (plus one) that its identity holds in the final
/// contents, and is new exactly when neither the starting contents nor an
/// earlier request hold its identity.
proof fn lemma_outcome(entries: Seq<IdentityView>, requests: Seq<IdentityView>, i: int)
    requires
        entries.no_duplicates(),
        0 <= i < requests.len(),
    ensures
        ({
            let f = resolve_all(entries, requests);
            let (id, is_new) = outcome(entries, requests, i);
            &&& 1 <= id <= f.len()
            &&& f[id - 1] == requests[i]
            &&& is_new == !(entries.contains(requests[i]) || requests.take(i).contains(requests[i]))
        }),
{
    let k = requests[i];
    let s = resolve_all(entries, requests.take(i));
    let t = requests.take(i + 1);
    assert(t.drop_last() =~= requests.take(i));
    assert(t.last() == k);
    lemma_resolve_all(entries, requests.take(i));
    lemma_resolve_step(s, k);
    lemma_resolve_all_prefix(entries, requests, i + 1);
    let id = outcome(entries, requests, i).0;
    assert(resolve_all(entries, requests)[id - 1] == resolve_all(entries, t)[id - 1]);
}

/// Determinism: over any run of requests, all requests for one identity get
/// the same identifier, and only the first of them (when the identity was not
/// stored before) is reported new.
pub proof fn lemma_resolve_deterministic(entries: Seq<IdentityView>, requests: Seq<IdentityView>)
    requires
        entries.no_duplicates(),
    ensures
        forall|i: int, j: int|
            0 <= i < requests.len() && 0 <= j < requests.len() && requests[i] == requests[j]
                ==> #[trigger] outcome(entries, requests, i).0 == #[trigger] outcome(
                entries,
                requests,
                j,
            ).0,
        forall|i: int|
            0 <= i < requests.len() ==> (#[trigger] outcome(entries, requests, i).1 <==> (
            !entries.contains(requests[i]) && forall|j: int|
                0 <= j < i ==> requests[j] != requests[i])),
{
    let f = resolve_all(entries, requests);
    lemma_resolve_all(entries, requests);
    assert forall|i: int, j: int|
        0 <= i < requests.len() && 0 <= j < requests.len() && requests[i]
            == requests[j] implies #[trigger] outcome(entries, requests, i).0 == #[trigger] outcome(
        entries,
        requests,
        j,
    ).0 by {
        lemma_outcome(entries, requests, i);
        lemma_outcome(entries, requests, j);
    }
    assert forall|i: int| 0 <= i < requests.len() implies (#[trigger] outcome(
        entries,
        requests,
        i,
    ).1 <==> (!entries.contains(requests[i]) && forall|j: int|
        0 <= j < i ==> requests[j] != requests[i])) by {
        lemma_outcome(entries, requests, i);
        let p = requests.take(i);
        if p.contains(requests[i]) {
            let j = choose|j: int| 0 <= j < p.len() && p[j] == requests[i];
            assert(requests[j] == requests[i]);
        }
        if exists|j: int| 0 <= j < i && requests[j] == requests[i] {
            let j = choose|j: int| 0 <= j < i && requests[j] == requests[i];
            assert(p[j] == requests[i]);
        }
    }
}

/// Uniqueness: over any run of requests, requests for different identities
/// (differing in key, tenant or both) get different identifiers.
pub proof fn lemma_resolve_unique(entries: Seq<IdentityView>, requests: Seq<IdentityView>)
    requires
        entries.no_duplicates(),
    ensures
        forall|i: int, j: int|
            0 <= i < requests.len() && 0 <= j < requests.len() && requests[i] != requests[j]
                ==> #[trigger] outcome(entries, requests, i).0 != #[trigger] outcome(
                entries,
                requests,
                j,
            ).0,
{
    assert forall|i: int, j: int|
        0 <= i < requests.len() && 0 <= j < requests.len() && requests[i]
            != requests[j] implies #[trigger] outcome(entries, requests, i).0 != #[trigger] outcome(
        entries,
        requests,
        j,
    ).0 by {
        lemma_outcome(entries, requests, i);
        lemma_outcome(entries, requests, j);
    }
}

/// Simultaneous first requests: callers hold the registry exclusively for
/// each resolution, so `n` simultaneous requests for an identity that is not
/// yet stored run in some order, and every order is the same run of `n`
/// equal requests. Exactly the first is new, and all share the next
/// identifier.
pub proof fn lemma_same_identity_requests(entries: Seq<IdentityView>, k: IdentityView, n: nat)
    requires
        entries.no_duplicates(),
        !entries.contains(k),
        n >= 1,
    ensures
        ({
            let requests = Seq::new(n, |x: int| k);
            &&& outcome(entries, requests, 0) == (entries.len() + 1, true)
            &&& forall|i: int|
                0 < i < n ==> #[trigger] outcome(entries, requests, i) == (entries.len() + 1, false)
        }),
{
    let requests = Seq::new(n, |x: int| k);
    lemma_resolve_deterministic(entries, requests);
    assert(requests.take(0) =~= Seq::<IdentityView>::empty());
    assert(outcome(entries, requests, 0) == (entries.len() + 1, true));
    assert forall|i: int| 0 < i < n implies #[trigger] outcome(entries, requests, i) == (
    entries.len() + 1, false) by {
        assert(requests[0] == requests[i]);
        assert(outcome(entries, requests, 0).0 == outcome(entries, requests, i).0);
    }
}

} // verus!
