use vstd::prelude::*;

use crate::key::KeyAndTenant;

verus! {

/// An identity as the registry sees it: the key text and the tenant text.
pub type IdentityView = (Seq<char>, Seq<char>);

/// The identifier of a message, unique per identity within one registry.
#[derive(Debug, Clone, Copy, PartialEq, Eq, Structural)]
pub struct MessageId(pub u64);

/// One resolution on the registry's contents `entries` (identities in order
/// of first sight; the identity at index `i` holds identifier `i + 1`):
/// the contents afterwards, the identifier handed out, and whether it is new.
pub open spec fn resolve_step(entries: Seq<IdentityView>, k: IdentityView) -> (
    Seq<IdentityView>,
    nat,
    bool,
) {
    if entries.contains(k) {
        (entries, (entries.index_of(k) + 1) as nat, false)
    } else {
        (entries.push(k), entries.len() + 1, true)
    }
}

/// In a sequence without duplicates, the place of an element is its only one.
pub proof fn lemma_index_of_unique(s: Seq<IdentityView>, j: int, k: IdentityView)
    requires
        s.no_duplicates(),
        0 <= j < s.len(),
        s[j] == k,
    ensures
        s.contains(k),
        s.index_of(k) == j,
{
    assert(s.contains(k));
    let i = s.index_of(k);
    assert(s[i] == k);
}

/// One resolution keeps the contents free of duplicates, only ever appends,
/// and hands out the place (plus one) that `k` holds afterwards.
pub proof fn lemma_resolve_step(entries: Seq<IdentityView>, k: IdentityView)
    requires
        entries.no_duplicates(),
    ensures
        ({
            let (after, id, is_new) = resolve_step(entries, k);
            &&& after.no_duplicates()
            &&& entries.len() <= after.len() <= entries.len() + 1
            &&& forall|x: int| 0 <= x < entries.len() ==> after[x] == entries[x]
            &&& 1 <= id <= after.len()
            &&& after[id - 1] == k
            &&& is_new == !entries.contains(k)
            &&& forall|y: IdentityView| after.contains(y) <==> (entries.contains(y) || y == k)
        }),
{
    if entries.contains(k) {
        let i = entries.index_of(k);
        assert(entries[i] == k);
    } else {
        let after = entries.push(k);
        assert(after[entries.len() as int] == k);
        assert forall|a: int, b: int| 0 <= a < b < after.len() implies after[a] != after[b] by {
            if b == entries.len() {
                assert(entries[a] == after[a]);
            }
        }
        assert forall|y: IdentityView| after.contains(y) <==> (entries.contains(y) || y == k) by {
            if after.contains(y) {
                let x = choose|x: int| 0 <= x < after.len() && after[x] == y;
                if x < entries.len() {
                    assert(entries[x] == y);
                }
            }
            if entries.contains(y) {
                let x = choose|x: int| 0 <= x < entries.len() && entries[x] == y;
                assert(after[x] == y);
            }
        }
    }
}

/// The store of identities, each with the identifier it was given: the
/// identity at place `i` (in order of first sight) holds identifier `i + 1`.
/// Nothing is ever removed, so identifiers are dense and never reused.
pub struct IdentityRegistry {
    entries: Vec<KeyAndTenant>,
}

impl View for IdentityRegistry {
    type V = Seq<IdentityView>;

    closed spec fn view(&self) -> Seq<IdentityView> {
        self.entries@.map_values(|e: KeyAndTenant| e@)
    }
}

impl IdentityRegistry {
    /// Each identity is stored once.
    pub open spec fn wf(&self) -> bool {
        self@.no_duplicates()
    }

    /// An empty registry.
    pub fn new() -> (r: IdentityRegistry)
        ensures
            r.wf(),
            r@ == Seq::<IdentityView>::empty(),
    {
        let r = IdentityRegistry { entries: Vec::new() };
        assert(r@ =~= Seq::<IdentityView>::empty());
        r
    }

    /// The number of distinct identities seen so far.
    pub fn len(&self) -> (r: usize)
        ensures
            r == self@.len(),
    {
        self.entries.len()
    }

    /// Looks `kt` up; if it is stored, returns its identifier, not new.
    /// Otherwise stores it with the next identifier (the count of stored
    /// identities plus one) and returns that, new. Check and insertion are one
    /// step on an exclusively borrowed registry.
    pub fn resolve(&mut self, kt: KeyAndTenant) -> (r: (MessageId, bool))
        requires
            old(self).wf(),
            old(self)@.len() < u64::MAX,
        ensures
            final(self).wf(),
            (final(self)@, r.0.0 as nat, r.1) == resolve_step(old(self)@, kt@),
    {
        let n = self.entries.len();
        let mut i: usize = 0;
        while i < n
            invariant
                n == self@.len(),
                self@ == old(self)@,
                self.wf(),
                0 <= i <= n,
                forall|j: int| 0 <= j < i ==> self@[j] != kt@,
            decreases n - i,
        {
            if self.entries[i].same_identity(&kt) {
                proof {
                    assert(self@[i as int] == self.entries@[i as int]@);
                    lemma_index_of_unique(self@, i as int, kt@);
                }
                return (MessageId((i + 1) as u64), false);
            }
            assert(self@[i as int] == self.entries@[i as int]@);
            i += 1;
        }
        let id = MessageId((n as u64) + 1);
        let ghost before = self@;
        proof {
            assert(!before.contains(kt@));
            lemma_resolve_step(before, kt@);
        }
        self.entries.push(kt);
        assert(self@ =~= before.push(kt@));
        (id, true)
    }
}

} // verus!
