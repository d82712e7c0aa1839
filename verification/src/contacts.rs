//! Bootstrap contact descriptors and the resolver that computes the
//! effective contact set from built-in defaults and a caller-supplied set.

use vstd::prelude::*;

verus! {

/// One bootstrap contact: a network endpoint (IPv4 address and port) together
/// with the identity the peer is expected to present. Two contacts are the
/// same contact exactly when all three fields agree.
#[derive(Clone, Copy, PartialEq, Eq, Structural, Debug)]
pub struct Contact {
    /// IPv4 address, big-endian packed.
    pub addr: u32,
    /// Transport port. A port of zero cannot be dialed and makes a contact
    /// structurally invalid.
    pub port: u16,
    /// Identity the peer at this endpoint is expected to present.
    pub node_id: u64,
}

impl Contact {
    /// A contact is structurally valid when its endpoint can be dialed.
    pub open spec fn spec_valid(self) -> bool {
        self.port != 0
    }

    /// Executable validity check, equal to the specification.
    pub fn is_valid(&self) -> (r: bool)
        ensures
            r == self.spec_valid(),
    {
        self.port != 0
    }
}

/// First-occurrence deduplication: keeps each contact once, in the order of
/// its first appearance.
pub open spec fn dedup(x: Seq<Contact>) -> Seq<Contact>
    decreases x.len(),
{
    if x.len() == 0 {
        Seq::empty()
    } else {
        let front = dedup(x.drop_last());
        if front.contains(x.last()) {
            front
        } else {
            front.push(x.last())
        }
    }
}

/// The effective contact set: defaults first, then the supplied contacts that
/// are new, each distinct contact exactly once.
pub open spec fn spec_resolve(defaults: Seq<Contact>, supplied: Seq<Contact>) -> Seq<Contact> {
    dedup(defaults + supplied)
}

/// Deduplication never invents or loses a contact: membership in the result
/// is membership in the input.
pub proof fn lemma_dedup_members(x: Seq<Contact>)
    ensures
        forall|c: Contact| dedup(x).contains(c) <==> x.contains(c),
    decreases x.len(),
{
    if x.len() == 0 {
    } else {
        lemma_dedup_members(x.drop_last());
        assert forall|c: Contact| x.contains(c) implies dedup(x).contains(c) by {
            let front = dedup(x.drop_last());
            let i = choose|i: int| 0 <= i < x.len() && x[i] == c;
            if i < x.len() - 1 {
                assert(x.drop_last().contains(c)) by {
                    assert(x.drop_last()[i] == c);
                }
                assert(front.contains(c));
                if !front.contains(x.last()) {
                    let j = choose|j: int| 0 <= j < front.len() && front[j] == c;
                    assert(front.push(x.last())[j] == c);
                }
            } else {
                assert(x.last() == c);
                if front.contains(c) {
                } else {
                    assert(front.push(c)[front.len() as int] == c);
                }
            }
        }
        assert forall|c: Contact| dedup(x).contains(c) implies x.contains(c) by {
            if x.drop_last().contains(c) {
                let i = choose|i: int| 0 <= i < x.drop_last().len() && x.drop_last()[i] == c;
                assert(x[i] == c);
            } else {
                assert(x[x.len() - 1] == c);
            }
        }
    }
}

/// The result of deduplication holds no contact twice.
pub proof fn lemma_dedup_no_duplicates(x: Seq<Contact>)
    ensures
        dedup(x).no_duplicates(),
    decreases x.len(),
{
    if x.len() == 0 {
    } else {
        lemma_dedup_no_duplicates(x.drop_last());
        lemma_dedup_members(x.drop_last());
    }
}

/// Whether `v` holds the contact `c`.
pub fn contains_contact(v: &Vec<Contact>, c: &Contact) -> (r: bool)
    ensures
        r == v@.contains(*c),
{
    let mut i: usize = 0;
    while i < v.len()
        invariant
            0 <= i <= v@.len(),
            forall|j: int| 0 <= j < i ==> v@[j] != *c,
        decreases v@.len() - i,
    {
        if v[i] == *c {
            return true;
        }
        i += 1;
    }
    false
}

/// Computes the effective contact set: the union of the default contacts
/// and the supplied ones, defaults first, each distinct contact exactly
/// once, in order of first appearance. Pure and deterministic.
pub fn resolve(defaults: &Vec<Contact>, supplied: &Vec<Contact>) -> (r: Vec<Contact>)
    ensures
        r@ == spec_resolve(defaults@, supplied@),
        r@.no_duplicates(),
        forall|c: Contact| r@.contains(c) <==> defaults@.contains(c) || supplied@.contains(c),
{
    let ghost all = defaults@ + supplied@;
    let mut out: Vec<Contact> = Vec::new();
    let mut i: usize = 0;
    while i < defaults.len()
        invariant
            0 <= i <= defaults@.len(),
            all == defaults@ + supplied@,
            out@ == dedup(all.take(i as int)),
        decreases defaults@.len() - i,
    {
        let c = defaults[i];
        proof {
            assert(all.take(i + 1).drop_last() =~= all.take(i as int));
            assert(all.take(i + 1).last() == c);
        }
        if !contains_contact(&out, &c) {
            out.push(c);
        }
        i += 1;
    }
    let mut j: usize = 0;
    while j < supplied.len()
        invariant
            0 <= j <= supplied@.len(),
            all == defaults@ + supplied@,
            out@ == dedup(all.take(defaults@.len() + j)),
        decreases supplied@.len() - j,
    {
        let c = supplied[j];
        proof {
            assert(all.take(defaults@.len() + j + 1).drop_last() =~= all.take(
                defaults@.len() + j,
            ));
            assert(all.take(defaults@.len() + j + 1).last() == c);
        }
        if !contains_contact(&out, &c) {
            out.push(c);
        }
        j += 1;
    }
    proof {
        assert(all.take(all.len() as int) =~= all);
        lemma_dedup_no_duplicates(all);
        lemma_resolve_complete(defaults@, supplied@);
    }
    out
}

/// Law: the effective contact set holds every distinct contact of either
/// input exactly once — no duplicates, and membership is exactly
/// membership in one of the inputs.
pub proof fn lemma_resolve_complete(d: Seq<Contact>, s: Seq<Contact>)
    ensures
        spec_resolve(d, s).no_duplicates(),
        forall|c: Contact| spec_resolve(d, s).contains(c) <==> d.contains(c) || s.contains(c),
{
    lemma_dedup_no_duplicates(d + s);
    lemma_dedup_members(d + s);
    assert forall|c: Contact| (d + s).contains(c) <==> d.contains(c) || s.contains(c) by {
        if (d + s).contains(c) {
            let i = choose|i: int| 0 <= i < (d + s).len() && (d + s)[i] == c;
            if i < d.len() {
                assert(d[i] == c);
            } else {
                assert(s[i - d.len()] == c);
            }
        }
        if d.contains(c) {
            let i = choose|i: int| 0 <= i < d.len() && d[i] == c;
            assert((d + s)[i] == c);
        }
        if s.contains(c) {
            let i = choose|i: int| 0 <= i < s.len() && s[i] == c;
            assert((d + s)[d.len() + i] == c);
        }
    }
}

/// Law: the resolver is commutative in the order of its two inputs, as
/// contact sets: either order yields the same members.
pub proof fn lemma_resolve_commutative(d: Seq<Contact>, s: Seq<Contact>)
    ensures
        forall|c: Contact| spec_resolve(d, s).contains(c) <==> spec_resolve(s, d).contains(c),
{
    lemma_resolve_complete(d, s);
    lemma_resolve_complete(s, d);
    assert forall|c: Contact|
        spec_resolve(d, s).contains(c) <==> spec_resolve(s, d).contains(c) by {
        assert(spec_resolve(d, s).contains(c) <==> d.contains(c) || s.contains(c));
        assert(spec_resolve(s, d).contains(c) <==> s.contains(c) || d.contains(c));
    }
}

/// Resolving a duplicate-free set with any selection of its own contacts
/// changes nothing.
pub proof fn lemma_resolve_absorb(x: Seq<Contact>, t: Seq<Contact>)
    requires
        x.no_duplicates(),
        forall|c: Contact| t.contains(c) ==> x.contains(c),
    ensures
        spec_resolve(x, t) == x,
    decreases t.len(),
{
    if t.len() == 0 {
        assert(x + t =~= x);
        lemma_dedup_of_distinct(x);
    } else {
        let t0 = t.drop_last();
        assert(forall|c: Contact| t0.contains(c) ==> t.contains(c)) by {
            assert forall|c: Contact| t0.contains(c) implies t.contains(c) by {
                let i = choose|i: int| 0 <= i < t0.len() && t0[i] == c;
                assert(t[i] == c);
            }
        }
        lemma_resolve_absorb(x, t0);
        assert((x + t).drop_last() =~= x + t0);
        assert((x + t).last() == t.last());
        assert(t.contains(t.last())) by {
            assert(t[t.len() - 1] == t.last());
        }
        lemma_dedup_members(x + t0);
        assert((x + t0).contains(t.last())) by {
            let i = choose|i: int| 0 <= i < x.len() && x[i] == t.last();
            assert((x + t0)[i] == t.last());
        }
    }
}

/// Law: the resolver is idempotent — feeding its output back together
/// with either original input (or with itself) returns the output
/// unchanged.
pub proof fn lemma_resolve_idempotent(d: Seq<Contact>, s: Seq<Contact>)
    ensures
        spec_resolve(spec_resolve(d, s), d) == spec_resolve(d, s),
        spec_resolve(spec_resolve(d, s), s) == spec_resolve(d, s),
        spec_resolve(spec_resolve(d, s), spec_resolve(d, s)) == spec_resolve(d, s),
{
    let r = spec_resolve(d, s);
    lemma_resolve_complete(d, s);
    lemma_resolve_absorb(r, d);
    lemma_resolve_absorb(r, s);
    lemma_resolve_absorb(r, r);
}

/// Deduplicating a sequence that already has no duplicates changes nothing.
pub proof fn lemma_dedup_of_distinct(x: Seq<Contact>)
    requires
        x.no_duplicates(),
    ensures
        dedup(x) == x,
    decreases x.len(),
{
    if x.len() == 0 {
        assert(dedup(x) =~= x);
    } else {
        lemma_dedup_of_distinct(x.drop_last());
        lemma_dedup_members(x.drop_last());
        if x.drop_last().contains(x.last()) {
            let i = choose|i: int| 0 <= i < x.drop_last().len() && x.drop_last()[i] == x.last();
            assert(x[i] == x[x.len() - 1]);
            assert(false);
        }
        assert(dedup(x) =~= x);
    }
}

} // verus!
