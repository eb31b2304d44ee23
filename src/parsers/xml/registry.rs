use crate::parsers::xml::common::str_eq;
use crate::parsers::xml::subparsers::{has_subparser, Subparser};
use vstd::prelude::*;

verus! {

/// The namespaces of a registry after a lookup of `ns`: a subparser is made for a
/// namespace seen for the first time, where one is known.
pub open spec fn registry_after(nss: Seq<Seq<char>>, ns: Seq<char>) -> Seq<Seq<char>> {
    if !nss.contains(ns) && has_subparser(ns) {
        nss.push(ns)
    } else {
        nss
    }
}

/// The entry that a lookup of `ns` gives.
pub open spec fn entry_for(nss: Seq<Seq<char>>, ns: Seq<char>) -> Option<int> {
    if nss.contains(ns) {
        Some(nss.index_of(ns))
    } else if has_subparser(ns) {
        Some(nss.len() as int)
    } else {
        None
    }
}

/// What a registry may hold: each namespace at most once, each with a known subparser.
pub open spec fn registry_wf(nss: Seq<Seq<char>>) -> bool {
    &&& nss.no_duplicates()
    &&& forall|i: int| 0 <= i < nss.len() ==> has_subparser(#[trigger] nss[i])
}

/// The subparsers of one parse, made on first use and kept by namespace.
pub struct SubparserRegistry {
    subparsers: Vec<(String, Subparser)>,
}

impl View for SubparserRegistry {
    type V = Seq<Seq<char>>;

    /// The namespaces that have a subparser, in the order in which they were met.
    closed spec fn view(&self) -> Seq<Seq<char>> {
        self.subparsers@.map_values(|e: (String, Subparser)| e.0@)
    }
}

impl SubparserRegistry {
    pub closed spec fn wf(&self) -> bool {
        &&& registry_wf(self@)
        &&& forall|i: int|
            0 <= i < self.subparsers@.len() ==> (#[trigger] self.subparsers@[i]).1.serves()
                == self.subparsers@[i].0@
    }

    /// The namespace that the subparser of entry `i` serves.
    pub closed spec fn serves(&self, i: int) -> Seq<char> {
        self.subparsers@[i].1.serves()
    }

    pub proof fn lemma_entries(&self)
        requires
            self.wf(),
        ensures
            registry_wf(self@),
            forall|i: int| 0 <= i < self@.len() ==> #[trigger] self.serves(i) == self@[i],
    {
    }

    pub fn new() -> (r: SubparserRegistry)
        ensures
            r.wf(),
            r@ == Seq::<Seq<char>>::empty(),
    {
        let r = SubparserRegistry { subparsers: Vec::new() };
        assert(r@ =~= Seq::<Seq<char>>::empty());
        r
    }

    pub fn len(&self) -> (r: usize)
        ensures
            r == self@.len(),
    {
        self.subparsers.len()
    }

    /// The entry of the subparser for `namespace`, made now if the namespace is seen for
    /// the first time and a subparser is known for it.
    pub fn subparser_for(&mut self, namespace: &str) -> (r: Option<usize>)
        requires
            old(self).wf(),
        ensures
            final(self).wf(),
            final(self)@ == registry_after(old(self)@, namespace@),
            match entry_for(old(self)@, namespace@) {
                Some(i) => r == Some(i as usize),
                None => r is None,
            },
            r matches Some(i) ==> i < final(self)@.len() && final(self)@[i as int] == namespace@,
    {
        let n = self.subparsers.len();
        let mut i: usize = 0;
        while i < n
            invariant
                n == self.subparsers@.len(),
                i <= n,
                self.wf(),
                self@ == old(self)@,
                forall|j: int| 0 <= j < i ==> self@[j] != namespace@,
            decreases n - i,
        {
            if str_eq(self.subparsers[i].0.as_str(), namespace) {
                assert(self@[i as int] == namespace@);
                assert(self@.contains(namespace@));
                proof {
                    let k = self@.index_of(namespace@);
                    assert(self@[k] == namespace@);
                    assert(registry_wf(self@));
                    assert(k == i);
                }
                return Some(i);
            }
            i = i + 1;
        }
        assert(!self@.contains(namespace@));
        match Subparser::for_namespace(namespace) {
            Some(parser) => {
                self.subparsers.push((namespace.to_owned(), parser));
                assert(self@ =~= old(self)@.push(namespace@));
                Some(n)
            },
            None => None,
        }
    }

    /// The subparser of entry `i`.
    pub fn get(&self, i: usize) -> (r: &Subparser)
        requires
            i < self@.len(),
        ensures
            r.serves() == self.serves(i as int),
    {
        &self.subparsers[i].1
    }
}

/// A lookup never drops or moves an entry: what the registry held stays a prefix.
pub proof fn lemma_registry_grows(nss: Seq<Seq<char>>, ns: Seq<char>)
    requires
        registry_wf(nss),
    ensures
        registry_wf(registry_after(nss, ns)),
        nss.is_prefix_of(registry_after(nss, ns)),
        match entry_for(nss, ns) {
            Some(i) => 0 <= i < registry_after(nss, ns).len() && registry_after(nss, ns)[i]
                == ns,
            None => true,
        },
{
    if nss.contains(ns) {
        let k = nss.index_of(ns);
        assert(nss[k] == ns);
        assert(nss =~= nss.subrange(0, nss.len() as int));
    } else if has_subparser(ns) {
        assert(nss =~= nss.push(ns).subrange(0, nss.len() as int));
    } else {
        assert(nss =~= nss.subrange(0, nss.len() as int));
    }
}

/// Subparsers are reused: once a lookup of a namespace has given an entry, any later
/// lookup of that namespace, whatever came between, gives the same entry and makes
/// no new subparser.
pub proof fn lemma_subparser_reused(nss: Seq<Seq<char>>, later: Seq<Seq<char>>, ns: Seq<char>)
    requires
        registry_wf(nss),
        registry_wf(later),
        entry_for(nss, ns) is Some,
        registry_after(nss, ns).is_prefix_of(later),
    ensures
        registry_after(later, ns) == later,
        entry_for(later, ns) == entry_for(nss, ns),
{
    lemma_registry_grows(nss, ns);
    let i = entry_for(nss, ns)->0;
    let mid = registry_after(nss, ns);
    assert(later[i] == mid[i]);
    assert(later.contains(ns));
    let k = later.index_of(ns);
    assert(later[k] == ns);
    assert(k == i);
}

} // verus!
