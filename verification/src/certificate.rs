//! Server identities for intercepted hosts: the authority that mints them,
//! the cache that keeps them, and the issuer that joins the two.

use crate::ascii::bytes_eq;
use vstd::prelude::*;

verus! {

/// What a TLS server presents for one hostname: a private key and the
/// certificate chain that belongs to it, each as its encoded bytes.
#[derive(Clone, Debug, PartialEq, Eq)]
pub struct ServerIdentity {
    pub private_key: Vec<u8>,
    pub certificate_chain: Vec<Vec<u8>>,
}

/// What a server identity holds.
pub struct IdentityView {
    pub private_key: Seq<u8>,
    pub certificate_chain: Seq<Seq<u8>>,
}

impl View for ServerIdentity {
    type V = IdentityView;

    open spec fn view(&self) -> IdentityView {
        IdentityView {
            private_key: self.private_key@,
            certificate_chain: self.certificate_chain@.map_values(|c: Vec<u8>| c@),
        }
    }
}

impl ServerIdentity {
    /// A second identity that holds the same bytes.
    pub fn duplicate(&self) -> (copy: ServerIdentity)
        ensures
            copy@ == self@,
    {
        let mut chain: Vec<Vec<u8>> = Vec::new();
        let mut k: usize = 0;
        while k < self.certificate_chain.len()
            invariant
                0 <= k <= self.certificate_chain@.len(),
                chain@.len() == k,
                forall|m: int| 0 <= m < k ==> (#[trigger] chain@[m])@ == self.certificate_chain@[m]@,
            decreases self.certificate_chain@.len() - k,
        {
            chain.push(vstd::slice::slice_to_vec(self.certificate_chain[k].as_slice()));
            k = k + 1;
        }
        let copy = ServerIdentity {
            private_key: vstd::slice::slice_to_vec(self.private_key.as_slice()),
            certificate_chain: chain,
        };
        assert(copy@.certificate_chain =~= self@.certificate_chain);
        copy
    }
}

/// Why no identity was issued for a hostname.
#[derive(Clone, Copy, Debug, PartialEq, Eq, Structural)]
pub enum CertError {
    /// The authority rejects the hostname.
    InvalidHostname,
    /// Signing failed.
    Signing,
}

/// What an attempt to issue holds: the identity, or the failure.
pub open spec fn outcome_view(outcome: Result<ServerIdentity, CertError>) -> Result<IdentityView, CertError> {
    match outcome {
        Ok(identity) => Ok(identity@),
        Err(e) => Err(e),
    }
}

/// An authority that mints a leaf certificate for a hostname, signed by its root.
pub trait CertificateAuthority {
    /// Mints a private key and a certificate chain for `hostname`.
    fn issue(&self, hostname: &[u8]) -> Result<ServerIdentity, CertError>;
}

/// One cached identity.
struct Entry {
    hostname: Vec<u8>,
    identity: ServerIdentity,
}

/// The hostnames and identities of a list of entries, in order.
spec fn pairs(entries: Seq<Entry>) -> Seq<(Seq<u8>, IdentityView)> {
    entries.map_values(|e: Entry| (e.hostname@, e.identity@))
}

/// The map that a list of pairs spells, a later pair replacing an earlier one.
spec fn as_map(pairs: Seq<(Seq<u8>, IdentityView)>) -> Map<Seq<u8>, IdentityView>
    decreases pairs.len(),
{
    if pairs.len() == 0 {
        Map::empty()
    } else {
        as_map(pairs.drop_last()).insert(pairs.last().0, pairs.last().1)
    }
}

/// Whether no hostname stands twice in a list of pairs.
spec fn distinct(pairs: Seq<(Seq<u8>, IdentityView)>) -> bool {
    forall|i: int, j: int| 0 <= i < j < pairs.len() ==> (#[trigger] pairs[i]).0 != (#[trigger] pairs[j]).0
}

proof fn lemma_as_map_absent(pairs: Seq<(Seq<u8>, IdentityView)>, hostname: Seq<u8>)
    requires
        forall|i: int| 0 <= i < pairs.len() ==> (#[trigger] pairs[i]).0 != hostname,
    ensures
        !as_map(pairs).contains_key(hostname),
    decreases pairs.len(),
{
    if pairs.len() > 0 {
        let front = pairs.drop_last();
        assert forall|i: int| 0 <= i < front.len() implies (#[trigger] front[i]).0 != hostname by {
            assert(front[i] == pairs[i]);
        }
        lemma_as_map_absent(front, hostname);
        assert(pairs[pairs.len() - 1].0 != hostname);
    }
}

proof fn lemma_as_map_present(pairs: Seq<(Seq<u8>, IdentityView)>, i: int)
    requires
        distinct(pairs),
        0 <= i < pairs.len(),
    ensures
        as_map(pairs).contains_key(pairs[i].0),
        as_map(pairs)[pairs[i].0] == pairs[i].1,
    decreases pairs.len(),
{
    let front = pairs.drop_last();
    if i < pairs.len() - 1 {
        assert forall|a: int, b: int| 0 <= a < b < front.len() implies (#[trigger] front[a]).0 != (
        #[trigger] front[b]).0 by {
            assert(front[a] == pairs[a] && front[b] == pairs[b]);
        }
        lemma_as_map_present(front, i);
        assert(front[i] == pairs[i]);
        assert(pairs[i].0 != pairs[pairs.len() - 1].0);
    }
}

proof fn lemma_as_map_update(pairs: Seq<(Seq<u8>, IdentityView)>, i: int, identity: IdentityView)
    requires
        distinct(pairs),
        0 <= i < pairs.len(),
    ensures
        as_map(pairs.update(i, (pairs[i].0, identity))) == as_map(pairs).insert(pairs[i].0, identity),
        distinct(pairs.update(i, (pairs[i].0, identity))),
    decreases pairs.len(),
{
    let hostname = pairs[i].0;
    let updated = pairs.update(i, (hostname, identity));
    let front = pairs.drop_last();
    assert forall|a: int, b: int| 0 <= a < b < updated.len() implies (#[trigger] updated[a]).0 != (
    #[trigger] updated[b]).0 by {
        assert(updated[a].0 == pairs[a].0 && updated[b].0 == pairs[b].0);
    }
    if i == pairs.len() - 1 {
        assert(updated.drop_last() =~= front);
        assert(as_map(updated) =~= as_map(pairs).insert(hostname, identity));
    } else {
        assert forall|a: int, b: int| 0 <= a < b < front.len() implies (#[trigger] front[a]).0 != (
        #[trigger] front[b]).0 by {
            assert(front[a] == pairs[a] && front[b] == pairs[b]);
        }
        lemma_as_map_update(front, i, identity);
        assert(front[i] == pairs[i]);
        assert(updated.drop_last() =~= front.update(i, (hostname, identity)));
        assert(updated.last() == pairs.last());
        assert(pairs.last().0 != hostname);
        assert(as_map(updated) =~= as_map(pairs).insert(hostname, identity));
    }
}

/// The identities issued so far, by hostname. Nothing is ever evicted, and no
/// hostname is held twice.
pub struct CertificateCache {
    entries: Vec<Entry>,
}

impl View for CertificateCache {
    type V = Map<Seq<u8>, IdentityView>;

    closed spec fn view(&self) -> Map<Seq<u8>, IdentityView> {
        as_map(pairs(self.entries@))
    }
}

impl CertificateCache {
    #[verifier::type_invariant]
    spec fn well_formed(self) -> bool {
        distinct(pairs(self.entries@))
    }

    /// A cache that holds nothing.
    pub fn new() -> (cache: CertificateCache)
        ensures
            cache@ == Map::<Seq<u8>, IdentityView>::empty(),
    {
        let cache = CertificateCache { entries: Vec::new() };
        assert(pairs(cache.entries@) =~= Seq::empty());
        cache
    }

    /// Where `hostname` stands among the entries, if it does.
    fn position(&self, hostname: &[u8]) -> (at: Option<usize>)
        ensures
            match at {
                Some(i) => i < self.entries@.len() && pairs(self.entries@)[i as int].0 == hostname@,
                None => forall|i: int| 0 <= i < self.entries@.len() ==> (#[trigger] pairs(self.entries@)[i]).0 != hostname@,
            },
    {
        let ghost all = pairs(self.entries@);
        let mut i: usize = 0;
        while i < self.entries.len()
            invariant
                all == pairs(self.entries@),
                0 <= i <= self.entries@.len(),
                forall|m: int| 0 <= m < i ==> (#[trigger] all[m]).0 != hostname@,
            decreases self.entries@.len() - i,
        {
            assert(all[i as int].0 == self.entries@[i as int].hostname@);
            if bytes_eq(self.entries[i].hostname.as_slice(), hostname) {
                return Some(i);
            }
            i = i + 1;
        }
        None
    }

    /// The identity held for `hostname`, if there is one.
    pub fn lookup(&self, hostname: &[u8]) -> (found: Option<&ServerIdentity>)
        ensures
            found is Some == self@.contains_key(hostname@),
            found is Some ==> found.unwrap()@ == self@[hostname@],
    {
        proof {
            use_type_invariant(self);
        }
        match self.position(hostname) {
            Some(i) => {
                proof {
                    lemma_as_map_present(pairs(self.entries@), i as int);
                }
                Some(&self.entries[i].identity)
            },
            None => {
                proof {
                    lemma_as_map_absent(pairs(self.entries@), hostname@);
                }
                None
            },
        }
    }

    /// Keeps `identity` for `hostname`, in place of the one held before if there was one.
    pub fn store(&mut self, hostname: &[u8], identity: ServerIdentity)
        ensures
            final(self)@ == old(self)@.insert(hostname@, identity@),
    {
        proof {
            use_type_invariant(&*self);
        }
        let ghost before = pairs(self.entries@);
        match self.position(hostname) {
            Some(i) => {
                proof {
                    lemma_as_map_update(before, i as int, identity@);
                }
                let entry = Entry { hostname: vstd::slice::slice_to_vec(hostname), identity };
                let mut entries: Vec<Entry> = Vec::new();
                std::mem::swap(&mut entries, &mut self.entries);
                entries.set(i, entry);
                assert(pairs(entries@) =~= before.update(i as int, (hostname@, identity@)));
                self.entries = entries;
            },
            None => {
                let entry = Entry { hostname: vstd::slice::slice_to_vec(hostname), identity };
                let mut entries: Vec<Entry> = Vec::new();
                std::mem::swap(&mut entries, &mut self.entries);
                entries.push(entry);
                assert(pairs(entries@).drop_last() =~= before);
                assert(pairs(entries@).last() == (hostname@, identity@));
                assert(distinct(pairs(entries@))) by {
                    assert forall|a: int, b: int| 0 <= a < b < pairs(entries@).len() implies (
                    #[trigger] pairs(entries@)[a]).0 != (#[trigger] pairs(entries@)[b]).0 by {
                        assert(pairs(entries@)[a] == before[a]);
                        if b < before.len() {
                            assert(pairs(entries@)[b] == before[b]);
                        }
                    }
                }
                self.entries = entries;
            },
        }
    }

    /// The number of hostnames for which an identity is held.
    pub fn len(&self) -> (n: usize)
        ensures
            n == self@.dom().len(),
            self@.dom().finite(),
    {
        proof {
            use_type_invariant(self);
            lemma_as_map_len(pairs(self.entries@));
        }
        self.entries.len()
    }
}

proof fn lemma_as_map_len(pairs: Seq<(Seq<u8>, IdentityView)>)
    requires
        distinct(pairs),
    ensures
        as_map(pairs).dom().finite(),
        as_map(pairs).dom().len() == pairs.len(),
    decreases pairs.len(),
{
    if pairs.len() > 0 {
        let front = pairs.drop_last();
        assert forall|a: int, b: int| 0 <= a < b < front.len() implies (#[trigger] front[a]).0 != (
        #[trigger] front[b]).0 by {
            assert(front[a] == pairs[a] && front[b] == pairs[b]);
        }
        lemma_as_map_len(front);
        assert forall|i: int| 0 <= i < front.len() implies (#[trigger] front[i]).0 != pairs.last().0 by {
            assert(front[i] == pairs[i]);
        }
        lemma_as_map_absent(front, pairs.last().0);
    }
}

/// What issuing for `hostname` comes to, given the cache before and what the
/// authority would mint if asked: a cached identity is handed out again and
/// the authority's answer plays no part; without one, a minted identity is
/// kept and handed out, and a failure leaves the cache as it was.
pub open spec fn issue_model(
    cache: Map<Seq<u8>, IdentityView>,
    hostname: Seq<u8>,
    minted: Result<IdentityView, CertError>,
) -> (Map<Seq<u8>, IdentityView>, Result<IdentityView, CertError>) {
    if cache.contains_key(hostname) {
        (cache, Ok(cache[hostname]))
    } else {
        match minted {
            Ok(identity) => (cache.insert(hostname, identity), Ok(identity)),
            Err(e) => (cache, Err(e)),
        }
    }
}

/// Two tunnels to one host, one after the other, are given the same
/// identity: once issuing for `hostname` has succeeded, issuing for it again
/// gives that identity and leaves the cache as it is, whatever the authority
/// would mint now.
pub proof fn law_same_host_same_identity(
    cache: Map<Seq<u8>, IdentityView>,
    hostname: Seq<u8>,
    first: Result<IdentityView, CertError>,
    second: Result<IdentityView, CertError>,
)
    requires
        issue_model(cache, hostname, first).1 is Ok,
    ensures
        issue_model(issue_model(cache, hostname, first).0, hostname, second) == issue_model(
            cache,
            hostname,
            first,
        ),
{
}

/// A tunnel to another host never reuses a host's identity: issuing for
/// `hostname` changes nothing of what issuing for a different `other` gives.
/// In particular, where nothing is cached for `other`, it is given what the
/// authority mints for it.
pub proof fn law_other_host_own_identity(
    cache: Map<Seq<u8>, IdentityView>,
    hostname: Seq<u8>,
    other: Seq<u8>,
    first: Result<IdentityView, CertError>,
    second: Result<IdentityView, CertError>,
)
    requires
        other != hostname,
    ensures
        issue_model(issue_model(cache, hostname, first).0, other, second).1 == issue_model(
            cache,
            other,
            second,
        ).1,
        !cache.contains_key(other) ==> issue_model(issue_model(cache, hostname, first).0, other, second).1
            == second,
{
}

/// A failure to issue neither evicts nor poisons: the cache is as it was
/// before, for every hostname.
pub proof fn law_failure_keeps_cache(
    cache: Map<Seq<u8>, IdentityView>,
    hostname: Seq<u8>,
    minted: Result<IdentityView, CertError>,
)
    requires
        issue_model(cache, hostname, minted).1 is Err,
    ensures
        issue_model(cache, hostname, minted).0 == cache,
        minted is Err,
        !cache.contains_key(hostname),
{
}

/// Nothing is ever evicted: what was cached stays cached, unchanged.
pub proof fn law_cache_only_grows(
    cache: Map<Seq<u8>, IdentityView>,
    hostname: Seq<u8>,
    minted: Result<IdentityView, CertError>,
    held: Seq<u8>,
)
    requires
        cache.contains_key(held),
    ensures
        issue_model(cache, hostname, minted).0.contains_key(held),
        issue_model(cache, hostname, minted).0[held] == cache[held],
{
}

/// Issues server identities on demand: from the cache where the hostname was
/// seen before, from the authority where it was not.
pub struct CertificateIssuer<CA: CertificateAuthority> {
    authority: CA,
    cache: CertificateCache,
}

impl<CA: CertificateAuthority> CertificateIssuer<CA> {
    /// The identities issued so far, by hostname.
    pub closed spec fn cache(&self) -> Map<Seq<u8>, IdentityView> {
        self.cache@
    }

    /// An issuer that has issued nothing yet.
    pub fn new(authority: CA) -> (issuer: Self)
        ensures
            issuer.cache() == Map::<Seq<u8>, IdentityView>::empty(),
    {
        CertificateIssuer { authority, cache: CertificateCache::new() }
    }

    /// The identity that was issued for `hostname` before, if one was.
    pub fn cached(&self, hostname: &[u8]) -> (found: Option<ServerIdentity>)
        ensures
            found is Some == self.cache().contains_key(hostname@),
            found is Some ==> found.unwrap()@ == self.cache()[hostname@],
    {
        match self.cache.lookup(hostname) {
            Some(identity) => Some(identity.duplicate()),
            None => None,
        }
    }

    /// Takes what the authority minted for `hostname`. Where an identity was
    /// cached in the meantime, that one is handed out and the minted one is
    /// dropped; else a minted identity is kept and handed out, and a failure
    /// is handed on.
    pub fn settle(&mut self, hostname: &[u8], minted: Result<ServerIdentity, CertError>) -> (issued: Result<
        ServerIdentity,
        CertError,
    >)
        ensures
            (final(self).cache(), outcome_view(issued)) == issue_model(
                old(self).cache(),
                hostname@,
                outcome_view(minted),
            ),
    {
        match self.cached(hostname) {
            Some(identity) => Ok(identity),
            None => match minted {
                Ok(identity) => {
                    let copy = identity.duplicate();
                    self.cache.store(hostname, identity);
                    Ok(copy)
                },
                Err(e) => Err(e),
            },
        }
    }

    /// Issues an identity for `hostname`: the cached one where there is one,
    /// else what the authority mints, which is kept for the next time.
    ///
    /// A cached hostname always succeeds, with the cached identity, and the
    /// authority is not asked. Otherwise the result is what [`issue_model`]
    /// makes of the authority's answer, whatever that answer is.
    pub fn issue(&mut self, hostname: &[u8]) -> (issued: Result<ServerIdentity, CertError>)
        ensures
            old(self).cache().contains_key(hostname@) ==> issued is Ok && issued.unwrap()@ == old(
                self,
            ).cache()[hostname@] && final(self).cache() == old(self).cache(),
            exists|minted: Result<IdentityView, CertError>| #[trigger]
                issue_model(old(self).cache(), hostname@, minted) == (
                    final(self).cache(),
                    outcome_view(issued),
                ),
    {
        match self.cached(hostname) {
            Some(identity) => {
                let issued: Result<ServerIdentity, CertError> = Ok(identity);
                assert(issue_model(old(self).cache(), hostname@, Err(CertError::Signing)) == (
                    self.cache(),
                    outcome_view(issued),
                ));
                issued
            },
            None => {
                let minted = self.authority.issue(hostname);
                let ghost answer = outcome_view(minted);
                let issued = self.settle(hostname, minted);
                assert(issue_model(old(self).cache(), hostname@, answer) == (
                    self.cache(),
                    outcome_view(issued),
                ));
                issued
            },
        }
    }

    /// The number of hostnames for which an identity was issued.
    pub fn issued_count(&self) -> (n: usize)
        ensures
            n == self.cache().dom().len(),
    {
        self.cache.len()
    }
}

} // verus!
