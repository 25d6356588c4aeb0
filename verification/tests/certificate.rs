use hudsucker::certificate::{
    CertError, CertificateAuthority, CertificateCache, CertificateIssuer, ServerIdentity,
};
use std::cell::Cell;

/// Mints an identity that names the host and the number of the minting, and
/// rejects hostnames that hold a blank.
struct CountingAuthority {
    minted: Cell<u32>,
    fail_signing: bool,
}

impl CountingAuthority {
    fn new() -> Self {
        CountingAuthority { minted: Cell::new(0), fail_signing: false }
    }
}

impl CertificateAuthority for CountingAuthority {
    fn issue(&self, hostname: &[u8]) -> Result<ServerIdentity, CertError> {
        if hostname.contains(&b' ') {
            return Err(CertError::InvalidHostname);
        }
        if self.fail_signing {
            return Err(CertError::Signing);
        }
        let n = self.minted.get() + 1;
        self.minted.set(n);
        let mut leaf = b"CN=".to_vec();
        leaf.extend_from_slice(hostname);
        Ok(ServerIdentity {
            private_key: format!("key-{}", n).into_bytes(),
            certificate_chain: vec![leaf, b"CN=root".to_vec()],
        })
    }
}

fn identity(key: &[u8], leaf: &[u8]) -> ServerIdentity {
    ServerIdentity { private_key: key.to_vec(), certificate_chain: vec![leaf.to_vec()] }
}

#[test]
fn duplicate_identity_is_equal() {
    let id = ServerIdentity {
        private_key: b"k".to_vec(),
        certificate_chain: vec![b"leaf".to_vec(), Vec::new(), b"root".to_vec()],
    };
    assert_eq!(id.duplicate(), id);
    let bare = ServerIdentity { private_key: Vec::new(), certificate_chain: Vec::new() };
    assert_eq!(bare.duplicate(), bare);
}

#[test]
fn empty_cache_holds_nothing() {
    let cache = CertificateCache::new();
    assert_eq!(cache.len(), 0);
    assert_eq!(cache.lookup(b"example.com"), None);
    assert_eq!(cache.lookup(b""), None);
}

#[test]
fn stored_identity_is_found_under_its_hostname_only() {
    let mut cache = CertificateCache::new();
    cache.store(b"example.com", identity(b"k1", b"CN=example.com"));
    cache.store(b"example.org", identity(b"k2", b"CN=example.org"));
    assert_eq!(cache.len(), 2);
    assert_eq!(cache.lookup(b"example.com"), Some(&identity(b"k1", b"CN=example.com")));
    assert_eq!(cache.lookup(b"example.org"), Some(&identity(b"k2", b"CN=example.org")));
    assert_eq!(cache.lookup(b"example.net"), None);
    // hostnames are compared byte for byte
    assert_eq!(cache.lookup(b"Example.com"), None);
    assert_eq!(cache.lookup(b"example.co"), None);
}

#[test]
fn storing_again_replaces() {
    let mut cache = CertificateCache::new();
    cache.store(b"a", identity(b"k1", b"one"));
    cache.store(b"b", identity(b"k2", b"two"));
    cache.store(b"a", identity(b"k3", b"three"));
    assert_eq!(cache.len(), 2);
    assert_eq!(cache.lookup(b"a"), Some(&identity(b"k3", b"three")));
    assert_eq!(cache.lookup(b"b"), Some(&identity(b"k2", b"two")));
}

#[test]
fn second_issue_for_a_host_reuses_the_first() {
    let mut issuer = CertificateIssuer::new(CountingAuthority::new());
    let first = issuer.issue(b"example.com").unwrap();
    let second = issuer.issue(b"example.com").unwrap();
    assert_eq!(first, second);
    assert_eq!(first.certificate_chain[0], b"CN=example.com".to_vec());
    assert_eq!(first.private_key, b"key-1".to_vec());
    assert_eq!(issuer.issued_count(), 1);
    assert_eq!(issuer.cached(b"example.com"), Some(first));
}

#[test]
fn another_host_gets_its_own_identity() {
    let mut issuer = CertificateIssuer::new(CountingAuthority::new());
    let h = issuer.issue(b"example.com").unwrap();
    let h2 = issuer.issue(b"example.org").unwrap();
    assert_ne!(h, h2);
    assert_eq!(h2.certificate_chain[0], b"CN=example.org".to_vec());
    assert_eq!(h2.private_key, b"key-2".to_vec());
    assert_eq!(issuer.issued_count(), 2);
    // and the first host still gets what it got
    assert_eq!(issuer.issue(b"example.com").unwrap(), h);
}

#[test]
fn rejected_hostname_fails_and_leaves_the_cache() {
    let mut issuer = CertificateIssuer::new(CountingAuthority::new());
    let kept = issuer.issue(b"example.com").unwrap();
    assert_eq!(issuer.issue(b"bad host"), Err(CertError::InvalidHostname));
    assert_eq!(issuer.issued_count(), 1);
    assert_eq!(issuer.cached(b"bad host"), None);
    assert_eq!(issuer.cached(b"example.com"), Some(kept));
}

#[test]
fn signing_failure_fails_only_what_is_not_cached() {
    let mut issuer = CertificateIssuer::new(CountingAuthority::new());
    let kept = issuer.settle(b"example.com", Ok(identity(b"k", b"CN=example.com"))).unwrap();
    let mut failing = CertificateIssuer::new(CountingAuthority { minted: Cell::new(0), fail_signing: true });
    assert_eq!(failing.issue(b"example.com"), Err(CertError::Signing));
    assert_eq!(failing.issued_count(), 0);
    failing.settle(b"example.com", Ok(kept.duplicate())).unwrap();
    // cached: the authority is not asked, so its failure does not show
    assert_eq!(failing.issue(b"example.com"), Ok(kept));
    assert_eq!(failing.issue(b"example.org"), Err(CertError::Signing));
}

#[test]
fn settle_keeps_what_was_cached_first() {
    let mut issuer = CertificateIssuer::new(CountingAuthority::new());
    let first = issuer.settle(b"h", Ok(identity(b"k1", b"one"))).unwrap();
    assert_eq!(first, identity(b"k1", b"one"));
    // a second minting for the same host, finished later, is dropped
    let second = issuer.settle(b"h", Ok(identity(b"k2", b"two"))).unwrap();
    assert_eq!(second, identity(b"k1", b"one"));
    assert_eq!(issuer.settle(b"h", Err(CertError::Signing)), Ok(identity(b"k1", b"one")));
    assert_eq!(issuer.settle(b"g", Err(CertError::Signing)), Err(CertError::Signing));
    assert_eq!(issuer.issued_count(), 1);
}
