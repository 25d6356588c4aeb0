use hudsucker::target::{TargetError, TunnelTarget};

fn target(host: &[u8], port: u16) -> TunnelTarget {
    TunnelTarget { host: host.to_vec(), port }
}

#[test]
fn parses_host_and_port() {
    assert_eq!(TunnelTarget::parse(b"example.com:443"), Ok(target(b"example.com", 443)));
    assert_eq!(TunnelTarget::parse(b"a:1"), Ok(target(b"a", 1)));
    assert_eq!(TunnelTarget::parse(b"10.0.0.1:8080"), Ok(target(b"10.0.0.1", 8080)));
    assert_eq!(TunnelTarget::parse(b"my_host-1.Example.ORG:80"), Ok(target(b"my_host-1.Example.ORG", 80)));
}

#[test]
fn port_bounds() {
    assert_eq!(TunnelTarget::parse(b"h:0"), Ok(target(b"h", 0)));
    assert_eq!(TunnelTarget::parse(b"h:65535"), Ok(target(b"h", 65535)));
    assert_eq!(TunnelTarget::parse(b"h:65536"), Err(TargetError::InvalidPort));
    assert_eq!(TunnelTarget::parse(b"h:99999"), Err(TargetError::InvalidPort));
    assert_eq!(TunnelTarget::parse(b"h:00080"), Ok(target(b"h", 80)));
    assert_eq!(TunnelTarget::parse(b"h:000080"), Err(TargetError::InvalidPort));
    assert_eq!(TunnelTarget::parse(b"h:"), Err(TargetError::InvalidPort));
    assert_eq!(TunnelTarget::parse(b"h:44x"), Err(TargetError::InvalidPort));
    assert_eq!(TunnelTarget::parse(b"h:-1"), Err(TargetError::InvalidPort));
    assert_eq!(TunnelTarget::parse(b"h: 80"), Err(TargetError::InvalidPort));
}

#[test]
fn address_literals() {
    assert_eq!(TunnelTarget::parse(b"[::1]:443"), Ok(target(b"[::1]", 443)));
    assert_eq!(
        TunnelTarget::parse(b"[2001:db8::ff00:42:8329]:8443"),
        Ok(target(b"[2001:db8::ff00:42:8329]", 8443))
    );
    assert_eq!(TunnelTarget::parse(b"[::ffff:10.0.0.1]:1"), Ok(target(b"[::ffff:10.0.0.1]", 1)));
    assert_eq!(TunnelTarget::parse(b"[]:443"), Err(TargetError::InvalidHost));
    assert_eq!(TunnelTarget::parse(b"[::g]:443"), Err(TargetError::InvalidHost));
    assert_eq!(TunnelTarget::parse(b"[::1:443"), Err(TargetError::InvalidHost));
    // without a port the last colon is one of the literal's own
    assert_eq!(TunnelTarget::parse(b"[::1]"), Err(TargetError::InvalidHost));
}

#[test]
fn missing_port() {
    assert_eq!(TunnelTarget::parse(b""), Err(TargetError::MissingPort));
    assert_eq!(TunnelTarget::parse(b"example.com"), Err(TargetError::MissingPort));
    assert_eq!(TunnelTarget::parse(b"443"), Err(TargetError::MissingPort));
}

#[test]
fn empty_host() {
    assert_eq!(TunnelTarget::parse(b":443"), Err(TargetError::EmptyHost));
    assert_eq!(TunnelTarget::parse(b":"), Err(TargetError::EmptyHost));
}

#[test]
fn invalid_host() {
    assert_eq!(TunnelTarget::parse(b"exa mple.com:443"), Err(TargetError::InvalidHost));
    assert_eq!(TunnelTarget::parse(b"http://example.com:443"), Err(TargetError::InvalidHost));
    assert_eq!(TunnelTarget::parse(b"user@example.com:443"), Err(TargetError::InvalidHost));
    assert_eq!(TunnelTarget::parse(b"a:b:443"), Err(TargetError::InvalidHost));
    assert_eq!(TunnelTarget::parse(b"example.com/:443"), Err(TargetError::InvalidHost));
    // the host is judged before the port
    assert_eq!(TunnelTarget::parse(b"a b:x"), Err(TargetError::InvalidHost));
}

#[test]
fn duplicate_target_is_equal() {
    let t = target(b"example.com", 443);
    assert_eq!(t.duplicate(), t);
}
