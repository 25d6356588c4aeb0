//! The target of a `CONNECT` request: `host:port`.
//!
//! The port is what follows the last colon: one to five decimal digits that
//! spell a number up to 65535. The host is what stands before that colon:
//! a name made of letters, digits, `-`, `.` and `_`, or an address literal
//! made of hexadecimal digits, `:` and `.` between `[` and `]`.

use vstd::prelude::*;

verus! {

/// The byte `:`.
pub const COLON: u8 = 0x3a;

/// The host and the port that a tunnel leads to.
#[derive(Clone, Debug, PartialEq, Eq)]
pub struct TunnelTarget {
    pub host: Vec<u8>,
    pub port: u16,
}

/// What a tunnel target holds.
pub struct TargetView {
    pub host: Seq<u8>,
    pub port: u16,
}

impl View for TunnelTarget {
    type V = TargetView;

    open spec fn view(&self) -> TargetView {
        TargetView { host: self.host@, port: self.port }
    }
}

/// Why a byte string is no tunnel target.
#[derive(Clone, Copy, Debug, PartialEq, Eq, Structural)]
pub enum TargetError {
    /// It holds no colon.
    MissingPort,
    /// Nothing stands before the last colon.
    EmptyHost,
    /// What stands before the last colon is neither a name nor an address literal.
    InvalidHost,
    /// What follows the last colon is not a port number.
    InvalidPort,
}

/// Whether `b` is a decimal digit.
pub open spec fn is_digit(b: u8) -> bool {
    0x30 <= b <= 0x39
}

/// Whether `b` is an ASCII letter.
pub open spec fn is_letter(b: u8) -> bool {
    0x41 <= b <= 0x5a || 0x61 <= b <= 0x7a
}

/// Whether `b` may stand in a host name: a letter, a digit, `-`, `.` or `_`.
pub open spec fn is_name_byte(b: u8) -> bool {
    is_letter(b) || is_digit(b) || b == 0x2d || b == 0x2e || b == 0x5f
}

/// Whether `b` may stand inside an address literal: a hexadecimal digit, `:` or `.`.
pub open spec fn is_literal_byte(b: u8) -> bool {
    is_digit(b) || 0x41 <= b <= 0x46 || 0x61 <= b <= 0x66 || b == COLON || b == 0x2e
}

/// Whether `host` is a name: not empty, name bytes only.
pub open spec fn is_name(host: Seq<u8>) -> bool {
    &&& host.len() > 0
    &&& forall|k: int| 0 <= k < host.len() ==> is_name_byte(#[trigger] host[k])
}

/// Whether `host` is an address literal: `[`, at least one literal byte, `]`.
pub open spec fn is_literal(host: Seq<u8>) -> bool {
    &&& host.len() > 2
    &&& host[0] == 0x5b
    &&& host[host.len() - 1] == 0x5d
    &&& forall|k: int| 1 <= k < host.len() - 1 ==> is_literal_byte(#[trigger] host[k])
}

/// Whether `host` is a name or an address literal.
pub open spec fn is_host(host: Seq<u8>) -> bool {
    is_name(host) || is_literal(host)
}

/// The number that a string of decimal digits spells.
pub open spec fn decimal(digits: Seq<u8>) -> nat
    decreases digits.len(),
{
    if digits.len() == 0 {
        0
    } else {
        decimal(digits.drop_last()) * 10 + (digits.last() - 0x30) as nat
    }
}

/// Whether `port` is a port number: one to five digits that spell at most 65535.
pub open spec fn is_port(port: Seq<u8>) -> bool {
    &&& 1 <= port.len() <= 5
    &&& forall|k: int| 0 <= k < port.len() ==> is_digit(#[trigger] port[k])
    &&& decimal(port) <= 65535
}

/// Whether the last colon of `target` stands at `c`.
pub open spec fn is_last_colon(target: Seq<u8>, c: int) -> bool {
    &&& 0 <= c < target.len()
    &&& target[c] == COLON
    &&& forall|k: int| c < k < target.len() ==> #[trigger] target[k] != COLON
}

/// Whether `target` holds a colon.
pub open spec fn has_colon(target: Seq<u8>) -> bool {
    exists|c: int| is_last_colon(target, c)
}

/// Where the last colon of `target` stands.
pub open spec fn last_colon(target: Seq<u8>) -> int {
    choose|c: int| is_last_colon(target, c)
}

/// What `target` says: the host and the port, or why it is malformed.
pub open spec fn parse_target(target: Seq<u8>) -> Result<TargetView, TargetError> {
    if !has_colon(target) {
        Err(TargetError::MissingPort)
    } else {
        let host = target.take(last_colon(target));
        let port = target.skip(last_colon(target) + 1);
        if host.len() == 0 {
            Err(TargetError::EmptyHost)
        } else if !is_host(host) {
            Err(TargetError::InvalidHost)
        } else if !is_port(port) {
            Err(TargetError::InvalidPort)
        } else {
            Ok(TargetView { host, port: decimal(port) as u16 })
        }
    }
}

/// What a parsed target holds, where there is one.
pub open spec fn parsed_view(r: Result<TunnelTarget, TargetError>) -> Result<TargetView, TargetError> {
    match r {
        Ok(target) => Ok(target@),
        Err(e) => Err(e),
    }
}

fn digit(b: u8) -> (r: bool)
    ensures
        r == is_digit(b),
{
    0x30 <= b && b <= 0x39
}

fn name_byte(b: u8) -> (r: bool)
    ensures
        r == is_name_byte(b),
{
    (0x41 <= b && b <= 0x5a) || (0x61 <= b && b <= 0x7a) || digit(b) || b == 0x2d || b == 0x2e
        || b == 0x5f
}

fn literal_byte(b: u8) -> (r: bool)
    ensures
        r == is_literal_byte(b),
{
    digit(b) || (0x41 <= b && b <= 0x46) || (0x61 <= b && b <= 0x66) || b == COLON || b == 0x2e
}

/// Whether `target[..end]` is a name or an address literal.
fn check_host(target: &[u8], end: usize) -> (r: bool)
    requires
        0 < end <= target@.len(),
    ensures
        r == is_host(target@.take(end as int)),
{
    let ghost host = target@.take(end as int);
    let bracketed: bool = end > 2 && target[0] == 0x5b && target[end - 1] == 0x5d;
    let mut all_name: bool = true;
    let mut all_literal: bool = true;
    let mut k: usize = 0;
    while k < end
        invariant
            0 < end <= target@.len(),
            host == target@.take(end as int),
            0 <= k <= end,
            all_name == (forall|m: int| 0 <= m < k ==> is_name_byte(#[trigger] host[m])),
            all_literal == (forall|m: int| 1 <= m < k && m < end - 1 ==> is_literal_byte(#[trigger] host[m])),
        decreases end - k,
    {
        let b: u8 = target[k];
        assert(host[k as int] == b);
        if !name_byte(b) {
            all_name = false;
        }
        if 1 <= k && k < end - 1 && !literal_byte(b) {
            all_literal = false;
        }
        k = k + 1;
    }
    all_name || (bracketed && all_literal)
}

/// The number that `target[start..]` spells, if that is a port number.
fn read_port(target: &[u8], start: usize) -> (r: Option<u16>)
    requires
        start <= target@.len(),
    ensures
        r is Some == is_port(target@.skip(start as int)),
        r is Some ==> r.unwrap() == decimal(target@.skip(start as int)),
{
    let n: usize = target.len();
    let ghost port = target@.skip(start as int);
    if n - start < 1 || n - start > 5 {
        return None;
    }
    let mut value: u32 = 0;
    let mut k: usize = start;
    while k < n
        invariant
            n == target@.len(),
            start <= k <= n,
            n - start <= 5,
            port == target@.skip(start as int),
            forall|m: int| 0 <= m < k - start ==> is_digit(#[trigger] port[m]),
            value == decimal(port.take(k - start)),
            value < pow10((k - start) as nat),
        decreases n - k,
    {
        let b: u8 = target[k];
        assert(port[k - start] == b);
        if !digit(b) {
            return None;
        }
        assert(port.take(k - start + 1).drop_last() =~= port.take(k - start));
        assert(port.take(k - start + 1).last() == b);
        assert(pow10((k - start + 1) as nat) == pow10((k - start) as nat) * 10);
        assert(pow10((k - start) as nat) <= 10000) by {
            lemma_pow10_small((k - start) as nat);
        }
        value = value * 10 + (b - 0x30) as u32;
        k = k + 1;
    }
    assert(port.take(n - start) =~= port);
    if value > 65535 {
        None
    } else {
        Some(value as u16)
    }
}

/// Ten to the power `n`.
pub open spec fn pow10(n: nat) -> nat
    decreases n,
{
    if n == 0 {
        1
    } else {
        pow10((n - 1) as nat) * 10
    }
}

proof fn lemma_pow10_small(n: nat)
    requires
        n <= 4,
    ensures
        pow10(n) <= 10000,
{
    reveal_with_fuel(pow10, 6);
}

impl TunnelTarget {
    /// A second target that holds the same host and port.
    pub fn duplicate(&self) -> (copy: TunnelTarget)
        ensures
            copy@ == self@,
    {
        TunnelTarget { host: vstd::slice::slice_to_vec(self.host.as_slice()), port: self.port }
    }

    /// Reads a tunnel target: the host and the port, or why `target` is malformed.
    pub fn parse(target: &[u8]) -> (r: Result<TunnelTarget, TargetError>)
        ensures
            parsed_view(r) == parse_target(target@),
    {
        let n: usize = target.len();
        let mut c: usize = n;
        while c > 0 && target[c - 1] != COLON
            invariant
                n == target@.len(),
                0 <= c <= n,
                forall|k: int| c <= k < n ==> #[trigger] target@[k] != COLON,
            decreases c,
        {
            c = c - 1;
        }
        if c == 0 {
            assert(!has_colon(target@)) by {
                if has_colon(target@) {
                    let w = last_colon(target@);
                    assert(target@[w] == COLON);
                }
            }
            return Err(TargetError::MissingPort);
        }
        let colon: usize = c - 1;
        assert(is_last_colon(target@, colon as int));
        assert(last_colon(target@) == colon) by {
            let w = last_colon(target@);
            if w < colon {
                assert(target@[colon as int] != COLON);
            }
            if w > colon {
                assert(target@[w] != COLON);
            }
        }
        if colon == 0 {
            return Err(TargetError::EmptyHost);
        }
        if !check_host(target, colon) {
            return Err(TargetError::InvalidHost);
        }
        match read_port(target, colon + 1) {
            None => Err(TargetError::InvalidPort),
            Some(port) => {
                let host = vstd::slice::slice_to_vec(vstd::slice::slice_subrange(target, 0, colon));
                assert(host@ =~= target@.take(colon as int));
                Ok(TunnelTarget { host, port })
            },
        }
    }
}

} // verus!
