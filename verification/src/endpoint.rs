//! The address of the forwarding unit, as the host gives it.
//!
//! An optional `quic://` in front is dropped. What is left is either a
//! socket address literal, which the caller recognises, or a host name and
//! a port, split at the last `:`. The port is a decimal number that fits 16
//! bits; a `+` may stand in front of it.

use vstd::prelude::*;
use vstd::slice::slice_subrange;
use vstd::slice::slice_to_vec;

verus! {

/// Length of the scheme marker.
pub const SCHEME_LEN: usize = 7;

/// The scheme marker: `quic://`.
pub open spec fn scheme() -> Seq<u8> {
    seq![0x71u8, 0x75u8, 0x69u8, 0x63u8, 0x3Au8, 0x2Fu8, 0x2Fu8]
}

/// The text starts with the scheme marker.
pub open spec fn has_scheme(url: Seq<u8>) -> bool {
    url.len() >= SCHEME_LEN && url.subrange(0, SCHEME_LEN as int) == scheme()
}

/// The address part of a URL: the URL without the scheme marker, if it has
/// one.
pub open spec fn address_of(url: Seq<u8>) -> Seq<u8> {
    if has_scheme(url) {
        url.subrange(SCHEME_LEN as int, url.len() as int)
    } else {
        url
    }
}

/// The place of the last `:` in a text, if it has one.
pub open spec fn last_colon(text: Seq<u8>) -> Option<int>
    decreases text.len(),
{
    if text.len() == 0 {
        None
    } else if text.last() == 0x3A {
        Some(text.len() - 1)
    } else {
        last_colon(text.drop_last())
    }
}

/// All bytes are decimal digits.
pub open spec fn all_digits(text: Seq<u8>) -> bool {
    forall|i: int| 0 <= i < text.len() ==> 0x30 <= #[trigger] text[i] <= 0x39
}

/// The number that decimal digits stand for.
pub open spec fn digits_value(text: Seq<u8>) -> nat
    decreases text.len(),
{
    if text.len() == 0 {
        0
    } else {
        (digits_value(text.drop_last()) * 10 + (text.last() - 0x30)) as nat
    }
}

/// The digits of a port text: the text without a `+` in front.
pub open spec fn port_digits(text: Seq<u8>) -> Seq<u8> {
    if text.len() > 0 && text[0] == 0x2B {
        text.drop_first()
    } else {
        text
    }
}

/// The port that a text stands for, if it stands for one.
pub open spec fn port_of(text: Seq<u8>) -> Option<u16> {
    let digits = port_digits(text);
    if digits.len() > 0 && all_digits(digits) && digits_value(digits) <= u16::MAX {
        Some(digits_value(digits) as u16)
    } else {
        None
    }
}

/// Why an address was refused.
#[derive(Debug, Clone, Copy, PartialEq, Eq, Structural)]
pub enum EndpointError {
    /// The address has no `:`.
    MissingPort,
    /// What follows the last `:` is not a port number.
    InvalidPort,
}

impl EndpointError {
    /// What the host is told.
    pub open spec fn text(self) -> Seq<char> {
        match self {
            EndpointError::MissingPort => "missing port in URL"@,
            EndpointError::InvalidPort => "invalid port in URL"@,
        }
    }

    /// What the host is told.
    pub fn message(&self) -> (text: String)
        ensures
            text@ == self.text(),
    {
        match self {
            EndpointError::MissingPort => "missing port in URL".to_owned(),
            EndpointError::InvalidPort => "invalid port in URL".to_owned(),
        }
    }
}

/// A host name and a port.
#[derive(Debug, Clone, PartialEq, Eq)]
pub struct HostPort {
    pub host: Vec<u8>,
    pub port: u16,
}

/// The host and port of a URL.
pub open spec fn host_port_of(url: Seq<u8>) -> Result<(Seq<u8>, u16), EndpointError> {
    let address = address_of(url);
    match last_colon(address) {
        None => Err(EndpointError::MissingPort),
        Some(i) => match port_of(address.subrange(i + 1, address.len() as int)) {
            None => Err(EndpointError::InvalidPort),
            Some(port) => Ok((address.subrange(0, i), port)),
        },
    }
}

/// Drop the scheme marker, if there is one.
pub fn strip_scheme(url: &[u8]) -> (address: &[u8])
    ensures
        address@ == address_of(url@),
{
    if url.len() < SCHEME_LEN {
        return url;
    }
    let marked = url[0] == 0x71 && url[1] == 0x75 && url[2] == 0x69 && url[3] == 0x63 && url[4]
        == 0x3A && url[5] == 0x2F && url[6] == 0x2F;
    proof {
        let head = url@.subrange(0, SCHEME_LEN as int);
        if marked {
            assert(head =~= scheme());
        } else {
            assert(head[0] == url@[0] && head[1] == url@[1] && head[2] == url@[2] && head[3]
                == url@[3] && head[4] == url@[4] && head[5] == url@[5] && head[6] == url@[6]);
        }
    }
    if marked {
        slice_subrange(url, SCHEME_LEN, url.len())
    } else {
        url
    }
}

proof fn lemma_last_colon_from(text: Seq<u8>, n: int)
    requires
        0 <= n <= text.len(),
        forall|i: int| n <= i < text.len() ==> text[i] != 0x3A,
    ensures
        last_colon(text) == last_colon(text.subrange(0, n)),
    decreases text.len() - n,
{
    if n < text.len() {
        lemma_last_colon_from(text.drop_last(), n);
        assert(text.drop_last().subrange(0, n) =~= text.subrange(0, n));
    } else {
        assert(text.subrange(0, n) =~= text);
    }
}

/// Read a port number.
pub fn parse_port(text: &[u8]) -> (port: Option<u16>)
    ensures
        port == port_of(text@),
{
    let n: usize = text.len();
    let start: usize = if n > 0 && text[0] == 0x2B {
        1
    } else {
        0
    };
    let ghost digits = port_digits(text@);
    assert(digits =~= text@.subrange(start as int, n as int));
    if start == n {
        return None;
    }
    let mut value: u32 = 0;
    let mut i: usize = start;
    assert(digits.subrange(0, 0) =~= Seq::<u8>::empty());
    while i < n
        invariant
            start <= i <= n,
            n == text@.len(),
            start < n,
            digits == port_digits(text@),
            digits == text@.subrange(start as int, n as int),
            all_digits(digits.subrange(0, i - start)),
            value == digits_value(digits.subrange(0, i - start)),
            value <= u16::MAX,
        decreases n - i,
    {
        let b: u8 = text[i];
        let ghost shorter = digits.subrange(0, i - start);
        let ghost longer = digits.subrange(0, i - start + 1);
        proof {
            assert(longer.drop_last() =~= shorter);
            assert(longer.last() == b);
        }
        if b < 0x30 || b > 0x39 {
            proof {
                assert(digits[i - start] == b);
                assert(!all_digits(digits));
            }
            return None;
        }
        let next: u32 = value * 10 + (b - 0x30) as u32;
        proof {
            assert(all_digits(longer)) by {
                assert forall|j: int| 0 <= j < longer.len() implies 0x30 <= #[trigger] longer[j]
                    <= 0x39 by {
                    if j < shorter.len() {
                        assert(shorter[j] == longer[j]);
                    }
                }
            }
        }
        assert(digits_value(longer) == next);
        if next > 0xFFFF {
            proof {
                lemma_value_at_least(digits, i - start + 1);
            }
            return None;
        }
        value = next;
        i += 1;
    }
    assert(digits.subrange(0, n - start) =~= digits);
    Some(value as u16)
}

/// The value of all digits is no less than the value of the first `n`.
proof fn lemma_value_at_least(digits: Seq<u8>, n: int)
    requires
        0 <= n <= digits.len(),
    ensures
        all_digits(digits) ==> digits_value(digits.subrange(0, n)) <= digits_value(digits),
    decreases digits.len() - n,
{
    if all_digits(digits) {
        if n < digits.len() {
            lemma_value_at_least(digits, n + 1);
            let longer = digits.subrange(0, n + 1);
            assert(longer.drop_last() =~= digits.subrange(0, n));
            assert(longer.last() == digits[n]);
        } else {
            assert(digits.subrange(0, n) =~= digits);
        }
    }
}

/// Split an address at its last `:` into host name and port.
pub fn split_host_port(address: &[u8]) -> (r: Result<HostPort, EndpointError>)
    ensures
        match r {
            Ok(hp) => last_colon(address@) matches Some(i) && hp.host@ == address@.subrange(0, i)
                && port_of(address@.subrange(i + 1, address@.len() as int)) == Some(hp.port),
            Err(EndpointError::MissingPort) => last_colon(address@).is_none(),
            Err(EndpointError::InvalidPort) => last_colon(address@) matches Some(i) && port_of(
                address@.subrange(i + 1, address@.len() as int),
            ).is_none(),
        },
{
    let n: usize = address.len();
    let mut i: usize = n;
    while i > 0
        invariant
            i <= n,
            n == address@.len(),
            forall|j: int| i <= j < n ==> address@[j] != 0x3A,
        decreases i,
    {
        i -= 1;
        if address[i] == 0x3A {
            proof {
                lemma_last_colon_from(address@, i + 1);
                assert(address@.subrange(0, i + 1).last() == 0x3A);
            }
            return match parse_port(slice_subrange(address, i + 1, n)) {
                Some(port) => Ok(HostPort { host: slice_to_vec(slice_subrange(address, 0, i)), port }),
                None => Err(EndpointError::InvalidPort),
            };
        }
    }
    proof {
        lemma_last_colon_from(address@, 0);
        assert(address@.subrange(0, 0) =~= Seq::<u8>::empty());
    }
    Err(EndpointError::MissingPort)
}

/// The host name and port of a URL that is no socket address literal.
pub fn parse_endpoint(url: &[u8]) -> (r: Result<HostPort, EndpointError>)
    ensures
        match r {
            Ok(hp) => host_port_of(url@) == Ok::<(Seq<u8>, u16), EndpointError>(
                (hp.host@, hp.port),
            ),
            Err(e) => host_port_of(url@) == Err::<(Seq<u8>, u16), EndpointError>(e),
        },
{
    split_host_port(strip_scheme(url))
}

} // verus!
