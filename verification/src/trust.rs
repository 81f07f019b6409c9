//! How the client decides whether to trust the forwarding unit.
//!
//! Without a pinned certificate the server must present a chain to one of
//! the public root authorities. With one, the server's own certificate must
//! be the pinned one, byte for byte; its signatures are still verified.

use vstd::prelude::*;

verus! {

/// The protocol identifier offered in the handshake: `vox-media/1`.
pub open spec fn alpn() -> Seq<u8> {
    seq![
        0x76u8, 0x6Fu8, 0x78u8, 0x2Du8, 0x6Du8, 0x65u8, 0x64u8, 0x69u8, 0x61u8, 0x2Fu8, 0x31u8,
    ]
}

/// The protocol identifier offered in the handshake.
pub fn alpn_protocol() -> (id: Vec<u8>)
    ensures
        id@ == alpn(),
{
    let mut id: Vec<u8> = Vec::new();
    id.push(0x76);
    id.push(0x6F);
    id.push(0x78);
    id.push(0x2D);
    id.push(0x6D);
    id.push(0x65);
    id.push(0x64);
    id.push(0x69);
    id.push(0x61);
    id.push(0x2F);
    id.push(0x31);
    assert(id@ =~= alpn());
    id
}

/// Whom the client trusts.
#[derive(Debug, Clone, PartialEq, Eq)]
pub enum TrustMode {
    /// Servers with a chain to a public root authority.
    PublicRoots,
    /// The server with exactly this certificate, in DER.
    Pinned(Vec<u8>),
}

/// The trust mode for a connection: pinned where a certificate is given.
pub fn trust_mode(cert_der: Option<Vec<u8>>) -> (mode: TrustMode)
    ensures
        mode == (match cert_der {
            Some(der) => TrustMode::Pinned(der),
            None => TrustMode::PublicRoots,
        }),
{
    match cert_der {
        Some(der) => TrustMode::Pinned(der),
        None => TrustMode::PublicRoots,
    }
}

/// Whether the certificate that the server presented is the pinned one:
/// the same bytes, in the same number.
pub fn pinned_certificate_matches(presented: &[u8], pinned: &[u8]) -> (same: bool)
    ensures
        same == (presented@ == pinned@),
{
    if presented.len() != pinned.len() {
        return false;
    }
    let mut i: usize = 0;
    while i < presented.len()
        invariant
            i <= presented@.len(),
            presented@.len() == pinned@.len(),
            forall|j: int| 0 <= j < i ==> presented@[j] == pinned@[j],
        decreases presented@.len() - i,
    {
        if presented[i] != pinned[i] {
            return false;
        }
        i += 1;
    }
    assert(presented@ =~= pinned@);
    true
}

} // verus!
