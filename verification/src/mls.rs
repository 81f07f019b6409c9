//! The rules of the group-messaging engine that do not need the MLS
//! library: how an identity is labelled and stored, when an operation is
//! allowed, how a member is found, and what a processed message is called.

use crate::text::decimal_digits;
use crate::text::push_decimal_digits;
use vstd::prelude::*;

verus! {

/// Why the engine refuses an operation.
#[derive(Debug, Clone, Copy, PartialEq, Eq, Structural)]
pub enum MlsError {
    /// An identity exists; a second cannot be generated.
    IdentityAlreadyInitialized,
    /// The operation needs an identity and none exists.
    IdentityNotInitialized,
    /// The user id does not fit the store's signed 64-bit column.
    UserIdTooLarge,
    /// No member of the group has the identity.
    MemberNotFound,
    /// The message is a handshake message, not an application message.
    NotApplicationMessage,
    /// The message in the envelope is no Welcome.
    NotAWelcome,
    /// The restored backup holds no identity.
    BackupWithoutIdentity,
}

impl MlsError {
    /// What the host is told.
    pub fn message(&self) -> (text: String)
        ensures
            text@ == (match self {
                MlsError::IdentityAlreadyInitialized =>
                    "Identity already initialized — cannot re-initialize without reset"@,
                MlsError::IdentityNotInitialized => "Identity not initialized"@,
                MlsError::UserIdTooLarge => "user_id exceeds i64::MAX"@,
                MlsError::MemberNotFound => "Member not found in group"@,
                MlsError::NotApplicationMessage => "Message is not an application message"@,
                MlsError::NotAWelcome => "MLS message is not a Welcome"@,
                MlsError::BackupWithoutIdentity => "Backup does not contain identity data"@,
            }),
    {
        match self {
            MlsError::IdentityAlreadyInitialized => {
                "Identity already initialized — cannot re-initialize without reset".to_owned()
            },
            MlsError::IdentityNotInitialized => "Identity not initialized".to_owned(),
            MlsError::UserIdTooLarge => "user_id exceeds i64::MAX".to_owned(),
            MlsError::MemberNotFound => "Member not found in group".to_owned(),
            MlsError::NotApplicationMessage => "Message is not an application message".to_owned(),
            MlsError::NotAWelcome => "MLS message is not a Welcome".to_owned(),
            MlsError::BackupWithoutIdentity => "Backup does not contain identity data".to_owned(),
        }
    }
}

/// The credential identity of a user's device: the user id in decimal, a
/// colon, the device id.
pub open spec fn identity_of(user_id: u64, device_id: Seq<u8>) -> Seq<u8> {
    decimal_digits(user_id as nat) + seq![0x3Au8] + device_id
}

/// The credential identity of a user's device.
pub fn identity_label(user_id: u64, device_id: &[u8]) -> (label: Vec<u8>)
    ensures
        label@ == identity_of(user_id, device_id@),
{
    let mut label: Vec<u8> = Vec::new();
    push_decimal_digits(&mut label, user_id);
    label.push(0x3A);
    label.extend_from_slice(device_id);
    assert(label@ =~= identity_of(user_id, device_id@));
    label
}

/// The user id as the store holds it. User ids above the largest signed
/// 64-bit number are refused.
pub fn stored_user_id(user_id: u64) -> (r: Result<i64, MlsError>)
    ensures
        user_id <= i64::MAX ==> r == Ok::<i64, MlsError>(user_id as i64),
        user_id > i64::MAX ==> r == Err::<i64, MlsError>(MlsError::UserIdTooLarge),
{
    if user_id <= 0x7FFF_FFFF_FFFF_FFFF {
        Ok(user_id as i64)
    } else {
        Err(MlsError::UserIdTooLarge)
    }
}

/// The user id that a stored number stands for; none for a negative one.
pub fn loaded_user_id(stored: i64) -> (r: Option<u64>)
    ensures
        stored >= 0 ==> r == Some(stored as u64),
        stored < 0 ==> r.is_none(),
{
    if stored >= 0 {
        Some(stored as u64)
    } else {
        None
    }
}

/// An identity may be generated only where none exists.
pub fn check_no_identity<S>(signature_keys: &Option<S>) -> (r: Result<(), MlsError>)
    ensures
        r == (if signature_keys.is_some() {
            Err::<(), MlsError>(MlsError::IdentityAlreadyInitialized)
        } else {
            Ok::<(), MlsError>(())
        }),
{
    if signature_keys.is_some() {
        Err(MlsError::IdentityAlreadyInitialized)
    } else {
        Ok(())
    }
}

/// The identity that an operation needs: credential and signature keys,
/// where both exist.
pub fn require_identity<'a, C, S>(credential: &'a Option<C>, signature_keys: &'a Option<S>) -> (r:
    Result<(&'a C, &'a S), MlsError>)
    ensures
        match r {
            Ok(pair) => *credential == Some(*pair.0) && *signature_keys == Some(*pair.1),
            Err(e) => e == MlsError::IdentityNotInitialized && (credential.is_none()
                || signature_keys.is_none()),
        },
{
    match credential {
        Some(c) => match signature_keys {
            Some(s) => Ok((c, s)),
            None => Err(MlsError::IdentityNotInitialized),
        },
        None => Err(MlsError::IdentityNotInitialized),
    }
}

/// A member of a group: its leaf index and its credential identity.
#[derive(Debug, Clone, PartialEq, Eq)]
pub struct Member {
    pub index: u32,
    pub identity: Vec<u8>,
}

/// The place of the first member with the identity, if there is one.
pub open spec fn first_with_identity(members: Seq<Member>, identity: Seq<u8>) -> Option<int>
    decreases members.len(),
{
    if members.len() == 0 {
        None
    } else {
        match first_with_identity(members.drop_last(), identity) {
            Some(i) => Some(i),
            None => if members.last().identity@ == identity {
                Some(members.len() - 1)
            } else {
                None
            },
        }
    }
}

proof fn lemma_first_with_identity_stays(members: Seq<Member>, identity: Seq<u8>, n: int)
    requires
        0 <= n <= members.len(),
        first_with_identity(members.subrange(0, n), identity).is_some(),
    ensures
        first_with_identity(members, identity) == first_with_identity(
            members.subrange(0, n),
            identity,
        ),
    decreases members.len() - n,
{
    if n < members.len() {
        assert(members.subrange(0, n + 1).drop_last() =~= members.subrange(0, n));
        lemma_first_with_identity_stays(members, identity, n + 1);
    } else {
        assert(members.subrange(0, n) =~= members);
    }
}

fn same_bytes(a: &[u8], b: &[u8]) -> (same: bool)
    ensures
        same == (a@ == b@),
{
    if a.len() != b.len() {
        return false;
    }
    let mut i: usize = 0;
    while i < a.len()
        invariant
            i <= a@.len(),
            a@.len() == b@.len(),
            forall|j: int| 0 <= j < i ==> a@[j] == b@[j],
        decreases a@.len() - i,
    {
        if a[i] != b[i] {
            return false;
        }
        i += 1;
    }
    assert(a@ =~= b@);
    true
}

/// The leaf index of the first member whose credential identity is
/// `identity`.
pub fn find_member(members: &[Member], identity: &[u8]) -> (r: Result<u32, MlsError>)
    ensures
        match r {
            Ok(index) => first_with_identity(members@, identity@) matches Some(i)
                && members@[i].index == index,
            Err(e) => e == MlsError::MemberNotFound && first_with_identity(
                members@,
                identity@,
            ).is_none(),
        },
{
    let mut i: usize = 0;
    assert(members@.subrange(0, 0) =~= Seq::<Member>::empty());
    while i < members.len()
        invariant
            i <= members@.len(),
            first_with_identity(members@.subrange(0, i as int), identity@).is_none(),
        decreases members@.len() - i,
    {
        proof {
            assert(members@.subrange(0, i + 1).drop_last() =~= members@.subrange(0, i as int));
        }
        if same_bytes(members[i].identity.as_slice(), identity) {
            proof {
                lemma_first_with_identity_stays(members@, identity@, i + 1);
            }
            return Ok(members[i].index);
        }
        i += 1;
    }
    assert(members@.subrange(0, i as int) =~= members@);
    Err(MlsError::MemberNotFound)
}

/// What a processed message turned out to be.
#[derive(Debug, Clone, PartialEq, Eq)]
pub enum ProcessedResult {
    /// An application message, with its plaintext.
    Application(Vec<u8>),
    /// A commit; it was merged.
    Commit,
    /// A proposal; it was stored as pending.
    Proposal,
    /// A proposal to join from outside the group.
    ExternalJoinProposal,
}

/// A processed message as the host sees it: the word for its kind, and the
/// plaintext of an application message.
#[derive(Debug, Clone, PartialEq, Eq)]
pub struct ProcessedMessage {
    pub kind: String,
    pub data: Option<Vec<u8>>,
}

impl ProcessedResult {
    /// The word for the kind of message.
    pub open spec fn kind_text(self) -> Seq<char> {
        match self {
            ProcessedResult::Application(_) => "application"@,
            ProcessedResult::Commit => "commit"@,
            ProcessedResult::Proposal => "proposal"@,
            ProcessedResult::ExternalJoinProposal => "external_join_proposal"@,
        }
    }

    /// The message as the host sees it.
    pub fn into_message(self) -> (m: ProcessedMessage)
        ensures
            m.kind@ == self.kind_text(),
            m.data == (match self {
                ProcessedResult::Application(plaintext) => Some(plaintext),
                _ => None,
            }),
    {
        match self {
            ProcessedResult::Application(plaintext) => ProcessedMessage {
                kind: "application".to_owned(),
                data: Some(plaintext),
            },
            ProcessedResult::Commit => ProcessedMessage { kind: "commit".to_owned(), data: None },
            ProcessedResult::Proposal => ProcessedMessage {
                kind: "proposal".to_owned(),
                data: None,
            },
            ProcessedResult::ExternalJoinProposal => ProcessedMessage {
                kind: "external_join_proposal".to_owned(),
                data: None,
            },
        }
    }

    /// The plaintext of an application message; any other message is
    /// refused.
    pub fn into_plaintext(self) -> (r: Result<Vec<u8>, MlsError>)
        ensures
            r == (match self {
                ProcessedResult::Application(plaintext) => Ok::<Vec<u8>, MlsError>(plaintext),
                _ => Err::<Vec<u8>, MlsError>(MlsError::NotApplicationMessage),
            }),
    {
        match self {
            ProcessedResult::Application(plaintext) => Ok(plaintext),
            _ => Err(MlsError::NotApplicationMessage),
        }
    }
}

/// What the bytes handed to a join turned out to be when read as a
/// message envelope.
#[derive(Debug, Clone, Copy, PartialEq, Eq, Structural)]
pub enum EnvelopeRead {
    /// The bytes are no message envelope.
    NotAnEnvelope,
    /// The envelope holds a Welcome.
    Welcome,
    /// The envelope holds another message.
    OtherMessage,
}

/// Where the Welcome for a join comes from.
#[derive(Debug, Clone, Copy, PartialEq, Eq, Structural)]
pub enum WelcomeSource {
    /// From the envelope.
    Envelope,
    /// From the bytes read as a bare Welcome.
    Bare,
}

/// A join takes the Welcome from the envelope where the bytes are one,
/// reads them as a bare Welcome where they are no envelope, and refuses an
/// envelope with another message.
pub fn welcome_source(read: EnvelopeRead) -> (r: Result<WelcomeSource, MlsError>)
    ensures
        r == (match read {
            EnvelopeRead::Welcome => Ok::<WelcomeSource, MlsError>(WelcomeSource::Envelope),
            EnvelopeRead::NotAnEnvelope => Ok::<WelcomeSource, MlsError>(WelcomeSource::Bare),
            EnvelopeRead::OtherMessage => Err::<WelcomeSource, MlsError>(MlsError::NotAWelcome),
        }),
{
    match read {
        EnvelopeRead::Welcome => Ok(WelcomeSource::Envelope),
        EnvelopeRead::NotAnEnvelope => Ok(WelcomeSource::Bare),
        EnvelopeRead::OtherMessage => Err(MlsError::NotAWelcome),
    }
}

} // verus!
