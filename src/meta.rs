use vstd::prelude::*;

use crate::key::Pubkey;

verus! {

/// One resource that a target asks for: the account's key and the access it
/// must be given in the next invocation.
#[derive(Clone, Copy, Debug)]
pub struct IAccountMeta {
    pub pubkey: Pubkey,
    pub signer: bool,
    pub writable: bool,
}

/// The model of a resource request: key bytes, signer flag, writable flag.
pub type MetaView = (Seq<u8>, bool, bool);

impl View for IAccountMeta {
    type V = MetaView;

    open spec fn view(&self) -> MetaView {
        (self.pubkey@, self.signer, self.writable)
    }
}

/// An ordered list of resource requests, as a target's preflight answers it.
#[derive(Clone, Debug)]
pub struct PreflightAccounts {
    pub accounts: Vec<IAccountMeta>,
}

impl View for PreflightAccounts {
    type V = Seq<MetaView>;

    open spec fn view(&self) -> Seq<MetaView> {
        self.accounts@.map_values(|m: IAccountMeta| m@)
    }
}

/// The failures of the invocation protocol and of the lock state machine.
#[derive(Clone, Copy, Debug)]
pub enum InterfaceError {
    /// A requested key is missing from the candidate pool.
    ResourceNotFound(Pubkey),
    /// The return channel was written by another program than the target, or
    /// not at all.
    UnexpectedResponder,
    /// Bytes that are no well-formed resource list.
    DecodeError,
    /// An authorization constraint of lock or unlock does not hold.
    Unauthorized,
    /// Unlock was asked for an asset whose lock record was never created.
    MissingLockRecord,
    /// No derived address exists for the given seeds.
    DerivationFailed,
}

} // verus!
