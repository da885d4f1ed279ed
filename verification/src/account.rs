//! Validator accounts and their addresses.

use subxt::sp_core::crypto::{default_ss58_version, Ss58AddressFormat, Ss58Codec};
use subxt::sp_runtime::AccountId32;
use vstd::prelude::*;

verus! {

/// The account of a validator: 32 bytes.
#[derive(Clone, Copy, PartialEq, Eq, Hash, Debug)]
pub struct AccountId {
    pub bytes: [u8; 32],
}

/// The SS58 address of the account with the given bytes, under the address
/// format with the given number.
pub uninterp spec fn ss58_address(account: Seq<u8>, format: u16) -> Seq<char>;

/// Calls `Ss58Codec::to_ss58check_with_version` on the `AccountId32` with the
/// given bytes. The contract claims no more than that the address is settled
/// by the bytes and the format number; how it is spelled (the prefix bytes,
/// the checksum, the base 58 digits) is left unsaid.
#[verifier::external_body]
fn to_ss58check_with_version(account: &[u8; 32], format: u16) -> (address: String)
    ensures
        address@ == ss58_address(account@, format),
{
    AccountId32::new(*account).to_ss58check_with_version(Ss58AddressFormat::from(format))
}

/// Calls `default_ss58_version`: the number of the address format that the
/// running process uses where none is given. The process may set it to any
/// format, at any time, so nothing is claimed of the number.
#[verifier::external_body]
pub(crate) fn default_address_format() -> (format: u16) {
    u16::from(default_ss58_version())
}

impl AccountId {
    /// The address of the account under an address format.
    pub fn address(&self, format: u16) -> (address: String)
        ensures
            address@ == ss58_address(self.bytes@, format),
    {
        to_ss58check_with_version(&self.bytes, format)
    }
}

} // verus!
