pub mod assertions;
pub mod authority;

pub use assertions::{
    assert_data_length, assert_owned_by, assert_rent_exempt, assert_signer, assert_writable,
    checked_add, checked_sub,
};
pub use authority::{validate_authority, validate_owner_or_delegate};
