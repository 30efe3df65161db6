//! Who may change a pool's curve.
//!
//! A permission is a stored record that grants rights over one pool to one
//! authority. It lives at an address derived from the pool and the authority,
//! so that nobody can put a record of their own in its place.

use vstd::prelude::*;
use solana_program::pubkey::Pubkey;
use crate::error::{ProgramError, SwapError};

verus! {

/// An address: thirty-two bytes.
pub type Address = [u8; 32];

/// Length in bytes of a packed [`Permission`].
pub const PERMISSION_LEN: usize = 67;

/// The first seed of a permission's address, the word "permission".
pub const PERMISSION_SEED: [u8; 10] = [112, 101, 114, 109, 105, 115, 115, 105, 111, 110];

/// Address of the program that owns pools and permissions.
pub const PROGRAM_ID: Address = [
    5, 191, 114, 247, 149, 225, 206, 169, 197, 82, 146, 89, 164, 83, 74, 15, 247, 87, 194, 4, 194,
    31, 123, 160, 61, 55, 159, 130, 201, 184, 54, 214,
];

/// Address of the system program.
pub const SYSTEM_PROGRAM_ID: Address = [
    0, 0, 0, 0, 0, 0, 0, 0, 0, 0, 0, 0, 0, 0, 0, 0, 0, 0, 0, 0, 0, 0, 0, 0, 0, 0, 0, 0, 0, 0, 0, 0,
];

/// What is known of an account besides its data.
#[derive(Clone, Copy, Debug, PartialEq, Eq)]
pub struct AccountMeta {
    /// Address of the account.
    pub key: Address,
    /// Address of the program that owns it.
    pub owner: Address,
    /// Whether the account signed the transaction.
    pub is_signer: bool,
    /// Its balance.
    pub lamports: u64,
}

/// How the account of a new permission comes to be.
#[derive(Clone, Copy, Debug, PartialEq, Eq, Structural)]
pub enum AccountPlan {
    /// The account holds nothing yet: create it with `lamports` and `space`.
    Create { lamports: u64, space: u64, bump: u8 },
    /// The account holds a balance already: send it `transfer` where that is
    /// not zero, then give it `space` and hand it to the program.
    Claim { transfer: u64, space: u64, bump: u8 },
}

/// The address, with its bump seed, that the seeds `seed`, `swap` and
/// `authority` derive under `program_id`; nothing where no address can be
/// derived.
pub uninterp spec fn program_address_spec(
    seed: Seq<u8>,
    swap: Seq<u8>,
    authority: Seq<u8>,
    program_id: Seq<u8>,
) -> Option<(Seq<u8>, u8)>;

/// `Pubkey::try_find_program_address` on three seeds: the derived address and
/// its bump seed, which depend on the seeds and the program's address alone.
#[verifier::external_body]
fn find_program_address(seed: &[u8], swap: &Address, authority: &Address, program_id: &Address) -> (r:
    Option<(Address, u8)>)
    ensures
        match r {
            Some((address, bump)) => program_address_spec(seed@, swap@, authority@, program_id@)
                == Some((address@, bump)),
            None => program_address_spec(seed@, swap@, authority@, program_id@) is None,
        },
{
    match Pubkey::try_find_program_address(
        &[seed, swap, authority],
        &Pubkey::new_from_array(*program_id),
    ) {
        Some((address, bump)) => Some((address.to_bytes(), bump)),
        None => None,
    }
}

/// The address at which the permission of `authority` over `swap` lives.
pub open spec fn permission_address_spec(swap: Seq<u8>, authority: Seq<u8>) -> Option<
    (Seq<u8>, u8),
> {
    program_address_spec(PERMISSION_SEED@, swap, authority, PROGRAM_ID@)
}

/// Derives the address of the permission of `authority` over `swap`, and its
/// bump seed.
pub fn derive_permission_pubkey_and_bump(swap: &Address, authority: &Address) -> (r: Option<
    (Address, u8),
>)
    ensures
        match r {
            Some((address, bump)) => permission_address_spec(swap@, authority@) == Some(
                (address@, bump),
            ),
            None => permission_address_spec(swap@, authority@) is None,
        },
{
    let seed: [u8; 10] = PERMISSION_SEED;
    let program_id: Address = PROGRAM_ID;
    find_program_address(seed.as_slice(), swap, authority, &program_id)
}

/// A grant of rights over one pool to one authority.
#[derive(Clone, Copy, Debug, PartialEq, Eq)]
pub struct Permission {
    /// Set once the record has been written.
    pub is_initialized: bool,
    /// Address of the pool.
    pub swap: Address,
    /// Address that holds the rights and signs for them.
    pub authority: Address,
    /// The right to grant and revoke rights.
    pub is_super_admin: bool,
    /// The right to commit checkpoints to the pool's curve.
    pub can_update_parameters: bool,
}

/// A [`Permission`] with its addresses as byte sequences.
pub struct PermissionView {
    /// Set once the record has been written.
    pub is_initialized: bool,
    /// Address of the pool.
    pub swap: Seq<u8>,
    /// Address that holds the rights and signs for them.
    pub authority: Seq<u8>,
    /// The right to grant and revoke rights.
    pub is_super_admin: bool,
    /// The right to commit checkpoints to the pool's curve.
    pub can_update_parameters: bool,
}

impl Default for Permission {
    /// The record that has not been written: every byte zero.
    fn default() -> (r: Permission)
        ensures
            !r.is_initialized,
            !r.is_super_admin,
            !r.can_update_parameters,
            r.swap@ == Seq::new(32, |i: int| 0u8),
            r.authority@ == Seq::new(32, |i: int| 0u8),
    {
        let blank: Address = [0u8; 32];
        assert(blank@ =~= Seq::new(32, |i: int| 0u8));
        Permission {
            is_initialized: false,
            swap: blank,
            authority: blank,
            is_super_admin: false,
            can_update_parameters: false,
        }
    }
}

impl View for Permission {
    type V = PermissionView;

    open spec fn view(&self) -> PermissionView {
        PermissionView {
            is_initialized: self.is_initialized,
            swap: self.swap@,
            authority: self.authority@,
            is_super_admin: self.is_super_admin,
            can_update_parameters: self.can_update_parameters,
        }
    }
}

/// The byte that stands for a flag: one when set, zero when clear.
pub open spec fn flag_byte(flag: bool) -> u8 {
    if flag {
        1
    } else {
        0
    }
}

/// The record as bytes: the first flag, the pool's address, the authority's
/// address, and the two rights.
pub open spec fn packed_permission_spec(p: PermissionView) -> Seq<u8> {
    seq![flag_byte(p.is_initialized)] + p.swap + p.authority + seq![
        flag_byte(p.is_super_admin),
        flag_byte(p.can_update_parameters),
    ]
}

/// The record that the first sixty-seven of `bytes` spell. Any byte but zero
/// sets a flag.
pub open spec fn unpacked_permission_spec(bytes: Seq<u8>) -> PermissionView
    recommends
        bytes.len() >= 67,
{
    PermissionView {
        is_initialized: bytes[0] != 0,
        swap: bytes.subrange(1, 33),
        authority: bytes.subrange(33, 65),
        is_super_admin: bytes[65] != 0,
        can_update_parameters: bytes[66] != 0,
    }
}

/// What reading a record from exactly sixty-seven bytes gives, with or
/// without the demand that the record has been written.
pub open spec fn unpack_permission_bytes_spec(bytes: Seq<u8>, checked: bool) -> Result<
    PermissionView,
    ProgramError,
> {
    if bytes.len() != 67 {
        Err(ProgramError::InvalidAccountData)
    } else if checked && bytes[0] == 0 {
        Err(ProgramError::UninitializedAccount)
    } else {
        Ok(unpacked_permission_spec(bytes))
    }
}

/// Whether two addresses are the same.
pub fn same_address(a: &Address, b: &Address) -> (r: bool)
    ensures
        r == (a@ == b@),
{
    let mut i: usize = 0;
    while i < 32
        invariant
            i <= 32,
            forall|k: int| 0 <= k < i ==> a@[k] == b@[k],
        decreases 32 - i,
    {
        if a[i] != b[i] {
            return false;
        }
        i += 1;
    }
    assert(a@ =~= b@);
    true
}

fn read_address(input: &[u8], start: usize) -> (r: Address)
    requires
        start + 32 <= input@.len(),
    ensures
        r@ == input@.subrange(start as int, start + 32),
{
    let mut address: Address = [0u8; 32];
    let len: usize = input.len();
    let mut i: usize = 0;
    while i < 32
        invariant
            i <= 32,
            start + 32 <= len,
            len == input@.len(),
            forall|k: int| 0 <= k < i ==> address@[k] == input@[start + k],
        decreases 32 - i,
    {
        address[i] = input[start + i];
        i += 1;
    }
    assert(address@ =~= input@.subrange(start as int, start + 32));
    address
}

fn write_address(output: &mut [u8], start: usize, address: &Address)
    requires
        start + 32 <= old(output)@.len(),
    ensures
        final(output)@.len() == old(output)@.len(),
        forall|k: int| 0 <= k < 32 ==> final(output)@[start + k] == address@[k],
        forall|k: int|
            0 <= k < old(output)@.len() && !(start <= k < start + 32) ==> final(output)@[k] == old(
                output,
            )@[k],
{
    let len: usize = output.len();
    let mut i: usize = 0;
    while i < 32
        invariant
            i <= 32,
            output@.len() == old(output)@.len(),
            start + 32 <= len,
            len == output@.len(),
            forall|k: int| 0 <= k < i ==> output@[start + k] == address@[k],
            forall|k: int|
                0 <= k < output@.len() && !(start <= k < start + i) ==> output@[k] == old(
                    output,
                )@[k],
        decreases 32 - i,
    {
        output[start + i] = address[i];
        i += 1;
    }
}

impl Permission {
    /// Whether the record has been written.
    pub fn is_initialized(&self) -> (r: bool)
        ensures
            r == self.is_initialized,
    {
        self.is_initialized
    }

    /// Reads a record from the first sixty-seven bytes of `input`.
    pub fn unpack_from_slice(input: &[u8]) -> (r: Result<Permission, ProgramError>)
        requires
            input@.len() >= 67,
        ensures
            r is Ok,
            r.unwrap()@ == unpacked_permission_spec(input@),
    {
        Ok(
            Permission {
                is_initialized: input[0] != 0,
                swap: read_address(input, 1),
                authority: read_address(input, 33),
                is_super_admin: input[65] != 0,
                can_update_parameters: input[66] != 0,
            },
        )
    }

    /// Writes the record over the first sixty-seven bytes of `output` and
    /// leaves the rest as it was.
    pub fn pack_into_slice(&self, output: &mut [u8])
        requires
            old(output)@.len() >= 67,
        ensures
            final(output)@.len() == old(output)@.len(),
            final(output)@.subrange(0, 67) == packed_permission_spec(self@),
            final(output)@.subrange(67, old(output)@.len() as int) == old(output)@.subrange(
                67,
                old(output)@.len() as int,
            ),
    {
        output[0] = if self.is_initialized {
            1
        } else {
            0
        };
        write_address(output, 1, &self.swap);
        write_address(output, 33, &self.authority);
        output[65] = if self.is_super_admin {
            1
        } else {
            0
        };
        output[66] = if self.can_update_parameters {
            1
        } else {
            0
        };
        assert(output@.subrange(0, 67) =~= packed_permission_spec(self@));
        assert(output@.subrange(67, output@.len() as int) =~= old(output)@.subrange(
            67,
            old(output)@.len() as int,
        ));
    }

    /// Reads a record from `input`, which must be exactly sixty-seven bytes
    /// long, whether or not the record has been written.
    pub fn unpack_unchecked(input: &[u8]) -> (r: Result<Permission, ProgramError>)
        ensures
            match r {
                Ok(p) => unpack_permission_bytes_spec(input@, false) == Ok::<
                    PermissionView,
                    ProgramError,
                >(p@),
                Err(e) => unpack_permission_bytes_spec(input@, false) == Err::<
                    PermissionView,
                    ProgramError,
                >(e),
            },
    {
        if input.len() != PERMISSION_LEN {
            return Err(ProgramError::InvalidAccountData);
        }
        Self::unpack_from_slice(input)
    }

    /// Reads a record from `input`, which must be exactly sixty-seven bytes
    /// long and hold a record that has been written.
    pub fn unpack(input: &[u8]) -> (r: Result<Permission, ProgramError>)
        ensures
            match r {
                Ok(p) => unpack_permission_bytes_spec(input@, true) == Ok::<
                    PermissionView,
                    ProgramError,
                >(p@),
                Err(e) => unpack_permission_bytes_spec(input@, true) == Err::<
                    PermissionView,
                    ProgramError,
                >(e),
            },
    {
        let value = Self::unpack_unchecked(input)?;
        if value.is_initialized() {
            Ok(value)
        } else {
            Err(ProgramError::UninitializedAccount)
        }
    }

    /// Writes `src` to `dst`, which must be exactly sixty-seven bytes long.
    pub fn pack(src: Permission, dst: &mut [u8]) -> (r: Result<(), ProgramError>)
        ensures
            final(dst)@.len() == old(dst)@.len(),
            r == if old(dst)@.len() == 67 {
                Ok::<(), ProgramError>(())
            } else {
                Err(ProgramError::InvalidAccountData)
            },
            final(dst)@ == if old(dst)@.len() == 67 {
                packed_permission_spec(src@)
            } else {
                old(dst)@
            },
    {
        if dst.len() != PERMISSION_LEN {
            return Err(ProgramError::InvalidAccountData);
        }
        src.pack_into_slice(dst);
        assert(dst@.subrange(0, 67) =~= dst@);
        Ok(())
    }

    /// Accepts a record that carries the right to update curve parameters.
    pub fn validate_update_params_permission(&self) -> (r: Result<(), ProgramError>)
        ensures
            r == if self.can_update_parameters {
                Ok::<(), ProgramError>(())
            } else {
                Err(ProgramError::Custom(SwapError::InvalidUpdatePermission))
            },
    {
        if !self.can_update_parameters {
            return Err(ProgramError::from_swap_error(SwapError::InvalidUpdatePermission));
        }
        Ok(())
    }

    /// Accepts a record that carries the right to grant and revoke rights.
    pub fn validate_super_admin_permission(&self) -> (r: Result<(), ProgramError>)
        ensures
            r == if self.is_super_admin {
                Ok::<(), ProgramError>(())
            } else {
                Err(ProgramError::Custom(SwapError::InvalidUpdatePermission))
            },
    {
        if !self.is_super_admin {
            return Err(ProgramError::from_swap_error(SwapError::InvalidUpdatePermission));
        }
        Ok(())
    }
}

/// The permission that `signer` holds over `swap`, as the account at
/// `permission_key` stores it; `derived` is the address at which that
/// permission must live.
///
/// The account must belong to the program and sit at the derived address.
/// Its data must hold a written record, made out to the signer and to the
/// pool.
pub open spec fn checked_permission_spec(
    derived: Option<(Seq<u8>, u8)>,
    permission_key: Seq<u8>,
    permission_owner: Seq<u8>,
    permission_data: Seq<u8>,
    swap_key: Seq<u8>,
    signer_key: Seq<u8>,
    program_id: Seq<u8>,
) -> Result<PermissionView, ProgramError> {
    if permission_owner != program_id {
        Err(ProgramError::IllegalOwner)
    } else if derived is None || derived.unwrap().0 != permission_key {
        Err(ProgramError::Custom(SwapError::InvalidUpdatePermission))
    } else {
        match unpack_permission_bytes_spec(permission_data, true) {
            Err(e) => Err(e),
            Ok(p) => if p.authority != signer_key || p.swap != swap_key {
                Err(ProgramError::Custom(SwapError::InvalidUpdatePermission))
            } else {
                Ok(p)
            },
        }
    }
}

/// Whether an exec result and its model agree.
pub open spec fn permission_result_matches(
    r: Result<Permission, ProgramError>,
    model: Result<PermissionView, ProgramError>,
) -> bool {
    match r {
        Ok(p) => model == Ok::<PermissionView, ProgramError>(p@),
        Err(e) => model == Err::<PermissionView, ProgramError>(e),
    }
}

/// Reads and checks the permission stored in an account, given the address
/// `derived` at which it must live.
pub fn check_permission(
    derived: Option<(Address, u8)>,
    permission_info: &AccountMeta,
    permission_data: &[u8],
    swap_info: &AccountMeta,
    signer_info: &AccountMeta,
    program_id: &Address,
) -> (r: Result<Permission, ProgramError>)
    ensures
        permission_result_matches(
            r,
            checked_permission_spec(
                match derived {
                    Some((address, bump)) => Some((address@, bump)),
                    None => None,
                },
                permission_info.key@,
                permission_info.owner@,
                permission_data@,
                swap_info.key@,
                signer_info.key@,
                program_id@,
            ),
        ),
{
    if !same_address(&permission_info.owner, program_id) {
        return Err(ProgramError::IllegalOwner);
    }
    match derived {
        None => {
            return Err(ProgramError::from_swap_error(SwapError::InvalidUpdatePermission));
        },
        Some((permission_pda, _)) => {
            if !same_address(&permission_pda, &permission_info.key) {
                return Err(ProgramError::from_swap_error(SwapError::InvalidUpdatePermission));
            }
        },
    }
    let permission = Permission::unpack(permission_data)?;
    if !same_address(&permission.authority, &signer_info.key) {
        return Err(ProgramError::from_swap_error(SwapError::InvalidUpdatePermission));
    }
    if !same_address(&permission.swap, &swap_info.key) {
        return Err(ProgramError::from_swap_error(SwapError::InvalidUpdatePermission));
    }
    Ok(permission)
}

/// The record that an update leaves in `stored`: the rights are replaced,
/// the rest stays. The stored record must have been written and belong to
/// the pool at `swap_key`.
pub open spec fn updated_permission_spec(
    stored: Seq<u8>,
    swap_key: Seq<u8>,
    is_super_admin: bool,
    can_update_parameters: bool,
) -> Result<PermissionView, ProgramError> {
    match unpack_permission_bytes_spec(stored, true) {
        Err(e) => Err(e),
        Ok(p) => if p.swap != swap_key {
            Err(ProgramError::Custom(SwapError::InvalidUpdatePermission))
        } else {
            Ok(
                PermissionView {
                    is_initialized: p.is_initialized,
                    swap: p.swap,
                    authority: p.authority,
                    is_super_admin,
                    can_update_parameters,
                },
            )
        },
    }
}

/// Replaces the rights of the permission stored in `data`. On failure
/// nothing is written.
pub fn update_permission_record(
    data: &mut [u8],
    swap_key: &Address,
    is_super_admin: bool,
    can_update_parameters: bool,
) -> (r: Result<(), ProgramError>)
    ensures
        final(data)@.len() == old(data)@.len(),
        match updated_permission_spec(old(data)@, swap_key@, is_super_admin, can_update_parameters) {
            Ok(p) => r == Ok::<(), ProgramError>(()) && final(data)@ == packed_permission_spec(p),
            Err(e) => r == Err::<(), ProgramError>(e) && final(data)@ == old(data)@,
        },
{
    let update_permission = Permission::unpack(data)?;
    if !same_address(&update_permission.swap, swap_key) {
        return Err(ProgramError::from_swap_error(SwapError::InvalidUpdatePermission));
    }
    let updated_values = Permission {
        is_initialized: update_permission.is_initialized,
        swap: update_permission.swap,
        authority: update_permission.authority,
        is_super_admin,
        can_update_parameters,
    };
    Permission::pack(updated_values, data)
}

/// How the account for a new permission is to be made, given the address
/// `derived` at which it must live.
///
/// The account must sit at the derived address, the system program must be
/// the real one, and an account that the program owns already must not hold
/// a written record. An account without balance is created with the rent
/// `rent_minimum`; one with a balance is topped up to the rent, and to one
/// lamport at least, then claimed.
pub open spec fn account_plan_spec(
    derived: Option<(Seq<u8>, u8)>,
    program_id: Seq<u8>,
    account_key: Seq<u8>,
    account_owner: Seq<u8>,
    account_lamports: u64,
    account_data: Seq<u8>,
    system_program_key: Seq<u8>,
    rent_minimum: u64,
) -> Result<AccountPlan, ProgramError> {
    if derived is None || derived.unwrap().0 != account_key {
        Err(ProgramError::Custom(SwapError::InvalidPermissionAddress))
    } else if system_program_key != SYSTEM_PROGRAM_ID@ {
        Err(ProgramError::IncorrectProgramId)
    } else if account_owner == program_id && account_data.len() != 67 {
        Err(ProgramError::InvalidAccountData)
    } else if account_owner == program_id && account_data[0] != 0 {
        Err(ProgramError::AccountAlreadyInitialized)
    } else if account_lamports == 0 {
        Ok(AccountPlan::Create { lamports: rent_minimum, space: 67, bump: derived.unwrap().1 })
    } else {
        let target: u64 = if rent_minimum == 0 {
            1
        } else {
            rent_minimum
        };
        Ok(
            AccountPlan::Claim {
                transfer: if target > account_lamports {
                    (target - account_lamports) as u64
                } else {
                    0
                },
                space: 67,
                bump: derived.unwrap().1,
            },
        )
    }
}

/// Decides how the account for a new permission is to be made, given the
/// address `derived` at which it must live.
pub fn plan_permission_account(
    derived: Option<(Address, u8)>,
    program_id: &Address,
    permission_account: &AccountMeta,
    permission_data: &[u8],
    system_program_key: &Address,
    rent_minimum: u64,
) -> (r: Result<AccountPlan, ProgramError>)
    ensures
        r == account_plan_spec(
            match derived {
                Some((address, bump)) => Some((address@, bump)),
                None => None,
            },
            program_id@,
            permission_account.key@,
            permission_account.owner@,
            permission_account.lamports,
            permission_data@,
            system_program_key@,
            rent_minimum,
        ),
{
    let (permission_address, permission_bump) = match derived {
        Some(found) => found,
        None => {
            return Err(ProgramError::from_swap_error(SwapError::InvalidPermissionAddress));
        },
    };
    if !same_address(&permission_account.key, &permission_address) {
        return Err(ProgramError::from_swap_error(SwapError::InvalidPermissionAddress));
    }
    let system_id: Address = SYSTEM_PROGRAM_ID;
    if !same_address(system_program_key, &system_id) {
        return Err(ProgramError::IncorrectProgramId);
    }
    // a record that the program owns and that has been written stays
    if same_address(&permission_account.owner, program_id) {
        let existing_permission = Permission::unpack_unchecked(permission_data)?;
        if existing_permission.is_initialized {
            return Err(ProgramError::AccountAlreadyInitialized);
        }
    }
    let space: u64 = 67;
    let lamports = rent_minimum;
    let current_lamports = permission_account.lamports;
    if current_lamports == 0 {
        return Ok(AccountPlan::Create { lamports, space, bump: permission_bump });
    }
    let target: u64 = if lamports == 0 {
        1
    } else {
        lamports
    };
    let required_lamports: u64 = if target > current_lamports {
        target - current_lamports
    } else {
        0
    };
    Ok(AccountPlan::Claim { transfer: required_lamports, space, bump: permission_bump })
}

impl Permission {
    /// Reads the permission of `signer_info` over `swap_info` from the
    /// account `permission_info`, and checks that it is the real one.
    pub fn unpack_permission(
        permission_info: &AccountMeta,
        permission_data: &[u8],
        swap_info: &AccountMeta,
        signer_info: &AccountMeta,
        program_id: &Address,
    ) -> (r: Result<Permission, ProgramError>)
        ensures
            permission_result_matches(
                r,
                checked_permission_spec(
                    permission_address_spec(swap_info.key@, signer_info.key@),
                    permission_info.key@,
                    permission_info.owner@,
                    permission_data@,
                    swap_info.key@,
                    signer_info.key@,
                    program_id@,
                ),
            ),
    {
        if !same_address(&permission_info.owner, program_id) {
            return Err(ProgramError::IllegalOwner);
        }
        let derived = derive_permission_pubkey_and_bump(&swap_info.key, &signer_info.key);
        check_permission(
            derived,
            permission_info,
            permission_data,
            swap_info,
            signer_info,
            program_id,
        )
    }

    /// Decides how the account for the permission of `permission_authority`
    /// over `swap` is to be made.
    pub fn create_permission_account(
        program_id: &Address,
        permission_account: &AccountMeta,
        permission_data: &[u8],
        system_program_key: &Address,
        swap: &Address,
        permission_authority: &Address,
        rent_minimum: u64,
    ) -> (r: Result<AccountPlan, ProgramError>)
        ensures
            r == account_plan_spec(
                permission_address_spec(swap@, permission_authority@),
                program_id@,
                permission_account.key@,
                permission_account.owner@,
                permission_account.lamports,
                permission_data@,
                system_program_key@,
                rent_minimum,
            ),
    {
        let derived = derive_permission_pubkey_and_bump(swap, permission_authority);
        plan_permission_account(
            derived,
            program_id,
            permission_account,
            permission_data,
            system_program_key,
            rent_minimum,
        )
    }
}

/// What granting a new permission comes to: the permission of the signer,
/// which must be a super admin's, then the plan for the new account. The pool
/// must belong to the program and the signer must have signed.
pub open spec fn initialize_permission_spec(
    signer_permission: Result<PermissionView, ProgramError>,
    plan: Result<AccountPlan, ProgramError>,
    program_id: Seq<u8>,
    swap_owner: Seq<u8>,
    signer_signed: bool,
) -> Result<AccountPlan, ProgramError> {
    if swap_owner != program_id {
        Err(ProgramError::IllegalOwner)
    } else if !signer_signed {
        Err(ProgramError::MissingRequiredSignature)
    } else {
        match signer_permission {
            Err(e) => Err(e),
            Ok(p) => if !p.is_super_admin {
                Err(ProgramError::Custom(SwapError::InvalidUpdatePermission))
            } else {
                plan
            },
        }
    }
}

/// Checks a grant of a new permission and decides how its account is to be
/// made. The record to write once the account stands comes with the plan.
pub fn process_initialize_permission(
    program_id: &Address,
    swap_info: &AccountMeta,
    permission_info: &AccountMeta,
    permission_data: &[u8],
    new_permission_info: &AccountMeta,
    new_permission_data: &[u8],
    signer_info: &AccountMeta,
    system_program_key: &Address,
    rent_minimum: u64,
    permission_authority: Address,
    is_super_admin: bool,
    can_update_parameters: bool,
) -> (r: Result<(AccountPlan, Permission), ProgramError>)
    ensures
        match r {
            Ok((plan, record)) => {
                &&& initialize_permission_spec(
                    checked_permission_spec(
                        permission_address_spec(swap_info.key@, signer_info.key@),
                        permission_info.key@,
                        permission_info.owner@,
                        permission_data@,
                        swap_info.key@,
                        signer_info.key@,
                        program_id@,
                    ),
                    account_plan_spec(
                        permission_address_spec(swap_info.key@, permission_authority@),
                        program_id@,
                        new_permission_info.key@,
                        new_permission_info.owner@,
                        new_permission_info.lamports,
                        new_permission_data@,
                        system_program_key@,
                        rent_minimum,
                    ),
                    program_id@,
                    swap_info.owner@,
                    signer_info.is_signer,
                ) == Ok::<AccountPlan, ProgramError>(plan)
                &&& record@ == (PermissionView {
                    is_initialized: true,
                    swap: swap_info.key@,
                    authority: permission_authority@,
                    is_super_admin,
                    can_update_parameters,
                })
            },
            Err(e) => initialize_permission_spec(
                checked_permission_spec(
                    permission_address_spec(swap_info.key@, signer_info.key@),
                    permission_info.key@,
                    permission_info.owner@,
                    permission_data@,
                    swap_info.key@,
                    signer_info.key@,
                    program_id@,
                ),
                account_plan_spec(
                    permission_address_spec(swap_info.key@, permission_authority@),
                    program_id@,
                    new_permission_info.key@,
                    new_permission_info.owner@,
                    new_permission_info.lamports,
                    new_permission_data@,
                    system_program_key@,
                    rent_minimum,
                ),
                program_id@,
                swap_info.owner@,
                signer_info.is_signer,
            ) == Err::<AccountPlan, ProgramError>(e),
        },
{
    if !same_address(&swap_info.owner, program_id) {
        return Err(ProgramError::IllegalOwner);
    }
    if !signer_info.is_signer {
        return Err(ProgramError::MissingRequiredSignature);
    }
    let permission = Permission::unpack_permission(
        permission_info,
        permission_data,
        swap_info,
        signer_info,
        program_id,
    )?;
    permission.validate_super_admin_permission()?;
    let plan = Permission::create_permission_account(
        program_id,
        new_permission_info,
        new_permission_data,
        system_program_key,
        &swap_info.key,
        &permission_authority,
        rent_minimum,
    )?;
    let new_permission = Permission {
        is_initialized: true,
        swap: swap_info.key,
        authority: permission_authority,
        is_super_admin,
        can_update_parameters,
    };
    Ok((plan, new_permission))
}

/// What changing the rights of a stored permission comes to: the pool and the
/// stored permission must belong to the program, the signer must have signed
/// and hold a super admin's permission, and the stored permission must be
/// one of the same pool.
pub open spec fn update_permission_spec(
    signer_permission: Result<PermissionView, ProgramError>,
    program_id: Seq<u8>,
    swap_key: Seq<u8>,
    swap_owner: Seq<u8>,
    signer_signed: bool,
    update_owner: Seq<u8>,
    update_data: Seq<u8>,
    is_super_admin: bool,
    can_update_parameters: bool,
) -> Result<PermissionView, ProgramError> {
    if swap_owner != program_id {
        Err(ProgramError::IllegalOwner)
    } else if !signer_signed {
        Err(ProgramError::MissingRequiredSignature)
    } else if update_owner != program_id {
        Err(ProgramError::IllegalOwner)
    } else {
        match signer_permission {
            Err(e) => Err(e),
            Ok(p) => if !p.is_super_admin {
                Err(ProgramError::Custom(SwapError::InvalidUpdatePermission))
            } else {
                updated_permission_spec(update_data, swap_key, is_super_admin, can_update_parameters)
            },
        }
    }
}

/// Changes the rights of the permission stored in `update_permission_data`.
/// On success the data holds the record with its new rights; on failure
/// nothing is written. To give up rights of one's own, hand in a copy of the
/// same data as `permission_data`.
pub fn process_update_permission(
    program_id: &Address,
    swap_info: &AccountMeta,
    permission_info: &AccountMeta,
    permission_data: &[u8],
    update_permission_info: &AccountMeta,
    update_permission_data: &mut [u8],
    signer_info: &AccountMeta,
    is_super_admin: bool,
    can_update_parameters: bool,
) -> (r: Result<(), ProgramError>)
    ensures
        final(update_permission_data)@.len() == old(update_permission_data)@.len(),
        match update_permission_spec(
            checked_permission_spec(
                permission_address_spec(swap_info.key@, signer_info.key@),
                permission_info.key@,
                permission_info.owner@,
                permission_data@,
                swap_info.key@,
                signer_info.key@,
                program_id@,
            ),
            program_id@,
            swap_info.key@,
            swap_info.owner@,
            signer_info.is_signer,
            update_permission_info.owner@,
            old(update_permission_data)@,
            is_super_admin,
            can_update_parameters,
        ) {
            Ok(p) => r == Ok::<(), ProgramError>(()) && final(update_permission_data)@
                == packed_permission_spec(p),
            Err(e) => r == Err::<(), ProgramError>(e) && final(update_permission_data)@ == old(
                update_permission_data,
            )@,
        },
{
    if !same_address(&swap_info.owner, program_id) {
        return Err(ProgramError::IllegalOwner);
    }
    if !signer_info.is_signer {
        return Err(ProgramError::MissingRequiredSignature);
    }
    if !same_address(&update_permission_info.owner, program_id) {
        return Err(ProgramError::IllegalOwner);
    }
    let permission = Permission::unpack_permission(
        permission_info,
        permission_data,
        swap_info,
        signer_info,
        program_id,
    )?;
    permission.validate_super_admin_permission()?;
    update_permission_record(
        update_permission_data,
        &swap_info.key,
        is_super_admin,
        can_update_parameters,
    )
}

/// Packing a record and reading it back gives the same record, and the
/// packed form is sixty-seven bytes long.
pub proof fn lemma_permission_round_trip(p: Permission)
    ensures
        packed_permission_spec(p@).len() == 67,
        unpacked_permission_spec(packed_permission_spec(p@)) == p@,
{
    let bytes = packed_permission_spec(p@);
    assert(bytes.subrange(1, 33) =~= p@.swap);
    assert(bytes.subrange(33, 65) =~= p@.authority);
}

} // verus!
