//! Bringing a new checkpoint into a stored pool state.
//!
//! A pool state is a run of bytes that ends with its curve: one byte for the
//! kind of curve, then the curve's record. The functions here find a
//! rate-based curve in such a state, check a new checkpoint against it and
//! write the new record back.

use vstd::prelude::*;
use vstd::slice::slice_subrange;
use crate::curve::redemption_rate::{RedemptionRateCurve, REDEMPTION_RATE_CURVE_LEN};
use crate::error::{ProgramError, SwapError};
use crate::permission::{
    checked_permission_spec,
    permission_address_spec,
    same_address,
    AccountMeta,
    Address,
    Permission,
    PermissionView,
};

verus! {

/// The byte that marks a stored curve as rate-based.
pub const REDEMPTION_RATE_CURVE_KIND: u8 = 3;

/// Length in bytes of a stored curve: its kind, then its record.
pub const SWAP_CURVE_LEN: usize = 1 + REDEMPTION_RATE_CURVE_LEN;

/// Length in bytes of a stored pool state.
pub const SWAP_STATE_LEN: usize = 372;

/// Where the stored curve starts in a pool state.
pub const SWAP_CURVE_OFFSET: usize = SWAP_STATE_LEN - SWAP_CURVE_LEN;

/// The curve that the pool state `bytes` holds, where it is rate-based.
pub open spec fn stored_curve_spec(bytes: Seq<u8>) -> Result<RedemptionRateCurve, ProgramError>
    recommends
        bytes.len() >= 372,
{
    if bytes[291] == 3 {
        Ok(RedemptionRateCurve::unpacked_spec(bytes.subrange(292, 372)))
    } else {
        Err(ProgramError::InvalidAccountData)
    }
}

/// Reads the rate-based curve out of a pool state; a state that holds any
/// other kind of curve is refused.
pub fn extract_curve(input: &[u8]) -> (r: Result<RedemptionRateCurve, ProgramError>)
    requires
        input@.len() >= 372,
    ensures
        r == stored_curve_spec(input@),
{
    let stored = slice_subrange(input, SWAP_CURVE_OFFSET, SWAP_STATE_LEN);
    if stored[0] != REDEMPTION_RATE_CURVE_KIND {
        return Err(ProgramError::InvalidAccountData);
    }
    let record = slice_subrange(stored, 1, SWAP_CURVE_LEN);
    assert(record@ =~= input@.subrange(292, 372));
    RedemptionRateCurve::unpack_from_slice(record)
}

/// Checks the checkpoint `(ssr, rho, chi)` against `curve` at the time
/// `current_timestamp` and gives the curve that the pool state is to hold.
pub fn create_new_swap_state(
    ssr: u128,
    rho: u128,
    chi: u128,
    curve: RedemptionRateCurve,
    current_timestamp: u128,
) -> (r: Result<RedemptionRateCurve, ProgramError>)
    ensures
        r == curve.set_rates_spec(ssr, rho, chi, current_timestamp),
{
    curve.set_rates(ssr, rho, chi, current_timestamp)
}

/// What a checkpoint makes of the pool state `bytes`: the state with the new
/// record in place of the old one, or the reason why the checkpoint is
/// refused.
pub open spec fn applied_update_spec(
    bytes: Seq<u8>,
    ssr: u128,
    rho: u128,
    chi: u128,
    now: u128,
) -> Result<Seq<u8>, ProgramError>
    recommends
        bytes.len() >= 372,
{
    match stored_curve_spec(bytes) {
        Err(e) => Err(e),
        Ok(curve) => match curve.set_rates_spec(ssr, rho, chi, now) {
            Err(e) => Err(e),
            Ok(updated) => Ok(
                bytes.subrange(0, 292) + updated.packed_spec() + bytes.subrange(
                    372,
                    bytes.len() as int,
                ),
            ),
        },
    }
}

/// Commits the checkpoint `(ssr, rho, chi)` to the pool state in
/// `swap_data`. On success the stored record is the new one and every other
/// byte is as before; on failure nothing is written.
pub fn apply_curve_update(
    swap_data: &mut [u8],
    ssr: u128,
    rho: u128,
    chi: u128,
    current_timestamp: u128,
) -> (r: Result<(), ProgramError>)
    requires
        old(swap_data)@.len() >= 372,
    ensures
        final(swap_data)@.len() == old(swap_data)@.len(),
        match applied_update_spec(old(swap_data)@, ssr, rho, chi, current_timestamp) {
            Ok(bytes) => r == Ok::<(), ProgramError>(()) && final(swap_data)@ == bytes,
            Err(e) => r == Err::<(), ProgramError>(e) && final(swap_data)@ == old(swap_data)@,
        },
{
    let curve = extract_curve(swap_data)?;
    let updated = create_new_swap_state(ssr, rho, chi, curve, current_timestamp)?;
    let mut record: Vec<u8> = vec![0u8; 80];
    updated.pack_into_slice(record.as_mut_slice());
    let ghost before = swap_data@;
    let mut i: usize = 0;
    while i < 80
        invariant
            i <= 80,
            swap_data@.len() == before.len(),
            before.len() >= 372,
            record@.len() == 80,
            forall|k: int| 0 <= k < i ==> swap_data@[292 + k] == record@[k],
            forall|k: int|
                0 <= k < before.len() && !(292 <= k < 292 + i) ==> swap_data@[k] == before[k],
        decreases 80 - i,
    {
        swap_data[SWAP_CURVE_OFFSET + 1 + i] = record[i];
        i += 1;
    }
    assert(swap_data@.subrange(0, 292) =~= before.subrange(0, 292));
    assert(swap_data@.subrange(372, before.len() as int) =~= before.subrange(
        372,
        before.len() as int,
    ));
    assert(swap_data@.subrange(292, 372) =~= record@.subrange(0, 80));
    assert(swap_data@ =~= before.subrange(0, 292) + updated.packed_spec() + before.subrange(
        372,
        before.len() as int,
    ));
    Ok(())
}

/// Whether `signer` may update the curve of the pool: the pool must belong
/// to the program, the signer must have signed, and the signer's permission
/// must carry the right to update parameters.
pub open spec fn curve_update_rights_spec(
    signer_permission: Result<PermissionView, ProgramError>,
    program_id: Seq<u8>,
    swap_owner: Seq<u8>,
    signer_signed: bool,
) -> Result<(), ProgramError> {
    if swap_owner != program_id {
        Err(ProgramError::IllegalOwner)
    } else if !signer_signed {
        Err(ProgramError::MissingRequiredSignature)
    } else {
        match signer_permission {
            Err(e) => Err(e),
            Ok(p) => if !p.can_update_parameters {
                Err(ProgramError::Custom(SwapError::InvalidUpdatePermission))
            } else {
                Ok(())
            },
        }
    }
}

/// What an update of a pool's curve comes to: the signer must have the
/// right, and the pool state must be long enough to hold a curve. Then the
/// checkpoint is checked against the stored curve.
pub open spec fn curve_update_spec(
    signer_permission: Result<PermissionView, ProgramError>,
    program_id: Seq<u8>,
    swap_owner: Seq<u8>,
    signer_signed: bool,
    swap_data: Seq<u8>,
    ssr: u128,
    rho: u128,
    chi: u128,
    now: u128,
) -> Result<Seq<u8>, ProgramError> {
    match curve_update_rights_spec(signer_permission, program_id, swap_owner, signer_signed) {
        Err(e) => Err(e),
        Ok(_) => if swap_data.len() < 372 {
            Err(ProgramError::InvalidAccountData)
        } else {
            applied_update_spec(swap_data, ssr, rho, chi, now)
        },
    }
}

/// Checks that `signer_info` may update the curve of the pool `swap_info`.
pub fn authorize_curve_update(
    program_id: &Address,
    swap_info: &AccountMeta,
    permission_info: &AccountMeta,
    permission_data: &[u8],
    signer_info: &AccountMeta,
) -> (r: Result<(), ProgramError>)
    ensures
        r == curve_update_rights_spec(
            checked_permission_spec(
                permission_address_spec(swap_info.key@, signer_info.key@),
                permission_info.key@,
                permission_info.owner@,
                permission_data@,
                swap_info.key@,
                signer_info.key@,
                program_id@,
            ),
            program_id@,
            swap_info.owner@,
            signer_info.is_signer,
        ),
{
    if !same_address(&swap_info.owner, program_id) {
        return Err(ProgramError::IllegalOwner);
    }
    if !signer_info.is_signer {
        return Err(ProgramError::MissingRequiredSignature);
    }
    let permission = Permission::unpack_permission(
        permission_info,
        permission_data,
        swap_info,
        signer_info,
        program_id,
    )?;
    permission.validate_update_params_permission()
}

/// Updates the curve of the pool in `swap_data` on behalf of `signer_info`.
/// On success the pool state holds the new record; on failure nothing is
/// written.
pub fn process_curve_update(
    program_id: &Address,
    swap_info: &AccountMeta,
    swap_data: &mut [u8],
    permission_info: &AccountMeta,
    permission_data: &[u8],
    signer_info: &AccountMeta,
    ssr: u128,
    rho: u128,
    chi: u128,
    current_timestamp: u128,
) -> (r: Result<(), ProgramError>)
    ensures
        final(swap_data)@.len() == old(swap_data)@.len(),
        match curve_update_spec(
            checked_permission_spec(
                permission_address_spec(swap_info.key@, signer_info.key@),
                permission_info.key@,
                permission_info.owner@,
                permission_data@,
                swap_info.key@,
                signer_info.key@,
                program_id@,
            ),
            program_id@,
            swap_info.owner@,
            signer_info.is_signer,
            old(swap_data)@,
            ssr,
            rho,
            chi,
            current_timestamp,
        ) {
            Ok(bytes) => r == Ok::<(), ProgramError>(()) && final(swap_data)@ == bytes,
            Err(e) => r == Err::<(), ProgramError>(e) && final(swap_data)@ == old(swap_data)@,
        },
{
    authorize_curve_update(program_id, swap_info, permission_info, permission_data, signer_info)?;
    if swap_data.len() < SWAP_STATE_LEN {
        return Err(ProgramError::InvalidAccountData);
    }
    apply_curve_update(swap_data, ssr, rho, chi, current_timestamp)
}

} // verus!
