//! The three operations of the registry as the host invokes them: each
//! mutating or reading call arrives with its parameter as raw bytes, which
//! are decoded before anything else happens; malformed bytes fail the call
//! with a decoding error and leave the store untouched.

use crate::codec::{decode_receipt, decode_string, spec_decode_receipt, spec_decode_string};
use crate::receipt::{Receipt, ReceiptEmitted, ReceiptView};
use crate::store::{lookup, view_option, State};
use vstd::prelude::*;

verus! {

/// The one error of the registry: the call's parameter bytes could not be
/// decoded into the expected structure.
#[derive(Clone, Copy, PartialEq, Eq, Structural, Debug)]
pub struct ParseError;

/// Creates an empty store. Always succeeds.
pub fn init() -> (s: State)
    ensures
        s.wf(),
        s@ == Map::<Seq<char>, ReceiptView>::empty(),
{
    State::new()
}

/// Mints the receipt encoded in `param`: decodes it, stores it under its
/// own identifier (overwriting any earlier receipt there), and returns the
/// one notification of the mint. If the bytes are malformed the call fails
/// and the store is left exactly as it was.
pub fn mint_receipt(state: &mut State, param: &[u8]) -> (res: Result<ReceiptEmitted, ParseError>)
    requires
        old(state).wf(),
    ensures
        final(state).wf(),
        res is Ok <==> spec_decode_receipt(param@) is Some,
        res is Ok ==> {
            let rv = spec_decode_receipt(param@).unwrap();
            &&& final(state)@ == old(state)@.insert(rv.receipt_id, rv)
            &&& res.unwrap()@.receipt_id == rv.receipt_id
            &&& res.unwrap()@.tx_hash == rv.tx_hash
            &&& res.unwrap()@.ts_unix == rv.ts_unix
        },
        res is Err ==> *final(state) == *old(state),
{
    match decode_receipt(param) {
        Some(receipt) => {
            let e = state.mint(receipt);
            Ok(e)
        },
        None => Err(ParseError),
    }
}

/// Looks up the receipt whose identifier is encoded in `param`: decodes the
/// identifier and returns the stored receipt under it, or nothing if that
/// identifier was never minted. If the bytes are malformed the call fails.
/// A pure read: the store is never touched.
pub fn get_receipt(state: &State, param: &[u8]) -> (res: Result<Option<Receipt>, ParseError>)
    requires
        state.wf(),
    ensures
        res is Ok <==> spec_decode_string(param@, 0) is Some,
        res is Ok ==> view_option(res.unwrap()) == lookup(
            state@,
            spec_decode_string(param@, 0).unwrap().0,
        ),
{
    match decode_string(param, 0) {
        Some((receipt_id, _end)) => Ok(state.get(&receipt_id)),
        None => Err(ParseError),
    }
}

} // verus!
