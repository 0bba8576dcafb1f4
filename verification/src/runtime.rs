//! Constants and rules of the runtime.

use vstd::prelude::*;

verus! {

/// An amount of the chain's currency.
pub type Balance = u128;

/// One unit of the currency, as it was before its split into a hundred.
pub const DOTS: Balance = 1_000_000_000_000;

/// A hundredth of `DOTS`.
pub const DOLLARS: Balance = 10_000_000_000;

/// A hundredth of `DOLLARS`.
pub const CENTS: Balance = 100_000_000;

/// A thousandth of `CENTS`.
pub const MILLICENTS: Balance = 100_000;

/// The deposit for `items` stored items that take `bytes` bytes.
pub fn deposit(items: u32, bytes: u32) -> (d: Balance)
    ensures
        d == items * 20 * DOLLARS + bytes * 100 * MILLICENTS,
{
    assert(items * 20 * DOLLARS + bytes * 100 * MILLICENTS <= 0xffff_ffff * 20 * DOLLARS + 0xffff_ffff
        * 100 * MILLICENTS) by (nonlinear_arith)
        requires
            items <= 0xffff_ffff,
            bytes <= 0xffff_ffff,
    ;
    assert(items * 20 <= 0xffff_ffff * 20) by (nonlinear_arith)
        requires
            items <= 0xffff_ffff,
    ;
    assert(items * 20 * DOLLARS <= 0xffff_ffff * 20 * DOLLARS) by (nonlinear_arith)
        requires
            items <= 0xffff_ffff,
    ;
    assert(bytes * 100 <= 0xffff_ffff * 100) by (nonlinear_arith)
        requires
            bytes <= 0xffff_ffff,
    ;
    assert(bytes * 100 * MILLICENTS <= 0xffff_ffff * 100 * MILLICENTS) by (nonlinear_arith)
        requires
            bytes <= 0xffff_ffff,
    ;
    items as Balance * 20 * DOLLARS + (bytes as Balance) * 100 * MILLICENTS
}

/// One term of the polynomial that turns a weight into a fee: the whole
/// part of its coefficient, and the rest of it as a fraction.
#[derive(Clone, Copy, PartialEq, Eq, Debug)]
pub struct WeightToFeeCoefficient {
    pub coeff_integer: Balance,
    pub coeff_frac_numerator: Balance,
    pub coeff_frac_denominator: Balance,
    pub negative: bool,
    pub degree: u8,
}

/// Handles converting a weight scalar to a fee value, based on the scale and
/// granularity of the node's balance type.
pub struct WeightToFee;

impl WeightToFee {
    /// The one term of the polynomial: of degree 1, with the coefficient
    /// `CENTS / (10 * base_weight)`, so that the base weight of an
    /// extrinsic costs a tenth of a cent.
    pub fn polynomial(base_weight: u64) -> (c: WeightToFeeCoefficient)
        requires
            base_weight > 0,
        ensures
            c.degree == 1,
            !c.negative,
            c.coeff_frac_denominator == 10 * base_weight,
            c.coeff_integer == CENTS / (10 * base_weight) as u128,
            c.coeff_frac_numerator == CENTS % (10 * base_weight) as u128,
    {
        let p: Balance = CENTS;
        let q: Balance = 10 * (base_weight as Balance);
        WeightToFeeCoefficient {
            degree: 1,
            negative: false,
            coeff_frac_numerator: p % q,
            coeff_frac_denominator: q,
            coeff_integer: p / q,
        }
    }
}

/// What a call of the chain extension asks for.
#[derive(Clone, Copy, PartialEq, Eq, Debug)]
pub enum ExtensionCall {
    /// A function of the curve library, at the weight to charge for it.
    Curve { weight: u64 },
    /// A line for the log of the runtime.
    Log,
}

/// Why a call of the chain extension is refused.
#[derive(Clone, Copy, PartialEq, Eq, Debug)]
pub enum ExtensionError {
    /// Unimplemented func_id
    Unimplemented,
}

/// The weight of an addition on the curve.
pub const CURVE_ADD_WEIGHT: u64 = 100_000;

/// The weight of a multiplication on the curve.
pub const CURVE_MUL_WEIGHT: u64 = 8_000_000;

/// The id of the function that writes to the log of the runtime.
pub const LOGGER_FUNC_ID: u32 = 0xfeffff00;

/// The chain Extension of Europa
pub struct EuropaExt;

impl EuropaExt {
    /// What the function with id `func_id` is: a function of the curve
    /// library for the ids from `0x01000000` to `0x010000ff`, at the weight
    /// of an addition for the even ids and of a multiplication for the odd
    /// ones; the logger for its id; and unimplemented for every other id.
    pub open spec fn call_of(func_id: u32) -> Result<ExtensionCall, ExtensionError> {
        if 0x01000000 <= func_id <= 0x010000ff {
            if func_id % 2 == 0 {
                Ok(ExtensionCall::Curve { weight: CURVE_ADD_WEIGHT })
            } else {
                Ok(ExtensionCall::Curve { weight: CURVE_MUL_WEIGHT })
            }
        } else if func_id == LOGGER_FUNC_ID {
            Ok(ExtensionCall::Log)
        } else {
            Err(ExtensionError::Unimplemented)
        }
    }

    /// Decides what a call of the chain extension asks for.
    pub fn call(func_id: u32) -> (r: Result<ExtensionCall, ExtensionError>)
        ensures
            r == Self::call_of(func_id),
    {
        if 0x01000000 <= func_id && func_id <= 0x010000ff {
            let low: u32 = func_id & 0x01;
            assert(low == func_id % 2) by (bit_vector)
                requires
                    low == func_id & 0x01,
            ;
            if low == 0 {
                Ok(ExtensionCall::Curve { weight: CURVE_ADD_WEIGHT })
            } else {
                Ok(ExtensionCall::Curve { weight: CURVE_MUL_WEIGHT })
            }
        } else if func_id == LOGGER_FUNC_ID {
            Ok(ExtensionCall::Log)
        } else {
            Err(ExtensionError::Unimplemented)
        }
    }

    /// The extension is enabled.
    pub fn enabled() -> (b: bool)
        ensures
            b,
    {
        true
    }
}

} // verus!
