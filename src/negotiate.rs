//! The request/verify pattern of negotiation: what was asked of the device is
//! compared with what the device reports back.
use vstd::prelude::*;
use crate::error::Error;

verus! {

/// A capture format as the device protocol carries it.
#[derive(Clone, Copy, Debug, PartialEq, Eq, Structural)]
pub struct FormatRequest {
    pub width: u32,
    pub height: u32,
    /// The pixel-format code as a number.
    pub fourcc: u32,
    /// The field mode as a number.
    pub field: u32,
}

/// The verdict on a format that the device accepted: the pixel format first,
/// then the resolution, then the field mode.
pub open spec fn format_outcome(req: FormatRequest, reply: FormatRequest) -> Result<(), Error> {
    if reply.fourcc != req.fourcc {
        Err(Error::BadFormat)
    } else if reply.width != req.width || reply.height != req.height {
        Err(Error::BadResolution)
    } else if reply.field != req.field {
        Err(Error::BadField)
    } else {
        Ok(())
    }
}

/// An interval that the device reports honours the requested one when both
/// cross products are nonzero and equal.
pub open spec fn interval_honoured(req: (u32, u32), reply: (u32, u32)) -> bool {
    let x = reply.0 as int * req.1 as int;
    let y = reply.1 as int * req.0 as int;
    x != 0 && y != 0 && x == y
}

/// Compares the format that the device reports with the one asked for.
pub fn format_verdict(req: &FormatRequest, reply: &FormatRequest) -> (r: Result<(), Error>)
    ensures
        r == format_outcome(*req, *reply),
{
    if reply.fourcc != req.fourcc {
        Err(Error::BadFormat)
    } else if reply.width != req.width || reply.height != req.height {
        Err(Error::BadResolution)
    } else if reply.field != req.field {
        Err(Error::BadField)
    } else {
        Ok(())
    }
}

/// Compares the frame interval that the device reports, as numerator and
/// denominator, with the one asked for, by cross-multiplication.
pub fn interval_verdict(req: (u32, u32), reply: (u32, u32)) -> (r: Result<(), Error>)
    ensures
        r == (if interval_honoured(req, reply) { Ok(()) } else { Err(Error::BadInterval) }),
{
    let (a, b, c, d) = (reply.0 as u64, req.1 as u64, reply.1 as u64, req.0 as u64);
    assert(a * b <= 0xffff_ffff * 0xffff_ffff && c * d <= 0xffff_ffff * 0xffff_ffff) by (nonlinear_arith)
        requires
            a <= 0xffff_ffff,
            b <= 0xffff_ffff,
            c <= 0xffff_ffff,
            d <= 0xffff_ffff,
    ;
    let x: u64 = a * b;
    let y: u64 = c * d;
    if x == 0 || y == 0 || x != y {
        Err(Error::BadInterval)
    } else {
        Ok(())
    }
}

} // verus!
