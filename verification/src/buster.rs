use vstd::prelude::*;

verus! {

/// Relies on `u8::try_from` for `i32`: succeeds exactly on the values a
/// byte holds, returning the value itself.
#[verifier::external_body]
fn u8_from_i32(z: i32) -> (r: Result<u8, core::num::TryFromIntError>)
    ensures
        r is Ok <==> 0 <= z <= 255,
        r is Ok ==> r->Ok_0 == z,
{
    u8::try_from(z)
}

/// Narrows a constant that no byte holds, so the narrowing error always
/// comes back.
pub fn be_busted() -> (r: Result<u8, core::num::TryFromIntError>)
    ensures
        r is Err,
{
    let z: i32 = 2567;
    match u8_from_i32(z) {
        Ok(u) => Ok(u),
        Err(e) => Err(e),
    }
}

} // verus!
