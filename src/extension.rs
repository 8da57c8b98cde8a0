use vstd::prelude::*;
use vstd::std_specs::convert::FromSpec;

verus! {

/// Completes a chain-extension call from the status code and the output
/// buffer that the host returned.
///
/// `status_to_result` sees the status first. Where it maps the status to an
/// error code, that error comes back converted and `decode_to_result` is never
/// called; where it maps it to success, `decode_to_result` is called once, on
/// the host's output buffer as it stands, and its result is returned.
pub fn dispatch_extension_output<T, E, ErrorCode, F, D>(
    status: u32,
    output: &[u8],
    status_to_result: F,
    decode_to_result: D,
) -> (r: Result<T, E>) where
    E: From<ErrorCode>,
    F: FnOnce(u32) -> Result<(), ErrorCode>,
    D: FnOnce(&[u8]) -> Result<T, E>,

    requires
        status_to_result.requires((status,)),
        forall|s: Result<(), ErrorCode>|
            #[trigger] status_to_result.ensures((status,), s) && s is Ok
                ==> decode_to_result.requires((output,)),
    ensures
        exists|s: Result<(), ErrorCode>|
            #[trigger] status_to_result.ensures((status,), s) && match s {
                Ok(_) => decode_to_result.ensures((output,), r),
                Err(c) => r is Err && (E::obeys_from_spec() ==> r == Err::<T, E>(E::from_spec(c))),
            },
{
    match status_to_result(status) {
        Ok(()) => decode_to_result(output),
        Err(c) => Err(E::from(c)),
    }
}

} // verus!
