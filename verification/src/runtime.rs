//! The PHP engine: what it is given, and what its status codes mean.
use vstd::prelude::*;

use crate::error::ErrorView;
use crate::error::ServerError;
use vstd::utf8::encode_utf8;

verus! {

/// The name that the engine is started under.
pub const ENGINE_NAME: &'static str = "rustenphp-embed";

/// The name that the engine gives to the code it runs.
pub const CODE_NAME: &'static str = "rustenphp eval";

/// Reads the status that the engine starts with: zero is success.
pub fn boot_outcome(status: i32) -> (outcome: Result<(), ServerError>)
    ensures
        match outcome {
            Ok(_) => status == 0,
            Err(e) => status != 0 && e@ == (ErrorView::Boot { status: status as int }),
        },
{
    if status != 0 {
        Err(ServerError::Boot { status })
    } else {
        Ok(())
    }
}

/// The bytes that the engine is given for some code, without the null byte that
/// ends them: the code must not hold one itself.
pub fn code_bytes(php: &str) -> (bytes: Result<Vec<u8>, ServerError>)
    ensures
        match bytes {
            Ok(b) => b@ == encode_utf8(php@) && !encode_utf8(php@).contains(0u8),
            Err(e) => e@ == ErrorView::NullByte && encode_utf8(php@).contains(0u8),
        },
{
    let source = php.as_bytes();
    let mut bytes: Vec<u8> = Vec::new();
    for i in 0..source.len()
        invariant
            source@ == encode_utf8(php@),
            bytes@ == source@.take(i as int),
            forall|k: int| 0 <= k < i ==> source@[k] != 0,
    {
        let b = source[i];
        if b == 0 {
            assert(source@[i as int] == 0);
            return Err(ServerError::NullByte);
        }
        bytes.push(b);
        assert(source@.take(i + 1) == source@.take(i as int).push(b));
    }
    assert(source@.take(source@.len() as int) == source@);
    Ok(bytes)
}

/// Reads the status that the engine ends some code with: zero is success.
pub fn eval_outcome(status: i32) -> (outcome: Result<(), ServerError>)
    ensures
        match outcome {
            Ok(_) => status == 0,
            Err(e) => status != 0 && e@ == (ErrorView::Eval { status: status as int }),
        },
{
    if status == 0 {
        Ok(())
    } else {
        Err(ServerError::Eval { status })
    }
}

} // verus!
