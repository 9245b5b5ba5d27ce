//! Framing checks for encoded metadata values.

use vstd::prelude::*;

use crate::error::{invalid_data, invalid_data_error, IoError, Reason};

verus! {

/// Checks that decoding consumed every byte of the encoded value.
pub fn ensure_fully_consumed(consumed: usize, data_len: usize) -> (r: Result<(), IoError>)
    ensures
        r == (if consumed != data_len {
            Err(invalid_data_error(Reason::TrailingBytes))
        } else {
            Ok::<(), IoError>(())
        }),
{
    if consumed != data_len {
        return Err(invalid_data(Reason::TrailingBytes));
    }
    Ok(())
}

} // verus!
