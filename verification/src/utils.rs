use vstd::prelude::*;

verus! {

/// Errors reported by the resource manager. Every operation validates its
/// inputs before mutating anything, so a call that returns an error leaves
/// all state unchanged.
#[derive(Clone, Copy, Debug, PartialEq, Eq, Structural)]
pub enum RenderError {
    /// An unknown or already-removed mesh or instance handle.
    InvalidHandle,
    /// A slot index outside the dense range of an instance buffer.
    InvalidSlot,
    /// Malformed input data (empty or misaligned mesh data, wrong-length
    /// transform).
    ValidationError,
    /// The device cannot supply enough per-instance storage for even one
    /// instance.
    CapacityError,
    /// A device resource could not be created or a device call failed. Only
    /// the unverified device shell produces this variant.
    DeviceError,
}

/// Number of 32-bit words in a column-major 4x4 transform.
pub const MATRIX_FLOATS: usize = 16;

/// A 4x4 transform, stored as the bit patterns of its sixteen
/// single-precision components in column-major order. The manager never
/// interprets the numeric values; it only stores and moves them.
pub type Matrix = [u32; 16];

/// Bit pattern of the single-precision number one.
pub const FLOAT_ONE_BITS: u32 = 0x3f800000;

/// The identity transform (ones on the diagonal, zeroes elsewhere), as bit
/// patterns.
pub open spec fn spec_identity_matrix() -> Seq<u32> {
    Seq::new(16, |i: int| if i == 0 || i == 5 || i == 10 || i == 15 {
        FLOAT_ONE_BITS
    } else {
        0u32
    })
}

/// Builds the identity transform.
pub fn identity_matrix() -> (out: Matrix)
    ensures
        out@ == spec_identity_matrix(),
{
    let mut out: Matrix = [0u32; 16];
    out[0] = FLOAT_ONE_BITS;
    out[5] = FLOAT_ONE_BITS;
    out[10] = FLOAT_ONE_BITS;
    out[15] = FLOAT_ONE_BITS;
    proof {
        assert(out@ =~= spec_identity_matrix());
    }
    out
}

/// Checks that `words` holds exactly one transform and copies it out;
/// rejects any other length.
pub fn matrix_from_words(words: &Vec<u32>) -> (result: Result<Matrix, RenderError>)
    ensures
        words@.len() == MATRIX_FLOATS <==> result is Ok,
        result matches Ok(m) ==> m@ == words@,
        result matches Err(e) ==> e == RenderError::ValidationError,
{
    if words.len() != MATRIX_FLOATS {
        return Err(RenderError::ValidationError);
    }
    let mut out: Matrix = [0u32; 16];
    let mut i: usize = 0;
    while i < 16
        invariant
            i <= 16,
            words@.len() == 16,
            forall|j: int| 0 <= j < i ==> out@[j] == words@[j],
        decreases 16 - i,
    {
        out[i] = words[i];
        i = i + 1;
    }
    proof {
        assert(out@ =~= words@);
    }
    Ok(out)
}

} // verus!
