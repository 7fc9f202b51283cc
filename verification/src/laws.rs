//! Laws of the checked reinterpretation, stated over the validation
//! specification and proved once for every address, element type and
//! buffer length.

use vstd::prelude::*;
use vstd::arithmetic::power2::is_pow2;
use crate::align::{
    addr_alignment, lemma_addr_alignment_divides, lemma_addr_alignment_pos,
    lemma_aligned_iff_divides,
};
use crate::view::{spec_size_align_checks, ByteViewError};

verus! {

/// Law: when the buffer's length is an exact multiple of the element size
/// and the buffer's address is a multiple of the element alignment (a power
/// of two, as every Rust alignment is), both validations pass.
pub proof fn lemma_checks_pass(addr: usize, elem_size: usize, elem_align: usize, length: usize)
    requires
        addr != 0,
        elem_size != 0,
        is_pow2(elem_align as int),
        addr as nat % elem_align as nat == 0,
        length as nat % elem_size as nat == 0,
    ensures
        spec_size_align_checks(addr, elem_size, elem_align, length) == Ok::<(), ByteViewError>(()),
{
    lemma_aligned_iff_divides(addr as nat, elem_align as nat);
}

/// Law: under adequate alignment, a length that is not an exact multiple of
/// the element size is refused as `ImproperSize`, quoting the element size
/// and the buffer's total length.  A misaligned address takes precedence:
/// the alignment validation runs first.
pub proof fn lemma_size_mismatch_reported(
    addr: usize,
    elem_size: usize,
    elem_align: usize,
    length: usize,
)
    requires
        addr != 0,
        elem_size != 0,
        is_pow2(elem_align as int),
        addr as nat % elem_align as nat == 0,
        length as nat % elem_size as nat != 0,
    ensures
        spec_size_align_checks(addr, elem_size, elem_align, length) == Err::<(), ByteViewError>(
            (ByteViewError::ImproperSize { required: elem_size, found: length }),
        ),
{
    lemma_aligned_iff_divides(addr as nat, elem_align as nat);
}

/// Law: an address whose derived alignment falls below the element's demand
/// is refused as `ImproperAlignment`, whatever the length, quoting the
/// demanded alignment and the one the address offers.
pub proof fn lemma_misalignment_reported(
    addr: usize,
    elem_size: usize,
    elem_align: usize,
    length: usize,
)
    requires
        addr != 0,
        elem_size != 0,
        is_pow2(elem_align as int),
        addr as nat % elem_align as nat != 0,
    ensures
        addr_alignment(addr as nat) < elem_align,
        is_pow2(addr_alignment(addr as nat) as int),
        spec_size_align_checks(addr, elem_size, elem_align, length) == Err::<(), ByteViewError>(
            (ByteViewError::ImproperAlignment {
                required: elem_align,
                found: addr_alignment(addr as nat) as usize,
            }),
        ),
{
    lemma_addr_alignment_divides(addr as nat);
    lemma_aligned_iff_divides(addr as nat, elem_align as nat);
}

/// Law: an element type that demands only byte alignment can never fail the
/// alignment validation, whatever the address, so for it the outcome is a
/// pure function of the element size and the buffer length.
pub proof fn lemma_byte_alignment_always_passes(addr: usize, elem_size: usize, length: usize)
    requires
        addr != 0,
        elem_size != 0,
    ensures
        spec_size_align_checks(addr, elem_size, 1, length) == (if length as nat % elem_size as nat
            == 0 {
            Ok::<(), ByteViewError>(())
        } else {
            Err::<(), ByteViewError>(
                (ByteViewError::ImproperSize { required: elem_size, found: length }),
            )
        }),
{
    lemma_addr_alignment_pos(addr as nat);
}

} // verus!
