//! A fixed-length inline byte buffer with checked and unchecked typed views.
//!
//! `ByteView` owns `LENGTH` bytes inline.  Before the buffer may be treated
//! as a sequence of elements of some type `T`, two facts must be validated
//! at runtime: the buffer's address must offer at least the alignment `T`
//! demands, and the length must be an exact multiple of `T`'s size.  The
//! checked operations run both validations and report exactly which one
//! failed; the unchecked operations skip them and simply never cover more
//! than `LENGTH` bytes.
//!
//! Producing actual `T` values out of raw bytes is a reinterpretation that
//! a verified library cannot grant; a typed view here is the validated
//! element grid over the bytes: the element count and the byte span of each
//! element, with every span proved to lie inside the buffer.

use vstd::prelude::*;
use vstd::arithmetic::div_mod::{
    lemma_fundamental_div_mod, lemma_mod_multiples_basic, lemma_div_by_multiple,
    lemma_mod_division_less_than_divisor,
};
use vstd::arithmetic::mul::{lemma_mul_inequality, lemma_mul_nonnegative};
use vstd::layout::{size_of, align_of};
use crate::align::{addr_alignment, alignment_of_address};

verus! {

broadcast use vstd::array::group_array_axioms;

/// Why a checked reinterpretation was refused.  Both fields of either
/// variant are observed values: what the element type demands and what the
/// buffer offers.
#[derive(Debug, Clone, Copy, PartialEq, Eq, Structural)]
pub enum ByteViewError {
    /// The buffer's address offers less alignment than the element type
    /// requires.  Both values are powers of two.
    ImproperAlignment { required: usize, found: usize },
    /// The buffer's total length is not an exact multiple of the element
    /// type's size.  `required` is the element size, `found` the length.
    ImproperSize { required: usize, found: usize },
}

/// The fixed alignment diagnostic sentence with the two values rendered
/// into it; a function of the two values alone.
pub uninterp spec fn alignment_sentence(required: usize, found: usize) -> Seq<char>;

/// The fixed size diagnostic sentence with the two values rendered into it;
/// a function of the two values alone.
pub uninterp spec fn size_sentence(required: usize, found: usize) -> Seq<char>;

/// Relies on alloc's `format!` macro to render the fixed alignment
/// diagnostic sentence; the rendering depends on the two values alone.
#[verifier::external_body]
fn render_alignment_error(required: usize, found: usize) -> (r: String)
    ensures
        r@ == alignment_sentence(required, found),
{
    format!(
        "type specified has alignment of {}, this field's location suggests an alignment of {}",
        required, found
    )
}

/// Relies on alloc's `format!` macro to render the fixed size diagnostic
/// sentence; the rendering depends on the two values alone.
#[verifier::external_body]
fn render_size_error(required: usize, found: usize) -> (r: String)
    ensures
        r@ == size_sentence(required, found),
{
    format!(
        "type specified requires a size that is a multiple of {}, this field's size is {}",
        required, found
    )
}

impl ByteViewError {
    /// The fixed human-readable sentence quoting the required and the found
    /// value; for diagnostics only.  Each variant renders its own sentence.
    pub fn message(&self) -> (r: String)
        ensures
            *self matches ByteViewError::ImproperAlignment { required, found } ==> r@
                == alignment_sentence(required, found),
            *self matches ByteViewError::ImproperSize { required, found } ==> r@
                == size_sentence(required, found),
    {
        match self {
            ByteViewError::ImproperAlignment { required, found } => {
                render_alignment_error(*required, *found)
            },
            ByteViewError::ImproperSize { required, found } => {
                render_size_error(*required, *found)
            },
        }
    }
}

/// A contiguous block of `LENGTH` bytes of raw storage, owned inline: the
/// bytes move with the value and no operation can shrink, grow or
/// reallocate them.  The length is part of the type's identity.
pub struct ByteView<const LENGTH: usize> {
    bytes: [u8; LENGTH],
}

impl<const LENGTH: usize> View for ByteView<LENGTH> {
    type V = Seq<u8>;

    closed spec fn view(&self) -> Seq<u8> {
        self.bytes@
    }
}

/// The outcome of the two validations for a buffer of `length` bytes at
/// address `addr`, viewed as elements of `elem_size` bytes that demand
/// `elem_align` alignment: first the alignment comparison, then the
/// divisibility of the length, each reporting the offending pair.
pub open spec fn spec_size_align_checks(
    addr: usize,
    elem_size: usize,
    elem_align: usize,
    length: usize,
) -> Result<(), ByteViewError>
    recommends
        addr != 0,
        elem_size != 0,
{
    let found = addr_alignment(addr as nat);
    if found < elem_align {
        Err(ByteViewError::ImproperAlignment { required: elem_align, found: found as usize })
    } else if length % elem_size != 0 {
        Err(ByteViewError::ImproperSize { required: elem_size, found: length })
    } else {
        Ok(())
    }
}

/// The outcome of the two validations for a buffer of `length` bytes at
/// address `addr`, viewed as elements of type `T`.
pub open spec fn spec_checks_for<T: Sized>(addr: usize, length: usize) -> Result<
    (),
    ByteViewError,
>
    recommends
        addr != 0,
        size_of::<T>() != 0,
{
    spec_size_align_checks(addr, size_of::<T>() as usize, align_of::<T>() as usize, length)
}

/// Runs the two validations on explicit values: an address, an element size
/// and alignment, and a buffer length.  The alignment the address offers is
/// derived from the address itself, never assumed from any type.
pub fn size_align_checks_at(
    addr: usize,
    elem_size: usize,
    elem_align: usize,
    length: usize,
) -> (r: Result<(), ByteViewError>)
    requires
        addr != 0,
        elem_size != 0,
    ensures
        r == spec_size_align_checks(addr, elem_size, elem_align, length),
{
    let found: usize = alignment_of_address(addr);
    if found < elem_align {
        return Err(ByteViewError::ImproperAlignment { required: elem_align, found });
    }
    if length % elem_size != 0 {
        return Err(ByteViewError::ImproperSize { required: elem_size, found: length });
    }
    Ok(())
}

/// A validated read-only element grid over a borrowed byte span: the span
/// splits exactly into elements of `elem_size` bytes each.
pub struct TypedView<'a> {
    data: &'a [u8],
    elem_size: usize,
}

impl<'a> TypedView<'a> {
    /// The bytes the view covers.
    pub closed spec fn spec_bytes(&self) -> Seq<u8> {
        self.data@
    }

    /// The byte size of one element.
    pub closed spec fn spec_elem_size(&self) -> nat {
        self.elem_size as nat
    }

    /// Well-formed: a nonzero element size, and a covered span that splits
    /// into whole elements.
    pub open spec fn wf(&self) -> bool {
        self.spec_elem_size() > 0 && self.spec_bytes().len() % self.spec_elem_size() == 0
    }

    /// The number of elements.
    pub open spec fn spec_len(&self) -> nat {
        self.spec_bytes().len() / self.spec_elem_size()
    }

    /// The bytes of element `i`.
    pub open spec fn spec_element(&self, i: int) -> Seq<u8> {
        self.spec_bytes().subrange(
            i * self.spec_elem_size() as int,
            (i + 1) * self.spec_elem_size() as int,
        )
    }

    /// The number of elements the view grants access to.
    pub fn len(&self) -> (n: usize)
        requires
            self.wf(),
        ensures
            n as nat == self.spec_len(),
    {
        self.data.len() / self.elem_size
    }

    /// The byte size of one element.
    pub fn element_size(&self) -> (n: usize)
        ensures
            n as nat == self.spec_elem_size(),
    {
        self.elem_size
    }

    /// The whole byte span the view covers.
    pub fn as_bytes(&self) -> (r: &'a [u8])
        ensures
            r@ == self.spec_bytes(),
    {
        self.data
    }

    /// The bytes of element `i`: the `i`-th span of `elem_size` bytes,
    /// proved to lie inside the covered span.
    pub fn element(&self, i: usize) -> (r: &'a [u8])
        requires
            self.wf(),
            (i as nat) < self.spec_len(),
        ensures
            r@ == self.spec_element(i as int),
            r@.len() == self.spec_elem_size(),
    {
        let n: usize = self.data.len();
        proof {
            let es: int = self.spec_elem_size() as int;
            lemma_fundamental_div_mod(n as int, es);
            assert(n as int == es * (n as int / es));
            lemma_mul_inequality(i as int + 1, self.spec_len() as int, es);
            assert((i as int) * es + es == (i as int + 1) * es) by (nonlinear_arith);
            lemma_mul_nonnegative(i as int, es);
        }
        let start: usize = i * self.elem_size;
        let end: usize = start + self.elem_size;
        vstd::slice::slice_subrange(self.data, start, end)
    }
}

/// Law: a well-formed view is a pure function of the bytes it covers and of
/// the element size, so two views taken from the same unmutated buffer with
/// the same element type agree on the element count and on every element's
/// bytes.
pub proof fn lemma_view_idempotent<'a, 'b>(v1: TypedView<'a>, v2: TypedView<'b>)
    requires
        v1.wf(),
        v2.wf(),
        v1.spec_bytes() == v2.spec_bytes(),
        v1.spec_elem_size() == v2.spec_elem_size(),
    ensures
        v1.spec_len() == v2.spec_len(),
        forall|i: int| 0 <= i < v1.spec_len() ==> v1.spec_element(i) == v2.spec_element(i),
{
}

/// Law: the floor element count never covers more than `length` bytes, so a
/// view built without the divisibility check still excludes the tail
/// remainder instead of reading past the end.
pub proof fn lemma_floor_count_within(length: nat, size: nat)
    requires
        size > 0,
    ensures
        (length / size) * size <= length,
        ((length / size) * size) % size == 0,
        ((length / size) * size) / size == length / size,
{
    let q: int = length as int / size as int;
    lemma_fundamental_div_mod(length as int, size as int);
    lemma_mod_division_less_than_divisor(length as int, size as int);
    assert(length as int == size as int * q + length as int % size as int);
    assert(q * size as int == size as int * q) by (nonlinear_arith);
    assert((length / size) as int == q);
    assert(q * size as int <= length as int);
    lemma_mod_multiples_basic((length / size) as int, size as int);
    lemma_div_by_multiple((length / size) as int, size as int);
}

/// The writable byte span of element `i` inside a span that splits into
/// elements of `elem_size` bytes: the mutable counterpart of
/// `TypedView::element`.  Writes through the result land in element `i`
/// and nowhere else; every other byte of the span keeps its value.
pub fn element_span_mut<'a>(data: &'a mut [u8], elem_size: usize, i: usize) -> (r: &'a mut [u8])
    requires
        elem_size != 0,
        (i as nat) < old(data)@.len() / (elem_size as nat),
    ensures
        r@ == old(data)@.subrange(i * elem_size as int, (i + 1) * elem_size as int),
        r@.len() == elem_size,
        final(data)@ == old(data)@.subrange(0, i * elem_size as int) + final(r)@ + old(
            data,
        )@.subrange((i + 1) * elem_size as int, old(data)@.len() as int),
{
    let n: usize = data.len();
    proof {
        lemma_floor_count_within(n as nat, elem_size as nat);
        lemma_mul_inequality(i as int + 1, (n as nat / (elem_size as nat)) as int, elem_size as int);
        assert((i as int) * (elem_size as int) + elem_size == (i as int + 1) * (elem_size as int))
            by (nonlinear_arith);
        lemma_mul_nonnegative(i as int, elem_size as int);
    }
    let end: usize = i * elem_size + elem_size;
    let (head, _tail) = data.split_at_mut(end);
    let (_pre, elem) = head.split_at_mut(end - elem_size);
    elem
}

impl<const LENGTH: usize> ByteView<LENGTH> {
    /// Relies on `<[u8]>::as_ptr` for the buffer's runtime address; the
    /// pointer derives from a reference to the inline storage, which is
    /// never null, so the address is nonzero.  Nothing else can be promised
    /// of it: where the buffer sits is the machine's choice.
    #[verifier::external_body]
    fn address(&self) -> (r: usize)
        ensures
            r != 0,
    {
        self.bytes.as_ptr() as usize
    }

    /// Law: the buffer's bytes are always exactly `LENGTH`: no operation
    /// can shrink, grow or reallocate the inline storage.
    pub proof fn lemma_length(&self)
        ensures
            self@.len() == LENGTH,
    {
    }

    /// Creates a byte view with every byte set to zero.
    pub fn zeros() -> (r: Self)
        ensures
            r@.len() == LENGTH,
            forall|i: int| 0 <= i < LENGTH ==> r@[i] == 0,
    {
        ByteView { bytes: [0; LENGTH] }
    }

    /// Creates a byte view with every byte set to `base`.
    pub fn new(base: u8) -> (r: Self)
        ensures
            r@.len() == LENGTH,
            forall|i: int| 0 <= i < LENGTH ==> r@[i] == base,
    {
        ByteView { bytes: [base; LENGTH] }
    }

    /// The underlying bytes, read-only: always exactly `LENGTH` of them.
    pub fn as_bytes(&self) -> (r: &[u8])
        ensures
            r@ == self@,
            r@.len() == LENGTH,
    {
        self.bytes.as_slice()
    }

    /// The underlying bytes, writable: any byte pattern is a legal byte
    /// pattern, so no invariant is at risk.
    pub fn as_bytes_mut(&mut self) -> (r: &mut [u8])
        ensures
            r@ == old(self)@,
            r@.len() == LENGTH,
            final(self)@ == final(r)@,
    {
        vstd::array::ref_mut_array_unsizing_coercion(&mut self.bytes)
    }

    /// Runs the two validations for element type `T` against this buffer's
    /// runtime address: the address's derived alignment against `T`'s, then
    /// the divisibility of `LENGTH` by `T`'s size.  The address is read
    /// anew on every call; the same buffer type can sit at differently
    /// aligned addresses in different places.  Zero-sized element types are
    /// excluded: no length splits into elements of no bytes.
    pub fn size_align_checks<T: Sized>(&self) -> (r: Result<(), ByteViewError>)
        requires
            size_of::<T>() != 0,
        ensures
            exists|addr: usize| #![trigger spec_checks_for::<T>(addr, LENGTH)]
                addr != 0 && r == spec_checks_for::<T>(addr, LENGTH),
    {
        vstd::layout::layout_for_type_is_valid::<T>();
        let addr: usize = self.address();
        let r = size_align_checks_at(
            addr,
            core::mem::size_of::<T>(),
            core::mem::align_of::<T>(),
            LENGTH,
        );
        proof {
            assert(addr != 0 && r == spec_checks_for::<T>(addr, LENGTH));
        }
        r
    }

    /// Attempts to view the buffer as elements of type `T`, read-only.
    /// On success the view covers the whole buffer and splits it into
    /// exactly `LENGTH / size_of::<T>()` elements; on failure the exact
    /// offending validation is reported and no view is produced.
    pub fn view_as<T: Sized>(&self) -> (r: Result<TypedView<'_>, ByteViewError>)
        requires
            size_of::<T>() != 0,
        ensures
            self@.len() == LENGTH,
            exists|addr: usize| #![trigger spec_checks_for::<T>(addr, LENGTH)]
                addr != 0 && match spec_checks_for::<T>(addr, LENGTH) {
                    Ok(_) => r is Ok,
                    Err(e) => r matches Err(e2) && e2 == e,
                },
            r is Ok ==> {
                let v = r->Ok_0;
                &&& v.wf()
                &&& v.spec_bytes() == self@
                &&& v.spec_elem_size() == size_of::<T>()
                &&& v.spec_len() == LENGTH as nat / size_of::<T>()
                &&& LENGTH as nat % size_of::<T>() == 0
            },
    {
        vstd::layout::layout_for_type_is_valid::<T>();
        let size: usize = core::mem::size_of::<T>();
        let ck: Result<(), ByteViewError> = self.size_align_checks::<T>();
        proof {
            let a: usize = choose|a: usize|
                #![trigger spec_checks_for::<T>(a, LENGTH)]
                a != 0 && ck == spec_checks_for::<T>(a, LENGTH);
            assert(a != 0 && ck == spec_checks_for::<T>(a, LENGTH));
        }
        match ck {
            Ok(_) => Ok(TypedView { data: self.bytes.as_slice(), elem_size: size }),
            Err(e) => Err(e),
        }
    }

    /// Attempts to view the buffer as elements of type `T`, writable.  The
    /// same two validations guard the access; on success the returned span
    /// is the whole buffer, whose `LENGTH` bytes split into exactly
    /// `LENGTH / size_of::<T>()` elements, and writes through it land in
    /// the buffer itself.  On failure the buffer is untouched.
    pub fn view_as_mut<T: Sized>(&mut self) -> (r: Result<&mut [u8], ByteViewError>)
        requires
            size_of::<T>() != 0,
        ensures
            old(self)@.len() == LENGTH,
            exists|addr: usize| #![trigger spec_checks_for::<T>(addr, LENGTH)]
                addr != 0 && match spec_checks_for::<T>(addr, LENGTH) {
                    Ok(_) => r is Ok,
                    Err(e) => r matches Err(e2) && e2 == e,
                },
            r is Ok ==> (r->Ok_0)@ == old(self)@ && LENGTH as nat % size_of::<T>() == 0,
            r is Ok ==> final(self)@ == final(r->Ok_0)@,
            r is Err ==> final(self)@ == old(self)@,
    {
        vstd::layout::layout_for_type_is_valid::<T>();
        let ck: Result<(), ByteViewError> = self.size_align_checks::<T>();
        proof {
            let a: usize = choose|a: usize|
                #![trigger spec_checks_for::<T>(a, LENGTH)]
                a != 0 && ck == spec_checks_for::<T>(a, LENGTH);
            assert(a != 0 && ck == spec_checks_for::<T>(a, LENGTH));
        }
        match ck {
            Ok(_) => Ok(vstd::array::ref_mut_array_unsizing_coercion(&mut self.bytes)),
            Err(e) => Err(e),
        }
    }

    /// Views the buffer as elements of type `T` without either validation,
    /// read-only.  The element count is the floor of `LENGTH` divided by
    /// `T`'s size: the view never covers more than `LENGTH` bytes, and a
    /// tail remainder shorter than one element is excluded, never read.
    /// Whether the bytes are meaningful as `T` values is the caller's
    /// contract, not a checked invariant.
    pub fn view_as_unchecked<T: Sized>(&self) -> (r: TypedView<'_>)
        requires
            size_of::<T>() != 0,
        ensures
            self@.len() == LENGTH,
            r.wf(),
            r.spec_elem_size() == size_of::<T>(),
            r.spec_len() == LENGTH as nat / size_of::<T>(),
            r.spec_bytes() == self@.subrange(
                0,
                ((LENGTH as nat / size_of::<T>()) * size_of::<T>()) as int,
            ),
            r.spec_bytes().len() <= LENGTH,
    {
        vstd::layout::layout_for_type_is_valid::<T>();
        let size: usize = core::mem::size_of::<T>();
        let count: usize = LENGTH / size;
        proof {
            lemma_floor_count_within(LENGTH as nat, size as nat);
        }
        let data: &[u8] = vstd::slice::slice_subrange(self.as_bytes(), 0, count * size);
        TypedView { data, elem_size: size }
    }

    /// Views the buffer as elements of type `T` without either validation,
    /// writable.  The returned span covers the first
    /// `(LENGTH / size_of::<T>()) * size_of::<T>()` bytes: whole elements
    /// only; a tail remainder stays out of reach and keeps its bytes.
    pub fn view_as_mut_unchecked<T: Sized>(&mut self) -> (r: &mut [u8])
        requires
            size_of::<T>() != 0,
        ensures
            old(self)@.len() == LENGTH,
            r@ == old(self)@.subrange(
                0,
                ((LENGTH as nat / size_of::<T>()) * size_of::<T>()) as int,
            ),
            r@.len() <= LENGTH,
            final(self)@ == final(r)@ + old(self)@.subrange(r@.len() as int, LENGTH as int),
    {
        vstd::layout::layout_for_type_is_valid::<T>();
        let size: usize = core::mem::size_of::<T>();
        let count: usize = LENGTH / size;
        proof {
            lemma_floor_count_within(LENGTH as nat, size as nat);
        }
        let whole: &mut [u8] = vstd::array::ref_mut_array_unsizing_coercion(&mut self.bytes);
        let (head, _tail) = whole.split_at_mut(count * size);
        head
    }
}

} // verus!
