//! Firmware images, unchecked and validated.
use vstd::prelude::*;

use crate::constants::{MAX_FIRMWARE, MIN_FIRMWARE, STACK_HIGH, STACK_LOW};
use crate::error::ErrorKind;

verus! {

/// The little-endian 32-bit word at byte `i` of `b`.
pub open spec fn le_word(b: Seq<u8>, i: int) -> int {
    b[i] as int + b[i + 1] as int * 0x100 + b[i + 2] as int * 0x10000 + b[i + 3] as int
        * 0x1000000
}

/// Word `k` of the image header: the initial stack pointer (0) and the first
/// three vector-table entries (1 to 3).
pub open spec fn header_word(b: Seq<u8>, k: int) -> int {
    le_word(b, 4 * k)
}

/// An image that may be flashed: its size lies within the accepted bounds,
/// its initial stack pointer points into RAM, and the first three vectors are
/// Thumb addresses (low bit set).
pub open spec fn valid_image(b: Seq<u8>) -> bool {
    &&& MIN_FIRMWARE <= b.len() <= MAX_FIRMWARE
    &&& STACK_LOW <= header_word(b, 0) <= STACK_HIGH
    &&& header_word(b, 1) % 2 == 1
    &&& header_word(b, 2) % 2 == 1
    &&& header_word(b, 3) % 2 == 1
}

/// An image too small or too large is refused, whatever its header holds.
pub proof fn lemma_size_refused(b: Seq<u8>)
    requires
        b.len() < MIN_FIRMWARE || b.len() > MAX_FIRMWARE,
    ensures
        !valid_image(b),
{
}

/// An image whose first vector is an even address is refused, whatever the
/// stack pointer and the other vectors hold.
pub proof fn lemma_even_vector_refused(b: Seq<u8>)
    requires
        b.len() >= 16,
        header_word(b, 1) % 2 == 0,
    ensures
        !valid_image(b),
{
}

/// An image whose stack pointer lies outside the RAM window is refused.
pub proof fn lemma_stack_refused(b: Seq<u8>)
    requires
        b.len() >= 16,
        header_word(b, 0) < STACK_LOW || header_word(b, 0) > STACK_HIGH,
    ensures
        !valid_image(b),
{
}

fn read_le_word(b: &Vec<u8>, i: usize) -> (r: u32)
    requires
        i <= 12,
        i + 4 <= b@.len(),
    ensures
        r == le_word(b@, i as int),
{
    b[i] as u32 + b[i + 1] as u32 * 0x100 + b[i + 2] as u32 * 0x10000 + b[i + 3] as u32
        * 0x1000000
}

/// An image as read, before any check.
pub struct UnsafeFirmware {
    pub inner: Vec<u8>,
}

impl UnsafeFirmware {
    pub fn new(inner: Vec<u8>) -> (r: UnsafeFirmware)
        ensures
            r.inner@ == inner@,
    {
        UnsafeFirmware { inner }
    }

    /// The four header words: stack pointer, then three vectors; `None`
    /// when the image holds fewer than 16 bytes.
    fn header(&self) -> (r: Option<[u32; 4]>)
        ensures
            r is None <==> self.inner@.len() < 16,
            r matches Some(h) ==> forall|k: int| 0 <= k < 4 ==> h@[k] == header_word(self.inner@, k),
    {
        if self.inner.len() < 16 {
            return None;
        }
        let h = [
            read_le_word(&self.inner, 0),
            read_le_word(&self.inner, 4),
            read_le_word(&self.inner, 8),
            read_le_word(&self.inner, 12),
        ];
        assert(h@[0] == header_word(self.inner@, 0));
        assert(h@[1] == header_word(self.inner@, 1));
        assert(h@[2] == header_word(self.inner@, 2));
        assert(h@[3] == header_word(self.inner@, 3));
        Some(h)
    }

    pub fn len(&self) -> (r: usize)
        ensures
            r == self.inner@.len(),
    {
        self.inner.len()
    }

    pub fn is_empty(&self) -> (r: bool)
        ensures
            r == (self.inner@.len() == 0),
    {
        self.inner.len() == 0
    }

    /// Accepts the image exactly when it is valid; `InvalidFirmware` otherwise.
    pub fn check(&self) -> (r: Result<(), ErrorKind>)
        ensures
            r is Ok <==> valid_image(self.inner@),
            r is Err ==> r == Err::<(), ErrorKind>(ErrorKind::InvalidFirmware),
    {
        if self.inner.len() < MIN_FIRMWARE || self.inner.len() > MAX_FIRMWARE {
            return Err(ErrorKind::InvalidFirmware);
        }
        let h = match self.header() {
            Some(h) => h,
            None => {
                return Err(ErrorKind::InvalidFirmware);
            },
        };
        let sp = h[0];
        if sp < STACK_LOW || sp > STACK_HIGH || h[1] % 2 != 1 || h[2] % 2 != 1 || h[3] % 2 != 1 {
            return Err(ErrorKind::InvalidFirmware);
        }
        Ok(())
    }
}

/// An image that passed every structural check. Only `Firmware::validate`
/// makes one.
pub struct Firmware {
    inner: Vec<u8>,
}

impl View for Firmware {
    type V = Seq<u8>;

    closed spec fn view(&self) -> Seq<u8> {
        self.inner@
    }
}

impl Firmware {
    #[verifier::type_invariant]
    spec fn inv(&self) -> bool {
        valid_image(self.inner@)
    }

    /// Checks an image; on success it becomes a `Firmware`, holding the same
    /// bytes.
    pub fn validate(image: UnsafeFirmware) -> (r: Result<Firmware, ErrorKind>)
        ensures
            match r {
                Ok(f) => f@ == image.inner@ && valid_image(f@),
                Err(e) => e == ErrorKind::InvalidFirmware && !valid_image(image.inner@),
            },
    {
        match image.check() {
            Ok(()) => Ok(Firmware { inner: image.inner }),
            Err(e) => Err(e),
        }
    }

    pub fn len(&self) -> (r: usize)
        ensures
            r == self@.len(),
            valid_image(self@),
    {
        proof {
            use_type_invariant(self);
        }
        self.inner.len()
    }

    pub fn is_empty(&self) -> (r: bool)
        ensures
            r == (self@.len() == 0),
            !r,
    {
        proof {
            use_type_invariant(self);
        }
        self.inner.len() == 0
    }

    /// The validated bytes.
    pub fn into_inner(self) -> (r: Vec<u8>)
        ensures
            r@ == self@,
            valid_image(r@),
    {
        proof {
            use_type_invariant(&self);
        }
        self.inner
    }
}

} // verus!
