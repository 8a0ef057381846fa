use vstd::prelude::*;

use crate::error::ErrorKind;

verus! {

/// Largest number of bytes a lump may hold.
pub const MAX_SIZE: usize = 33_553_918;

/// Largest number of bytes a lump embedded in the journal may hold.
pub const MAX_EMBEDDED_SIZE: usize = 65_535;

/// Bytes the storage appends to each lump in the data region (its padding footer).
pub const FOOTER_SIZE: u64 = 2;

/// Identifier of a lump: a 128-bit unsigned integer.
#[derive(Clone, Copy, Debug, PartialEq, Eq, Structural, Hash, PartialOrd, Ord)]
pub struct LumpId {
    pub id: u128,
}

impl LumpId {
    pub open spec fn value(self) -> u128 {
        self.id
    }

    pub fn new(id: u128) -> (r: LumpId)
        ensures
            r.value() == id,
    {
        LumpId { id }
    }

    pub fn as_u128(&self) -> (r: u128)
        ensures
            r == self.value(),
    {
        self.id
    }
}

/// What a lump holds, as the contracts see it.
pub ghost struct LumpDataView {
    pub bytes: Seq<u8>,
    pub embedded: bool,
    pub block_size: Option<u16>,
}

/// The payload of a lump.
///
/// `embedded` data is kept inside the journal; other data goes to the data
/// region. Data allocated for a particular storage remembers that storage's
/// block size, and only a storage with the same block size accepts it.
#[derive(Debug)]
pub struct LumpData {
    bytes: Vec<u8>,
    embedded: bool,
    block_size: Option<u16>,
}

impl View for LumpData {
    type V = LumpDataView;

    closed spec fn view(&self) -> LumpDataView {
        LumpDataView { bytes: self.bytes@, embedded: self.embedded, block_size: self.block_size }
    }
}

pub open spec fn zeros(n: nat) -> Seq<u8> {
    Seq::new(n, |i: int| 0u8)
}

/// Number of bytes of the data region that a lump of `len` bytes occupies.
pub open spec fn aligned_size(len: nat, block_size: nat) -> nat
    recommends
        block_size > 0,
{
    (((len + FOOTER_SIZE + block_size - 1) as nat) / block_size) * block_size
}

impl LumpData {
    /// Plain data, to be written to the data region.
    pub fn new(bytes: Vec<u8>) -> (r: Result<LumpData, ErrorKind>)
        ensures
            bytes@.len() <= MAX_SIZE <==> r is Ok,
            r is Err ==> r->Err_0 == ErrorKind::InvalidInput,
            r is Ok ==> r->Ok_0@ == (LumpDataView { bytes: bytes@, embedded: false, block_size: None }),
    {
        if bytes.len() > MAX_SIZE {
            Err(ErrorKind::InvalidInput)
        } else {
            Ok(LumpData { bytes, embedded: false, block_size: None })
        }
    }

    /// Data small enough to be embedded in the journal.
    pub fn new_embedded(bytes: Vec<u8>) -> (r: Result<LumpData, ErrorKind>)
        ensures
            bytes@.len() <= MAX_EMBEDDED_SIZE <==> r is Ok,
            r is Err ==> r->Err_0 == ErrorKind::InvalidInput,
            r is Ok ==> r->Ok_0@ == (LumpDataView { bytes: bytes@, embedded: true, block_size: None }),
    {
        if bytes.len() > MAX_EMBEDDED_SIZE {
            Err(ErrorKind::InvalidInput)
        } else {
            Ok(LumpData { bytes, embedded: true, block_size: None })
        }
    }

    /// `size` zero bytes, allocated for a storage whose block size is `block_size`.
    pub fn aligned_allocate(size: usize, block_size: u16) -> (r: Result<LumpData, ErrorKind>)
        ensures
            size <= MAX_SIZE <==> r is Ok,
            r is Err ==> r->Err_0 == ErrorKind::InvalidInput,
            r is Ok ==> r->Ok_0@ == (LumpDataView {
                bytes: zeros(size as nat),
                embedded: false,
                block_size: Some(block_size),
            }),
    {
        if size > MAX_SIZE {
            return Err(ErrorKind::InvalidInput);
        }
        let bytes = zeroed(size);
        Ok(LumpData { bytes, embedded: false, block_size: Some(block_size) })
    }

    pub fn as_bytes(&self) -> (r: &[u8])
        ensures
            r@ == self@.bytes,
    {
        self.bytes.as_slice()
    }

    /// Replaces the bytes with `src`, which has the same length.
    pub fn copy_from(&mut self, src: &[u8])
        requires
            src@.len() == old(self)@.bytes.len(),
        ensures
            final(self)@ == (LumpDataView { bytes: src@, ..old(self)@ }),
    {
        let mut i: usize = 0;
        while i < src.len()
            invariant
                src@.len() == old(self)@.bytes.len(),
                self@.bytes.len() == src@.len(),
                self@.embedded == old(self)@.embedded,
                self@.block_size == old(self)@.block_size,
                0 <= i <= src@.len(),
                forall|j: int| 0 <= j < i ==> self@.bytes[j] == src@[j],
            decreases src@.len() - i,
        {
            self.bytes.set(i, src[i]);
            i = i + 1;
        }
        assert(self@.bytes =~= src@);
    }

    /// A copy of this data.
    pub fn duplicate(&self) -> (r: LumpData)
        ensures
            r@ == self@,
    {
        let mut bytes: Vec<u8> = Vec::new();
        let mut i: usize = 0;
        while i < self.bytes.len()
            invariant
                0 <= i <= self.bytes@.len(),
                bytes@ == self.bytes@.take(i as int),
            decreases self.bytes@.len() - i,
        {
            bytes.push(self.bytes[i]);
            i = i + 1;
            assert(bytes@ =~= self.bytes@.take(i as int));
        }
        assert(bytes@ =~= self.bytes@);
        LumpData { bytes, embedded: self.embedded, block_size: self.block_size }
    }

    pub fn into_bytes(self) -> (r: Vec<u8>)
        ensures
            r@ == self@.bytes,
    {
        self.bytes
    }

    pub fn len(&self) -> (r: usize)
        ensures
            r == self@.bytes.len(),
    {
        self.bytes.len()
    }

    pub fn is_embedded(&self) -> (r: bool)
        ensures
            r == self@.embedded,
    {
        self.embedded
    }

    pub fn block_size(&self) -> (r: Option<u16>)
        ensures
            r == self@.block_size,
    {
        self.block_size
    }
}

fn zeroed(n: usize) -> (r: Vec<u8>)
    ensures
        r@ == zeros(n as nat),
{
    let mut v: Vec<u8> = Vec::new();
    let mut i: usize = 0;
    while i < n
        invariant
            0 <= i <= n,
            v@ == zeros(i as nat),
        decreases n - i,
    {
        v.push(0u8);
        i = i + 1;
        assert(v@ =~= zeros(i as nat));
    }
    v
}

} // verus!
