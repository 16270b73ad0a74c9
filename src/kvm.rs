//! C-layout structs of the KVM interface, and the integer types they are built
//! from, described for the codecs of the `ffi` module. Images are those of the
//! C layout on a little-endian host.

use crate::ffi::SizeofFamStruct;
use vstd::prelude::*;

verus! {

/// Little-endian bytes of a `u32`.
pub open spec fn u32_bytes(x: u32) -> Seq<u8> {
    seq![x as u8, (x >> 8u32) as u8, (x >> 16u32) as u8, (x >> 24u32) as u8]
}

/// Little-endian bytes of a `u64`.
pub open spec fn u64_bytes(x: u64) -> Seq<u8> {
    u32_bytes(x as u32) + u32_bytes((x >> 32u64) as u32)
}

fn u32_to_bytes(x: u32, out: &mut Vec<u8>)
    ensures
        final(out)@ == old(out)@ + u32_bytes(x),
{
    out.push(x as u8);
    out.push((x >> 8u32) as u8);
    out.push((x >> 16u32) as u8);
    out.push((x >> 24u32) as u8);
    assert(final(out)@ =~= old(out)@ + u32_bytes(x));
}

fn u64_to_bytes(x: u64, out: &mut Vec<u8>)
    ensures
        final(out)@ == old(out)@ + u64_bytes(x),
{
    u32_to_bytes(x as u32, out);
    u32_to_bytes((x >> 32u64) as u32, out);
    assert(final(out)@ =~= old(out)@ + u64_bytes(x));
}

fn u32_from_bytes(bytes: &[u8], at: usize) -> (r: u32)
    requires
        at + 4 <= bytes@.len(),
    ensures
        u32_bytes(r) == bytes@.subrange(at as int, at + 4),
{
    let b0 = bytes[at];
    let b1 = bytes[at + 1];
    let b2 = bytes[at + 2];
    let b3 = bytes[at + 3];
    let r = (b0 as u32) | ((b1 as u32) << 8u32) | ((b2 as u32) << 16u32) | ((b3 as u32) << 24u32);
    assert(r as u8 == b0 && (r >> 8u32) as u8 == b1 && (r >> 16u32) as u8 == b2 && (r >> 24u32)
        as u8 == b3) by (bit_vector)
        requires
            r == (b0 as u32) | ((b1 as u32) << 8u32) | ((b2 as u32) << 16u32) | ((b3 as u32)
                << 24u32),
    ;
    assert(u32_bytes(r) =~= bytes@.subrange(at as int, at + 4));
    r
}

fn u64_from_bytes(bytes: &[u8], at: usize) -> (r: u64)
    requires
        at + 8 <= bytes@.len(),
    ensures
        u64_bytes(r) == bytes@.subrange(at as int, at + 8),
{
    let lo = u32_from_bytes(bytes, at);
    let len = bytes.len();
    assert(at + 4 < len);
    let hi = u32_from_bytes(bytes, at + 4);
    let r = (lo as u64) | ((hi as u64) << 32u64);
    assert(r as u32 == lo && (r >> 32u64) as u32 == hi) by (bit_vector)
        requires
            r == (lo as u64) | ((hi as u64) << 32u64),
    ;
    assert(u64_bytes(r) =~= bytes@.subrange(at as int, at + 8));
    r
}

impl SizeofFamStruct for u32 {
    open spec fn spec_static_size() -> nat {
        4
    }

    open spec fn image(&self) -> Seq<u8> {
        u32_bytes(*self)
    }

    open spec fn size_of_image(header: Seq<u8>) -> nat {
        4
    }

    proof fn lemma_image_len(&self) {
    }

    proof fn lemma_size_at_least_static(header: Seq<u8>) {
    }

    fn static_size_of() -> (r: usize) {
        4
    }

    fn size_of(&self) -> (r: usize) {
        4
    }

    fn to_image(&self) -> (r: Vec<u8>) {
        let mut out: Vec<u8> = Vec::new();
        u32_to_bytes(*self, &mut out);
        assert(out@ =~= u32_bytes(*self));
        out
    }

    fn from_image(bytes: &[u8]) -> (r: u32) {
        let r = u32_from_bytes(bytes, 0);
        assert(bytes@.subrange(0, 4) =~= bytes@);
        r
    }
}


/// The `u32` whose little-endian bytes are the first four of `b`.
pub open spec fn u32_value(b: Seq<u8>) -> u32
    recommends
        b.len() >= 4,
{
    (b[0] as u32) | ((b[1] as u32) << 8u32) | ((b[2] as u32) << 16u32) | ((b[3] as u32) << 24u32)
}

proof fn lemma_u32_value_of_bytes(x: u32)
    ensures
        u32_value(u32_bytes(x)) == x,
{
    let b0 = x as u8;
    let b1 = (x >> 8u32) as u8;
    let b2 = (x >> 16u32) as u8;
    let b3 = (x >> 24u32) as u8;
    assert(x == (b0 as u32) | ((b1 as u32) << 8u32) | ((b2 as u32) << 16u32) | ((b3 as u32)
        << 24u32)) by (bit_vector)
        requires
            b0 == x as u8,
            b1 == (x >> 8u32) as u8,
            b2 == (x >> 16u32) as u8,
            b3 == (x >> 24u32) as u8,
    ;
}

/// `struct kvm_memory_alias`: a fixed-size struct of 32 bytes.
#[derive(Debug, Default, Copy, Clone, PartialEq, Eq, Structural)]
pub struct KvmMemoryAlias {
    pub slot: u32,
    pub flags: u32,
    pub guest_phys_addr: u64,
    pub memory_size: u64,
    pub target_phys_addr: u64,
}

impl SizeofFamStruct for KvmMemoryAlias {
    open spec fn spec_static_size() -> nat {
        32
    }

    open spec fn image(&self) -> Seq<u8> {
        u32_bytes(self.slot) + u32_bytes(self.flags) + u64_bytes(self.guest_phys_addr) + u64_bytes(
            self.memory_size,
        ) + u64_bytes(self.target_phys_addr)
    }

    open spec fn size_of_image(header: Seq<u8>) -> nat {
        32
    }

    proof fn lemma_image_len(&self) {
    }

    proof fn lemma_size_at_least_static(header: Seq<u8>) {
    }

    fn static_size_of() -> (r: usize) {
        32
    }

    fn size_of(&self) -> (r: usize) {
        32
    }

    fn to_image(&self) -> (r: Vec<u8>) {
        let mut out: Vec<u8> = Vec::new();
        u32_to_bytes(self.slot, &mut out);
        u32_to_bytes(self.flags, &mut out);
        u64_to_bytes(self.guest_phys_addr, &mut out);
        u64_to_bytes(self.memory_size, &mut out);
        u64_to_bytes(self.target_phys_addr, &mut out);
        assert(out@ =~= self.image());
        out
    }

    fn from_image(bytes: &[u8]) -> (r: KvmMemoryAlias) {
        let r = KvmMemoryAlias {
            slot: u32_from_bytes(bytes, 0),
            flags: u32_from_bytes(bytes, 4),
            guest_phys_addr: u64_from_bytes(bytes, 8),
            memory_size: u64_from_bytes(bytes, 16),
            target_phys_addr: u64_from_bytes(bytes, 24),
        };
        assert(r.image() =~= bytes@);
        r
    }
}

/// Fixed part of `struct kvm_msrs`: `nmsrs` entries of eight bytes each follow it.
/// The object spans `8 + 8 * nmsrs` bytes.
#[derive(Debug, Default, Copy, Clone, PartialEq, Eq, Structural)]
pub struct KvmMsrs {
    pub nmsrs: u32,
    pub pad: u32,
}

impl SizeofFamStruct for KvmMsrs {
    open spec fn spec_static_size() -> nat {
        8
    }

    open spec fn image(&self) -> Seq<u8> {
        u32_bytes(self.nmsrs) + u32_bytes(self.pad)
    }

    /// Eight bytes for the fixed part and each entry; a size beyond the
    /// address space (on a 32-bit host) saturates at `usize::MAX`.
    open spec fn size_of_image(header: Seq<u8>) -> nat {
        let size = 8 + 8 * u32_value(header) as nat;
        if size <= usize::MAX {
            size
        } else {
            usize::MAX as nat
        }
    }

    proof fn lemma_image_len(&self) {
    }

    proof fn lemma_size_at_least_static(header: Seq<u8>) {
    }

    fn static_size_of() -> (r: usize) {
        8
    }

    fn size_of(&self) -> (r: usize) {
        proof {
            lemma_u32_value_of_bytes(self.nmsrs);
            assert(u32_value(self.image()) == u32_value(u32_bytes(self.nmsrs)));
        }
        let size = self.nmsrs as u64 * 8 + 8;
        if size <= usize::MAX as u64 {
            size as usize
        } else {
            usize::MAX
        }
    }

    fn to_image(&self) -> (r: Vec<u8>) {
        let mut out: Vec<u8> = Vec::new();
        u32_to_bytes(self.nmsrs, &mut out);
        u32_to_bytes(self.pad, &mut out);
        assert(out@ =~= self.image());
        out
    }

    fn from_image(bytes: &[u8]) -> (r: KvmMsrs) {
        let r = KvmMsrs { nmsrs: u32_from_bytes(bytes, 0), pad: u32_from_bytes(bytes, 4) };
        assert(r.image() =~= bytes@);
        r
    }
}

} // verus!
