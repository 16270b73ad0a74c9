//! Fixed-size and flexible-array codecs between C-layout structs and byte buffers.

use serde_bytes::ByteBuf;
use vstd::arithmetic::div_mod::lemma_fundamental_div_mod;
use vstd::prelude::*;

verus! {

/// `serde_bytes::ByteBuf`, the owned byte buffer that the codecs produce and take.
#[verifier::external_type_specification]
#[verifier::external_body]
pub struct ExByteBuf(serde_bytes::ByteBuf);

/// The bytes held by a `ByteBuf`.
pub uninterp spec fn byte_buf_contents(b: ByteBuf) -> Seq<u8>;

/// Relies on `serde_bytes::ByteBuf::from`, which wraps the vector as it is.
#[verifier::external_body]
fn byte_buf_from_vec(bytes: Vec<u8>) -> (r: ByteBuf)
    ensures
        byte_buf_contents(r) == bytes@,
{
    ByteBuf::from(bytes)
}

/// Relies on `serde_bytes::ByteBuf::into_vec`, which hands back the wrapped vector.
#[verifier::external_body]
fn byte_buf_into_vec(b: ByteBuf) -> (r: Vec<u8>)
    ensures
        r@ == byte_buf_contents(b),
{
    b.into_vec()
}

/// Size and memory-layout information about an FFI object.
///
/// A value's fixed part occupies `static_size_of()` bytes; a type with a
/// flexible array member stores further elements right after it, and its
/// header says how many bytes the whole object spans (`size_of`).
/// Every byte pattern of the right length is the image of a value.
pub trait SizeofFamStruct: Sized {
    /// Number of bytes of the fixed part of the type.
    spec fn spec_static_size() -> nat;

    /// Memory image of the value's fixed part.
    spec fn image(&self) -> Seq<u8>;

    /// Number of bytes that an object whose fixed part has image `header` spans.
    spec fn size_of_image(header: Seq<u8>) -> nat;

    proof fn lemma_image_len(&self)
        ensures
            self.image().len() == Self::spec_static_size(),
    ;

    proof fn lemma_size_at_least_static(header: Seq<u8>)
        requires
            header.len() == Self::spec_static_size(),
        ensures
            Self::spec_static_size() <= Self::size_of_image(header),
    ;

    /// Size of the fixed part of the type.
    fn static_size_of() -> (r: usize)
        ensures
            r == Self::spec_static_size(),
    ;

    /// Actual size of the object, flexible array included.
    fn size_of(&self) -> (r: usize)
        ensures
            r == Self::size_of_image(self.image()),
    ;

    /// The bytes of the value's fixed part.
    fn to_image(&self) -> (r: Vec<u8>)
        ensures
            r@ == self.image(),
    ;

    /// The value whose fixed part has the given bytes.
    fn from_image(bytes: &[u8]) -> (r: Self)
        requires
            bytes@.len() == Self::spec_static_size(),
        ensures
            r.image() == bytes@,
    ;
}

/// The images of consecutive struct-sized slots, laid end to end.
pub open spec fn flatten<T: SizeofFamStruct>(entries: Seq<T>) -> Seq<u8>
    decreases entries.len(),
{
    if entries.len() == 0 {
        Seq::empty()
    } else {
        flatten(entries.drop_last()) + entries.last().image()
    }
}

/// Number of struct-sized slots needed to hold `n` bytes.
pub open spec fn slot_count(n: nat, s: nat) -> nat
    recommends
        s > 0,
{
    if n % s == 0 {
        n / s
    } else {
        n / s + 1
    }
}

pub proof fn lemma_flatten_len<T: SizeofFamStruct>(entries: Seq<T>)
    ensures
        flatten(entries).len() == entries.len() * T::spec_static_size(),
    decreases entries.len(),
{
    if entries.len() > 0 {
        lemma_flatten_len(entries.drop_last());
        entries.last().lemma_image_len();
        let k = entries.len() as int;
        let s = T::spec_static_size() as int;
        assert((k - 1) * s + s == k * s) by (nonlinear_arith);
    }
}

proof fn lemma_flatten_push<T: SizeofFamStruct>(entries: Seq<T>, x: T)
    ensures
        flatten(entries.push(x)) == flatten(entries) + x.image(),
{
    assert(entries.push(x).drop_last() =~= entries);
}

pub proof fn lemma_flatten_single<T: SizeofFamStruct>(x: T)
    ensures
        flatten(seq![x]) == x.image(),
{
    assert(seq![x] =~= Seq::<T>::empty().push(x));
    lemma_flatten_push(Seq::<T>::empty(), x);
    assert(flatten(Seq::<T>::empty()) =~= Seq::<u8>::empty());
    assert(Seq::<u8>::empty() + x.image() =~= x.image());
}

/// Bytes that serializing a fixed-size value produces.
pub open spec fn fixed_encoded<T: SizeofFamStruct>(v: T) -> Seq<u8> {
    v.image()
}

/// Serialize an FFI object, whose runtime size is that of its fixed part, into a `ByteBuf`.
pub fn serialize_ffi<T: SizeofFamStruct>(something: &T) -> (r: ByteBuf)
    requires
        T::size_of_image(something.image()) == T::spec_static_size(),
    ensures
        byte_buf_contents(r) == fixed_encoded(*something),
{
    byte_buf_from_vec(something.to_image())
}


/// Outcome of decoding `data` as one fixed-size value: the value's image must be
/// exactly `data`, or the error carries the expected and the actual length.
pub open spec fn fixed_decoded<T: SizeofFamStruct>(data: Seq<u8>, r: Result<T, (usize, usize)>) -> bool {
    if data.len() == T::spec_static_size() {
        r matches Ok(v) && v.image() == data
    } else {
        r matches Err(e) && e.0 == T::spec_static_size() && e.1 == data.len()
    }
}

/// Deserialize an FFI object from a `ByteBuf` holding exactly its fixed part.
pub fn deserialize_ffi<T>(serialized: ByteBuf) -> (r: Result<T, (usize, usize)>)
    where
        T: SizeofFamStruct + Default + Clone,
    ensures
        fixed_decoded(byte_buf_contents(serialized), r),
{
    let data = byte_buf_into_vec(serialized);
    let size = T::static_size_of();
    if data.len() != size {
        Err((size, data.len()))
    } else {
        Ok(T::from_image(data.as_slice()))
    }
}

/// Bytes that serializing a flexible-array object produces: the runtime extent
/// that the header of the first slot claims, read across the slots.
pub open spec fn fam_encoded<T: SizeofFamStruct>(entries: Seq<T>) -> Seq<u8>
    recommends
        entries.len() > 0,
{
    flatten(entries).take(T::size_of_image(entries[0].image()) as int)
}

/// Serialize an FFI object with a flexible array as its last field into a
/// `ByteBuf`. The object starts in the first slot of `entries`, and its
/// trailing elements lie in the slots that follow it.
pub fn serialize_ffi_fam<T: SizeofFamStruct>(entries: &[T]) -> (r: ByteBuf)
    requires
        entries@.len() > 0,
        T::size_of_image(entries@[0].image()) <= entries@.len() * T::spec_static_size(),
    ensures
        byte_buf_contents(r) == fam_encoded(entries@),
{
    let size = entries[0].size_of();
    let mut out: Vec<u8> = Vec::with_capacity(size);
    let mut i: usize = 0;
    while out.len() < size
        invariant
            size == T::size_of_image(entries@[0].image()),
            size <= entries@.len() * T::spec_static_size(),
            out@.len() <= size,
            i <= entries@.len(),
            out@ == flatten(entries@.take(i as int)).take(out@.len() as int),
            out@.len() <= i * T::spec_static_size(),
            out@.len() < size ==> out@.len() == i * T::spec_static_size(),
        decreases size - out@.len(),
    {
        proof {
            let k = entries@.len() as int;
            let s = T::spec_static_size() as int;
            assert(i < k && s > 0) by (nonlinear_arith)
                requires
                    i * s < size,
                    size <= k * s,
                    0 <= s,
                    0 <= i,
            ;
            lemma_flatten_len(entries@.take(i as int));
            if i == entries@.len() {
                assert(entries@.take(i as int) =~= entries@);
            }
        }
        let img = entries[i].to_image();
        proof {
            entries@[i as int].lemma_image_len();
            assert(entries@.take(i + 1) =~= entries@.take(i as int).push(entries@[i as int]));
            lemma_flatten_push(entries@.take(i as int), entries@[i as int]);
        }
        let ghost before = out@;
        let mut j: usize = 0;
        while j < img.len() && out.len() < size
            invariant
                out@.len() <= size,
                j <= img@.len(),
                out@ == before + img@.take(j as int),
                out@.len() == before.len() + j,
            decreases img@.len() - j,
        {
            out.push(img[j]);
            j = j + 1;
            assert(img@.take(j as int) =~= img@.take(j - 1).push(img@[j - 1]));
        }
        proof {
            let f = flatten(entries@.take(i + 1));
            assert(f == flatten(entries@.take(i as int)) + img@);
            assert(out@ =~= f.take(out@.len() as int));
            let s = T::spec_static_size() as int;
            assert((i + 1) * s == i * s + s) by (nonlinear_arith);
        }
        i = i + 1;
    }
    proof {
        lemma_flatten_len(entries@.take(i as int));
        lemma_flatten_len(entries@);
        let k = entries@.len() as int;
        let s = T::spec_static_size() as int;
        assert(i * s <= k * s) by (nonlinear_arith)
            requires
                i <= k,
                0 <= s,
        ;
        assert(entries@ =~= entries@.take(i as int) + entries@.skip(i as int));
        lemma_flatten_append(entries@.take(i as int), entries@.skip(i as int));
        assert(flatten(entries@) == flatten(entries@.take(i as int)) + flatten(entries@.skip(i as int)));
        assert(out@ =~= fam_encoded(entries@));
    }
    byte_buf_from_vec(out)
}

pub proof fn lemma_flatten_append<T: SizeofFamStruct>(a: Seq<T>, b: Seq<T>)
    ensures
        flatten(a + b) == flatten(a) + flatten(b),
    decreases b.len(),
{
    if b.len() == 0 {
        assert(a + b =~= a);
        assert(flatten(b) =~= Seq::<u8>::empty());
        assert(flatten(a) + flatten(b) =~= flatten(a));
    } else {
        lemma_flatten_append(a, b.drop_last());
        assert((a + b).drop_last() =~= a + b.drop_last());
        assert((a + b).last() == b.last());
        assert(flatten(a) + flatten(b) =~= flatten(a) + flatten(b.drop_last()) + b.last().image());
    }
}


/// Outcome of decoding `data` as an object with a flexible array member.
///
/// A buffer shorter than the fixed part is refused with the fixed size. Else the
/// fixed part read from the buffer's start claims a runtime size, which the
/// buffer's length must equal, or that size is the one reported. On success
/// the buffer's bytes fill as many struct-sized slots as they need, from the
/// first slot on. What of the last slot they do not cover comes from a default
/// value, and is left open here.
pub open spec fn fam_decoded<T: SizeofFamStruct>(data: Seq<u8>, r: Result<Vec<T>, (usize, usize)>) -> bool {
    let s = T::spec_static_size();
    let n = data.len();
    if n < s {
        r matches Err(e) && e.0 == s && e.1 == n
    } else {
        let claimed = T::size_of_image(data.take(s as int));
        if claimed != n {
            r matches Err(e) && e.0 == claimed && e.1 == n
        } else {
            r matches Ok(v) && v@.len() == slot_count(n, s) && flatten(v@).len() == v@.len() * s
                && flatten(v@).take(n as int) == data
        }
    }
}

/// Deserialize an FFI object with a flexible array as its last field from a `ByteBuf`.
pub fn deserialize_ffi_fam<T>(serialized: ByteBuf) -> (r: Result<Vec<T>, (usize, usize)>)
    where
        T: SizeofFamStruct + Default,
    requires
        T::spec_static_size() > 0,
    ensures
        fam_decoded(byte_buf_contents(serialized), r),
{
    let data = byte_buf_into_vec(serialized);
    let size = T::static_size_of();
    if data.len() < size {
        return Err((size, data.len()));
    }
    let mut header: Vec<u8> = Vec::with_capacity(size);
    let mut j: usize = 0;
    while j < size
        invariant
            size <= data@.len(),
            j <= size,
            header@ == data@.take(j as int),
        decreases size - j,
    {
        header.push(data[j]);
        j = j + 1;
        assert(header@ =~= data@.take(j as int));
    }
    let obj = T::from_image(header.as_slice());
    let claimed = obj.size_of();
    if claimed == size {
        if data.len() != size {
            Err((size, data.len()))
        } else {
            let mut buf: Vec<T> = Vec::new();
            buf.push(obj);
            proof {
                assert(buf@ =~= seq![obj]);
                lemma_flatten_single(obj);
                assert(data@.take(size as int) =~= data@);
            }
            Ok(buf)
        }
    } else if claimed != data.len() {
        Err((claimed, data.len()))
    } else {
        Ok(fill_slots(&data, size))
    }
}

/// Lays `data` out over `slot_count(data.len(), size)` struct-sized slots, the
/// part of the last slot that `data` does not reach taken from a default value.
fn fill_slots<T: SizeofFamStruct + Default>(data: &Vec<u8>, size: usize) -> (r: Vec<T>)
    requires
        size > 0,
        size == T::spec_static_size(),
    ensures
        r@.len() == slot_count(data@.len(), size as nat),
        flatten(r@).len() == r@.len() * size,
        flatten(r@).take(data@.len() as int) == data@,
{
    let n = data.len();
    let rem = n % size;
    proof {
        lemma_fundamental_div_mod(n as int, size as int);
        assert(rem != 0 ==> n / size < n) by (nonlinear_arith)
            requires
                n == size * (n / size) + rem,
                size > 0,
                n / size >= 0,
        ;
    }
    let count: usize = if rem == 0 { n / size } else { n / size + 1 };
    let filler_value = T::default();
    let filler = filler_value.to_image();
    proof {
        filler_value.lemma_image_len();
        assert(0 <= rem < size) by (nonlinear_arith)
            requires
                rem == n % size,
                size > 0,
        ;
    }
    // the bytes of all slots: those of `data`, then the rest of a default value
    let mut padded: Vec<u8> = Vec::new();
    let mut j: usize = 0;
    while j < n
        invariant
            n == data@.len(),
            j <= n,
            padded@ == data@.take(j as int),
        decreases n - j,
    {
        padded.push(data[j]);
        j = j + 1;
        assert(padded@ =~= data@.take(j as int));
    }
    assert(data@.take(n as int) =~= data@);
    if rem != 0 {
        let mut k: usize = rem;
        while k < size
            invariant
                rem <= k <= size,
                size == filler@.len(),
                padded@ == data@ + filler@.subrange(rem as int, k as int),
            decreases size - k,
        {
            padded.push(filler[k]);
            k = k + 1;
            assert(padded@ =~= data@ + filler@.subrange(rem as int, k as int));
        }
    }
    let total_len = padded.len();
    let ghost total = padded@;
    proof {
        let q = n as int / size as int;
        if rem == 0 {
            assert(total =~= data@);
            assert(count * size == size * q) by (nonlinear_arith)
                requires
                    count == q,
            ;
        } else {
            assert(count * size == size * q + size) by (nonlinear_arith)
                requires
                    count == q + 1,
            ;
        }
        assert(total.take(n as int) =~= data@);
    }
    let mut out: Vec<T> = Vec::with_capacity(count);
    let mut i: usize = 0;
    while i < count
        invariant
            i <= count,
            total == padded@,
            total_len == total.len(),
            total.len() == count * size,
            size == T::spec_static_size(),
            size > 0,
            out@.len() == i,
            flatten(out@) == total.take(i * size),
        decreases count - i,
    {
        proof {
            assert((i + 1) * size <= count * size && i * size + size == (i + 1) * size)
                by (nonlinear_arith)
                requires
                    i < count,
                    size > 0,
            ;
        }
        let start = i * size;
        let mut slot: Vec<u8> = Vec::with_capacity(size);
        let mut k: usize = 0;
        while k < size
            invariant
                k <= size,
                start + size <= total_len,
                total_len == padded@.len(),
                slot@ == padded@.subrange(start as int, start + k),
            decreases size - k,
        {
            slot.push(padded[start + k]);
            k = k + 1;
            assert(slot@ =~= padded@.subrange(start as int, start + k));
        }
        let entry = T::from_image(slot.as_slice());
        proof {
            lemma_flatten_push(out@, entry);
        }
        out.push(entry);
        i = i + 1;
        assert(flatten(out@) =~= total.take(i * size));
    }
    proof {
        assert(total.take(count * size) =~= total);
        lemma_flatten_len(out@);
    }
    out
}

} // verus!
