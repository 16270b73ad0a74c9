//! Laws that relate the encoders and decoders of the `ffi` module.

use crate::ffi::{
    lemma_flatten_append, lemma_flatten_single,
    fam_decoded, fam_encoded, fixed_decoded, fixed_encoded, flatten, lemma_flatten_len,
    slot_count, SizeofFamStruct,
};
use vstd::arithmetic::div_mod::{lemma_div_multiples_vanish, lemma_mod_multiples_basic};
use vstd::prelude::*;

verus! {

/// Decoding what encoding a fixed-size value produced gives back a value with
/// the same bytes.
pub proof fn lemma_fixed_round_trip<T: SizeofFamStruct>(v: T, r: Result<T, (usize, usize)>)
    requires
        fixed_decoded(fixed_encoded(v), r),
    ensures
        r matches Ok(w) && w.image() == v.image(),
{
    v.lemma_image_len();
}

/// A buffer whose length is not the type's fixed size, one byte short or one
/// byte over among others, is refused with the expected and the actual length.
pub proof fn lemma_fixed_size_mismatch<T: SizeofFamStruct>(data: Seq<u8>, r: Result<T, (usize, usize)>)
    requires
        data.len() != T::spec_static_size(),
        fixed_decoded(data, r),
    ensures
        r matches Err(e) && e.0 == T::spec_static_size() && e.1 == data.len(),
{
}

/// A flexible-array object whose header claims no trailing element encodes to
/// the same bytes as a fixed-size value, and decodes to a single entry with
/// those bytes.
pub proof fn lemma_fam_round_trip_no_tail<T: SizeofFamStruct>(v: T, r: Result<Vec<T>, (usize, usize)>)
    requires
        T::spec_static_size() > 0,
        T::size_of_image(v.image()) == T::spec_static_size(),
        fam_decoded(fam_encoded(seq![v]), r),
    ensures
        fam_encoded(seq![v]) == fixed_encoded(v),
        r matches Ok(w) && w@.len() == 1 && w@[0].image() == v.image(),
{
    let s = T::spec_static_size();
    v.lemma_image_len();
    lemma_flatten_single(v);
    assert(fam_encoded(seq![v]) =~= v.image());
    assert(v.image().take(s as int) =~= v.image());
    lemma_mod_multiples_basic(1, s as int);
    lemma_div_multiples_vanish(1, s as int);
    assert(slot_count(s, s) == 1);
    if let Ok(w) = r {
        lemma_flatten_len(w@);
        assert(w@ =~= seq![w@[0]]);
        lemma_flatten_single(w@[0]);
    }
}

/// An object whose header claims `k` struct-sized slots, `k > 1`, laid out
/// over at least `k` slots, encodes to the bytes of its first `k` slots, and
/// decodes to exactly `k` entries whose bytes, end to end, are those bytes.
pub proof fn lemma_fam_round_trip_with_tail<T: SizeofFamStruct>(
    entries: Seq<T>,
    k: nat,
    r: Result<Vec<T>, (usize, usize)>,
)
    requires
        T::spec_static_size() > 0,
        k > 1,
        entries.len() >= k,
        T::size_of_image(entries[0].image()) == k * T::spec_static_size(),
        fam_decoded(fam_encoded(entries), r),
    ensures
        fam_encoded(entries) == flatten(entries.take(k as int)),
        r matches Ok(w) && w@.len() == k && flatten(w@) == fam_encoded(entries),
{
    let s = T::spec_static_size();
    let data = fam_encoded(entries);
    let first = entries.take(1);
    let rest = entries.skip(1);
    let head = entries.take(k as int);
    lemma_flatten_len(entries);
    lemma_flatten_len(head);
    assert(k * s <= entries.len() * s) by (nonlinear_arith)
        requires
            k <= entries.len(),
    ;
    assert(s <= k * s) by (nonlinear_arith)
        requires
            k > 1,
    ;
    // the fixed part read back is the first entry's
    assert(entries =~= first + rest);
    lemma_flatten_append(first, rest);
    entries[0].lemma_image_len();
    assert(first =~= seq![entries[0]]);
    lemma_flatten_single(entries[0]);
    assert(data.take(s as int) =~= entries[0].image());
    // the encoded bytes are those of the first `k` slots
    assert(entries =~= head + entries.skip(k as int));
    lemma_flatten_append(head, entries.skip(k as int));
    assert(data =~= flatten(head));
    lemma_mod_multiples_basic(k as int, s as int);
    lemma_div_multiples_vanish(k as int, s as int);
    assert(s * k == k * s) by (nonlinear_arith);
    assert(slot_count(k * s, s) == k);
    if let Ok(w) = r {
        assert(flatten(w@).take(data.len() as int) =~= flatten(w@));
    }
}

/// A buffer shorter than the fixed part is refused with the fixed size and its
/// own length, whatever it holds.
pub proof fn lemma_fam_too_short<T: SizeofFamStruct>(data: Seq<u8>, r: Result<Vec<T>, (usize, usize)>)
    requires
        data.len() < T::spec_static_size(),
        fam_decoded(data, r),
    ensures
        r matches Err(e) && e.0 == T::spec_static_size() && e.1 == data.len(),
{
}

/// A buffer long enough for the fixed part, but shorter or longer than the size
/// its header claims, is refused with the claimed size and its own length.
pub proof fn lemma_fam_length_disagrees<T: SizeofFamStruct>(data: Seq<u8>, r: Result<Vec<T>, (usize, usize)>)
    requires
        data.len() >= T::spec_static_size(),
        T::size_of_image(data.take(T::spec_static_size() as int)) != data.len(),
        fam_decoded(data, r),
    ensures
        r matches Err(e) && e.0 == T::size_of_image(data.take(T::spec_static_size() as int))
            && e.1 == data.len(),
{
}

} // verus!
