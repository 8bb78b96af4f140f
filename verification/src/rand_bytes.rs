//! Random bytes from the operating system, and random numbers in a range
//! that avoid a list of values.

use vstd::prelude::*;
use ring::rand::SecureRandom;

verus! {

#[verifier::external_type_specification]
#[verifier::external_body]
pub struct ExSystemRandom(ring::rand::SystemRandom);

#[verifier::external_type_specification]
#[verifier::external_body]
pub struct ExUnspecified(ring::error::Unspecified);

/// `ring::rand::SystemRandom::new`: a handle on the operating system's
/// random number generator. Nothing is claimed of it.
#[verifier::external_body]
fn system_random() -> ring::rand::SystemRandom {
    ring::rand::SystemRandom::new()
}

/// `SecureRandom::fill` of `ring::rand::SystemRandom`: fills `dest` with
/// random bytes or fails. The bytes are random, so only that the slice keeps
/// its length is claimed.
#[verifier::external_body]
fn system_fill(rng: &ring::rand::SystemRandom, dest: &mut [u8]) -> (r: Result<
    (),
    ring::error::Unspecified,
>)
    ensures
        final(dest)@.len() == old(dest)@.len(),
{
    rng.fill(dest)
}

/// The text of `ring::error::Unspecified`: its `Display` impl writes
/// `ring::error::Unspecified`, which `to_string` returns.
#[verifier::external_body]
fn unspecified_text(e: &ring::error::Unspecified) -> (s: String)
    ensures
        s@ == unspecified_message(),
{
    e.to_string()
}

/// The error message of a failed random fill.
pub open spec fn unspecified_message() -> Seq<char> {
    seq![
        'r', 'i', 'n', 'g', ':', ':', 'e', 'r', 'r', 'o', 'r', ':', ':',
        'U', 'n', 's', 'p', 'e', 'c', 'i', 'f', 'i', 'e', 'd',
    ]
}

/// Fills `buf` with random bytes; on failure the error is the generator's
/// message.
pub fn rand_bytes(buf: &mut [u8]) -> (r: Result<(), String>)
    ensures
        final(buf)@.len() == old(buf)@.len(),
        r matches Err(msg) ==> msg@ == unspecified_message(),
{
    let rng = system_random();
    match system_fill(&rng, buf) {
        Ok(()) => Ok(()),
        Err(e) => Err(unspecified_text(&e)),
    }
}

/// `size` random bytes; on failure the error is the generator's message.
pub fn rand_bytes2(size: usize) -> (r: Result<Vec<u8>, String>)
    ensures
        match r {
            Ok(v) => v@.len() == size,
            Err(msg) => msg@ == unspecified_message(),
        },
{
    let mut buf: Vec<u8> = Vec::with_capacity(size);
    let mut i: usize = 0;
    while i < size
        invariant
            i <= size,
            buf@.len() == i,
        decreases size - i,
    {
        buf.push(0);
        i = i + 1;
    }
    match rand_bytes(buf.as_mut_slice()) {
        Ok(()) => Ok(buf),
        Err(err) => Err(err),
    }
}

/// `exclude` does not hold `w`.
pub open spec fn free_at(w: int, exclude: Seq<i8>) -> bool {
    !exclude.contains(w as i8)
}

/// The first value of `[lo, hi)` that `exclude` does not hold, if any.
pub open spec fn first_free(lo: int, hi: int, exclude: Seq<i8>) -> Option<int>
    decreases hi - lo,
{
    if lo >= hi {
        None
    } else if !exclude.contains(lo as i8) {
        Some(lo)
    } else {
        first_free(lo + 1, hi, exclude)
    }
}

/// The value that [`pick_exclusive_i8`] takes for the random `seed`: the
/// value at `seed` modulo the width of the range when `exclude` does not
/// hold it, else the first value of the range that it does not hold, else
/// the value at `seed` all the same.
pub open spec fn picked_exclusive(seed: u32, low: i8, high: i8, exclude: Seq<i8>) -> i8 {
    let cand = low + (seed as int) % (high - low);
    if !exclude.contains(cand as i8) {
        cand as i8
    } else {
        match first_free(low as int, high as int, exclude) {
            Some(v) => v as i8,
            None => cand as i8,
        }
    }
}

proof fn lemma_first_free(lo: int, hi: int, exclude: Seq<i8>)
    requires
        -128 <= lo,
        hi <= 128,
    ensures
        first_free(lo, hi, exclude) matches Some(v) ==> lo <= v < hi && !exclude.contains(
            v as i8,
        ),
        (exists|w: int| lo <= w < hi && free_at(w, exclude)) ==> first_free(
            lo,
            hi,
            exclude,
        ) is Some,
    decreases hi - lo,
{
    if lo < hi {
        lemma_first_free(lo + 1, hi, exclude);
        if exists|w: int| lo <= w < hi && free_at(w, exclude) {
            let w = choose|w: int| lo <= w < hi && free_at(w, exclude);
            if w != lo {
                assert(lo + 1 <= w < hi && free_at(w, exclude));
            }
        }
    }
}

fn contains_i8(list: &Vec<i8>, v: i8) -> (r: bool)
    ensures
        r == list@.contains(v),
{
    let mut i: usize = 0;
    while i < list.len()
        invariant
            i <= list@.len(),
            forall|j: int| 0 <= j < i ==> list@[j] != v,
        decreases list.len() - i,
    {
        if list[i] == v {
            return true;
        }
        i = i + 1;
    }
    false
}

/// A value of `[low, high)` picked by the random `seed` that `exclude` does
/// not hold, whenever the range has such a value.
pub fn pick_exclusive_i8(seed: u32, low: i8, high: i8, exclude: &Vec<i8>) -> (r: i8)
    requires
        low < high,
    ensures
        r == picked_exclusive(seed, low, high, exclude@),
        low <= r < high,
        (exists|w: int| low <= w < high && free_at(w, exclude@)) ==> !exclude@.contains(r),
{
    proof {
        lemma_first_free(low as int, high as int, exclude@);
    }
    let span: u32 = (high as i16 - low as i16) as u32;
    assert(span as int == high - low);
    let off: u32 = seed % span;
    assert(off as int == (seed as int) % (high - low));
    let cand: i8 = (low as i16 + off as i16) as i8;
    assert(cand as int == low + (seed as int) % (high - low));
    if !contains_i8(exclude, cand) {
        return cand;
    }
    let mut v: i16 = low as i16;
    while v < high as i16
        invariant
            low <= v <= high,
            exclude@.contains(cand),
            cand as int == low + (seed as int) % (high - low),
            first_free(low as int, high as int, exclude@) == first_free(v as int, high as int, exclude@),
        decreases high - v,
    {
        if !contains_i8(exclude, v as i8) {
            return v as i8;
        }
        v = v + 1;
    }
    cand
}

/// A random value of `[low, high)` that `exclude` does not hold, whenever
/// the range has such a value.
pub fn rand_between_exclusive_i8(low: i8, high: i8, exclude: &Vec<i8>) -> (r: i8)
    requires
        low < high,
    ensures
        low <= r < high,
        (exists|w: int| low <= w < high && free_at(w, exclude@)) ==> !exclude@.contains(r),
{
    let mut seed_bytes: Vec<u8> = Vec::new();
    seed_bytes.push(0);
    seed_bytes.push(0);
    seed_bytes.push(0);
    seed_bytes.push(0);
    let _ = rand_bytes(seed_bytes.as_mut_slice());
    let seed: u32 = ((seed_bytes[0] as u32 * 256 + seed_bytes[1] as u32) * 256 + seed_bytes[2] as u32)
        * 256 + seed_bytes[3] as u32;
    pick_exclusive_i8(seed, low, high, exclude)
}

} // verus!
