//! Blocks of sample data for trying the codec.

use crate::protocol::{Header, MessageType};
use vstd::prelude::*;

verus! {

#[verifier::external_type_specification]
#[verifier::external_body]
pub struct ExXorShiftRng(rand_xorshift::XorShiftRng);

/// `rand::SeedableRng::from_seed` for `rand_xorshift::XorShiftRng`. Nothing is
/// claimed of the generator.
#[verifier::external_body]
fn seeded_generator(seed: [u8; 16]) -> (r: rand_xorshift::XorShiftRng) {
    rand::SeedableRng::from_seed(seed)
}

/// `rand::Rng::random_range` on an inclusive range of integers. Claimed of it:
/// what comes out lies in the range. An empty range, on which it panics, is
/// left out.
#[verifier::external_body]
fn random_in(generator: &mut rand_xorshift::XorShiftRng, low: i32, high: i32) -> (r: i32)
    requires
        low <= high,
    ensures
        low <= r <= high,
{
    rand::Rng::random_range(generator, low..=high)
}

/// The seed that every buffer of sample data is drawn from.
pub fn sample_seed() -> (r: [u8; 16])
    ensures
        r@ == seq![3u8, 42, 93, 129, 1, 85, 72, 42, 84, 23, 95, 212, 253, 10, 4, 2],
{
    let seed: [u8; 16] = [3, 42, 93, 129, 1, 85, 72, 42, 84, 23, 95, 212, 253, 10, 4, 2];
    assert(seed@ =~= seq![3u8, 42, 93, 129, 1, 85, 72, 42, 84, 23, 95, 212, 253, 10, 4, 2]);
    seed
}

/// A buffer of `data_len` bytes drawn from a generator with a fixed seed.
pub fn build_random_data(data_len: usize) -> (r: Vec<u8>)
    ensures
        r.len() == data_len,
{
    let mut generator = seeded_generator(sample_seed());
    let mut data: Vec<u8> = Vec::with_capacity(data_len);
    let mut i: usize = 0;
    while i < data_len
        invariant
            i <= data_len,
            data.len() == i,
        decreases data_len - i,
    {
        let drawn: i32 = random_in(&mut generator, 0, 255);
        data.push(drawn as u8);
        i += 1;
    }
    data
}

/// A data message of session zero, block zero, with `data_len` sample bytes.
pub fn build_random_message(data_len: usize) -> (r: (Header, Vec<u8>))
    ensures
        r.0 == (Header { message_type: MessageType { bits: 8 }, session_id: 0, block_id: 0, seq: 0 }),
        r.1.len() == data_len,
{
    let header = Header::new(MessageType::data(), 0, 0);
    let data = build_random_data(data_len);
    (header, data)
}

} // verus!
