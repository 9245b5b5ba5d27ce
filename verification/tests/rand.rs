use std::time::Duration;

use sparseio::utils::rand::{Latency, MersenneTwister};

fn delay(latency: &mut Latency) -> Duration {
    Duration::from_nanos(latency.next_delay() as u64)
}

#[test]
fn mersenne_twister_is_deterministic_for_seed() {
    let mut rng = MersenneTwister::new(5489);

    assert_eq!(rng.next_u32(), 3_499_211_612);
    assert_eq!(rng.next_u32(), 581_869_302);
    assert_eq!(rng.next_u32(), 3_890_346_734);
}

#[test]
fn mersenne_twister_refreshes_after_a_full_batch() {
    let mut rng = MersenneTwister::new(5489);
    let mut last = 0;
    for _ in 0..1000 {
        last = rng.next_u32();
    }
    // The 1000th output of MT19937 seeded with 5489.
    assert_eq!(last, 1_341_017_984);
}

#[test]
fn default_latency_has_no_delay() {
    let mut latency = Latency::default();

    assert_eq!(delay(&mut latency), Duration::ZERO);
}

#[test]
fn latency_adds_seeded_jitter_to_base() {
    let mut latency = Latency::new(10, 3, 5489);

    assert_eq!(delay(&mut latency), Duration::from_nanos(10));
    assert_eq!(delay(&mut latency), Duration::from_nanos(12));
}

#[test]
fn reader_latency_is_significantly_higher_than_intra_dc_latency() {
    assert!(delay(&mut Latency::reader()) > delay(&mut Latency::intra_dc()));
}
