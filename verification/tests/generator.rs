use sha3::Digest;
use sha3::Sha3_512;
use std::collections::HashMap;
use std::collections::VecDeque;
use std::time::SystemTime;
use std::time::UNIX_EPOCH;
use yarrow::bytes::low_byte_of;
use yarrow::bytes::pack_be;
use yarrow::bytes::to_be_bytes;
use yarrow::generator::Yarrow;
use yarrow::hash::digest_of;

fn reference_digest(parts: &[&[u8]]) -> Vec<u8> {
    let mut hasher = Sha3_512::new();
    for part in parts {
        hasher.update(part);
    }
    hasher.finalize().to_vec()
}

fn reference_combine(seed: u64, pool: &VecDeque<u8>, last_reseed_time: u64) -> u64 {
    let mut acc = seed;
    for byte in pool {
        acc = acc.wrapping_mul(33).wrapping_add(u64::from(*byte));
    }
    acc ^ last_reseed_time
}

fn pool_vec(rng: &Yarrow) -> Vec<u8> {
    rng.pool().iter().copied().collect()
}

#[test]
fn test_add_entropy() {
    let mut rng = Yarrow::new(12345);
    let initial_state = rng.pool().clone();
    rng.add_entropy(67890);
    assert_ne!(*rng.pool(), initial_state, "L'ajout d'entropie n'a pas modifié l'état du générateur");
}

#[test]
fn test_reseed() {
    let mut rng = Yarrow::new(12345);
    let initial_state = rng.pool().clone();
    rng.reseed(67890).unwrap();
    assert_ne!(*rng.pool(), initial_state, "La méthode reseed n'a pas modifié l'état du générateur");
}

#[test]
fn test_generate_random_bytes() {
    let mut rng = Yarrow::new(12345);
    let first = rng.generate_random_bytes(10).unwrap();
    let second = rng.generate_random_bytes(10).unwrap();
    assert_ne!(first, second, "Les deux appels à generate_random_bytes ont produit les mêmes résultats");
}

#[test]
fn test_printer() {
    let mut rng = Yarrow::new(12345);
    for _ in 0..10 {
        rng.reseed(SystemTime::now().duration_since(UNIX_EPOCH).unwrap().as_secs()).unwrap();
        let random_bytes = rng.generate_random_number().unwrap();
        println!("{:?}", random_bytes);
    }
}

#[test]
fn test_generate_bounded_number() {
    let mut rng = Yarrow::new(SystemTime::now().duration_since(UNIX_EPOCH).unwrap().as_nanos() as u64);
    let mut distribution_counts = HashMap::new();

    for _ in 0..1000 {
        let number = rng.generate_bounded_number(10, 20).unwrap();

        let count = distribution_counts.entry(number).or_insert(0);
        *count += 1;

        assert!(number >= 10 && number <= 20, "Le nombre généré est hors de la plage spécifiée");
    }

    println!("Répartition des valeurs générées :");
    for (value, count) in &distribution_counts {
        println!("Valeur {}: {} fois", value, count);
    }
}

#[test]
fn be_bytes_are_most_significant_first() {
    assert_eq!(to_be_bytes(0x0102_0304_0506_0708), vec![1, 2, 3, 4, 5, 6, 7, 8]);
    assert_eq!(to_be_bytes(0), vec![0; 8]);
    assert_eq!(to_be_bytes(u64::MAX), vec![0xff; 8]);
    assert_eq!(to_be_bytes(67890), 67890u64.to_be_bytes().to_vec());
}

#[test]
fn pack_reads_bytes_big_endian() {
    assert_eq!(pack_be(&[1, 2, 3, 4, 5, 6, 7, 8]), 0x0102_0304_0506_0708);
    assert_eq!(pack_be(&[]), 0);
    assert_eq!(pack_be(&[0xab]), 0xab);
    assert_eq!(pack_be(&[0x12, 0x34]), 0x1234);
    assert_eq!(pack_be(&[0xff; 8]), u64::MAX);
}

#[test]
fn pack_drops_bits_shifted_past_the_top() {
    assert_eq!(pack_be(&[0xaa, 1, 2, 3, 4, 5, 6, 7, 8]), 0x0102_0304_0506_0708);
}

#[test]
fn pack_inverts_be_bytes() {
    for v in [0u64, 1, 255, 256, 67890, 0xdead_beef_0bad_f00d, u64::MAX] {
        assert_eq!(pack_be(&to_be_bytes(v)), v);
    }
}

#[test]
fn low_byte_is_the_remainder_by_256() {
    assert_eq!(low_byte_of(0), 0);
    assert_eq!(low_byte_of(0x1234), 0x34);
    assert_eq!(low_byte_of(256), 0);
    assert_eq!(low_byte_of(u64::MAX), 0xff);
}

#[test]
fn digest_of_empty_message_is_the_known_sha3_512_value() {
    let expected: [u8; 64] = [
        0xa6, 0x9f, 0x73, 0xcc, 0xa2, 0x3a, 0x9a, 0xc5, 0xc8, 0xb5, 0x67, 0xdc, 0x18, 0x5a, 0x75,
        0x6e, 0x97, 0xc9, 0x82, 0x16, 0x4f, 0xe2, 0x58, 0x59, 0xe0, 0xd1, 0xdc, 0xc1, 0x47, 0x5c,
        0x80, 0xa6, 0x15, 0xb2, 0x12, 0x3a, 0xf1, 0xf5, 0xf9, 0x4c, 0x11, 0xe3, 0xe9, 0x40, 0x2c,
        0x3a, 0xc5, 0x58, 0xf5, 0x00, 0x19, 0x9d, 0x95, 0xb6, 0xd3, 0xe3, 0x01, 0x75, 0x85, 0x86,
        0x28, 0x1d, 0xcd, 0x26,
    ];
    assert_eq!(digest_of(&[]), expected.to_vec());
}

#[test]
fn digest_is_64_bytes_and_differs_from_its_message() {
    let message = vec![7u8; 64];
    let digest = digest_of(&message);
    assert_eq!(digest.len(), 64);
    assert_ne!(digest, message);
    assert_eq!(digest, reference_digest(&[&message]));
}

#[test]
fn new_generator_is_fresh() {
    let rng = Yarrow::new(42);
    assert_eq!(rng.seed(), 42);
    assert!(rng.pool().is_empty());
    assert_eq!(rng.last_reseed_time(), 0);
}

#[test]
fn add_entropy_appends_the_digest_of_the_value() {
    let mut rng = Yarrow::new(1);
    rng.add_entropy(67890);
    let first = reference_digest(&[&67890u64.to_be_bytes()]);
    assert_eq!(pool_vec(&rng), first);
    rng.add_entropy(5);
    let second = reference_digest(&[&5u64.to_be_bytes()]);
    let mut both = first.clone();
    both.extend_from_slice(&second);
    assert_eq!(rng.pool().len(), 128);
    assert_eq!(pool_vec(&rng), both);
    assert_eq!(rng.seed(), 1);
    assert_eq!(rng.last_reseed_time(), 0);
}

#[test]
fn add_entropy_changes_the_pool_every_time() {
    let mut rng = Yarrow::new(9);
    for v in [0u64, 0, 1, u64::MAX] {
        let before = rng.pool().clone();
        rng.add_entropy(v);
        assert_ne!(*rng.pool(), before);
        assert_eq!(rng.pool().len(), before.len() + 64);
    }
}

#[test]
fn combine_of_a_fresh_generator_is_its_seed() {
    assert_eq!(Yarrow::new(5).combine_entropy(), 5);
    assert_eq!(Yarrow::new(u64::MAX).combine_entropy(), u64::MAX);
}

#[test]
fn combine_is_the_rolling_hash_xor_the_reseed_time() {
    let mut rng = Yarrow::new(0xfeed_face_cafe_beef);
    rng.add_entropy(3);
    assert_eq!(
        rng.combine_entropy(),
        reference_combine(0xfeed_face_cafe_beef, rng.pool(), 0)
    );
    rng.reseed_at(4, 1_000);
    assert_eq!(rng.last_reseed_time(), 1_000);
    assert_eq!(
        rng.combine_entropy(),
        reference_combine(rng.seed(), rng.pool(), 1_000)
    );
}

#[test]
fn combine_folds_single_digest_exactly() {
    let mut rng = Yarrow::new(0);
    rng.mix_entropy(0);
    let pool = pool_vec(&rng);
    let mut expected: u64 = 0;
    for b in &pool {
        expected = expected.wrapping_mul(33).wrapping_add(*b as u64);
    }
    assert_eq!(rng.combine_entropy(), expected);
}

#[test]
fn mix_entropy_replaces_the_pool_by_one_digest() {
    let mut rng = Yarrow::new(1);
    rng.mix_entropy(7);
    assert_eq!(pool_vec(&rng), reference_digest(&[&[], &7u64.to_be_bytes()]));
    rng.add_entropy(1);
    rng.add_entropy(2);
    assert_eq!(rng.pool().len(), 192);
    let before = pool_vec(&rng);
    rng.mix_entropy(0x0102_0304_0506_0708);
    assert_eq!(rng.pool().len(), 64);
    assert_eq!(
        pool_vec(&rng),
        reference_digest(&[&before, &[1, 2, 3, 4, 5, 6, 7, 8]])
    );
    assert_eq!(rng.seed(), 1);
}

#[test]
fn reseed_at_stirs_the_pool_as_add_combine_mix() {
    let mut rng = Yarrow::new(12345);
    let mut twin = Yarrow::new(12345);
    rng.reseed_at(67890, 0);
    twin.add_entropy(67890);
    let word = twin.combine_entropy();
    twin.mix_entropy(word);
    assert_eq!(rng.pool(), twin.pool());
    assert_eq!(rng.pool().len(), 64);
}

#[test]
fn reseed_at_opens_the_gate_after_more_than_60_seconds() {
    let mut rng = Yarrow::new(0b1100);
    rng.reseed_at(0b1010, 61);
    assert_eq!(rng.seed(), 0b0110);
    assert_eq!(rng.last_reseed_time(), 61);
}

#[test]
fn reseed_at_keeps_the_seed_at_60_seconds_or_less() {
    let mut rng = Yarrow::new(0b1100);
    let before = rng.pool().clone();
    rng.reseed_at(0b1010, 60);
    assert_eq!(rng.seed(), 0b1100);
    assert_eq!(rng.last_reseed_time(), 0);
    assert_ne!(*rng.pool(), before);
    rng.reseed_at(0b1010, 0);
    assert_eq!(rng.seed(), 0b1100);
    assert_eq!(rng.last_reseed_time(), 0);
}

#[test]
fn reseed_at_gate_follows_the_last_recorded_time() {
    let mut rng = Yarrow::new(1);
    rng.reseed_at(2, 1_000);
    assert_eq!((rng.seed(), rng.last_reseed_time()), (3, 1_000));
    rng.reseed_at(4, 1_060);
    assert_eq!((rng.seed(), rng.last_reseed_time()), (3, 1_000));
    rng.reseed_at(4, 1_061);
    assert_eq!((rng.seed(), rng.last_reseed_time()), (7, 1_061));
}

#[test]
fn reseed_at_with_the_clock_set_back_keeps_the_seed() {
    let mut rng = Yarrow::new(1);
    rng.reseed_at(2, 1_000);
    let pool = rng.pool().clone();
    rng.reseed_at(8, 10);
    assert_eq!((rng.seed(), rng.last_reseed_time()), (3, 1_000));
    assert_ne!(*rng.pool(), pool);
    rng.reseed_at(8, 1_000);
    assert_eq!((rng.seed(), rng.last_reseed_time()), (3, 1_000));
}

#[test]
fn reseed_at_the_largest_clock_reading() {
    let mut rng = Yarrow::new(0);
    rng.reseed_at(u64::MAX, u64::MAX);
    assert_eq!((rng.seed(), rng.last_reseed_time()), (u64::MAX, u64::MAX));
}

#[test]
fn reseed_with_the_system_clock_records_it_on_a_fresh_generator() {
    let mut rng = Yarrow::new(0b1100);
    rng.reseed(0b1010).unwrap();
    assert_eq!(rng.seed(), 0b0110);
    assert!(rng.last_reseed_time() > 60);
    let recorded = rng.last_reseed_time();
    rng.reseed(0b1111).unwrap();
    assert_eq!(rng.seed(), 0b0110);
    assert_eq!(rng.last_reseed_time(), recorded);
}

#[test]
fn bytes_are_the_low_bytes_of_the_combined_word_before_each_mix() {
    let mut rng = Yarrow::new(0x1234);
    let mut twin = Yarrow::new(0x1234);
    let bytes = rng.generate_random_bytes_at(5, 0);
    assert_eq!(bytes.len(), 5);
    assert_eq!(bytes[0], 0x34);
    let mut expected = Vec::new();
    for _ in 0..5 {
        let word = twin.combine_entropy();
        twin.mix_entropy(word);
        expected.push((word & 0xff) as u8);
    }
    assert_eq!(bytes, expected);
    twin.reseed_at(expected[4] as u64, 0);
    assert_eq!(rng.pool(), twin.pool());
}

#[test]
fn bytes_reseed_with_the_last_byte() {
    let mut rng = Yarrow::new(0x1200);
    let bytes = rng.generate_random_bytes_at(3, 500);
    assert_eq!(rng.last_reseed_time(), 500);
    assert_eq!(rng.seed(), 0x1200 ^ bytes[2] as u64);
}

#[test]
fn zero_bytes_still_reseed_with_zero() {
    let mut rng = Yarrow::new(77);
    let bytes = rng.generate_random_bytes_at(0, 500);
    assert!(bytes.is_empty());
    assert_eq!(rng.seed(), 77);
    assert_eq!(rng.last_reseed_time(), 500);
    let mut twin = Yarrow::new(77);
    twin.reseed_at(0, 500);
    assert_eq!(rng.pool(), twin.pool());
    assert_eq!(rng.pool().len(), 64);
}

#[test]
fn zero_bytes_from_the_system_clock() {
    let mut rng = Yarrow::new(77);
    assert_eq!(rng.generate_random_bytes(0).unwrap(), Vec::<u8>::new());
    assert_eq!(rng.pool().len(), 64);
    assert_eq!(rng.seed(), 77);
}

#[test]
fn successive_draws_differ() {
    let mut rng = Yarrow::new(12345);
    let first = rng.generate_random_bytes_at(10, 100);
    let second = rng.generate_random_bytes_at(10, 100);
    assert_ne!(first, second);
}

#[test]
fn a_longer_draw_begins_with_the_shorter_one() {
    let mut short = Yarrow::new(31337);
    let mut long = Yarrow::new(31337);
    let a = short.generate_random_bytes_at(4, 0);
    let b = long.generate_random_bytes_at(9, 0);
    assert_eq!(a[..], b[..4]);
}

#[test]
fn number_packs_the_bytes_of_an_equal_generator() {
    for seed in [0u64, 1, 12345, u64::MAX] {
        let mut by_bytes = Yarrow::new(seed);
        let mut by_number = Yarrow::new(seed);
        by_bytes.add_entropy(seed ^ 0x55);
        by_number.add_entropy(seed ^ 0x55);
        let bytes = by_bytes.generate_random_bytes_at(8, 1_000);
        let number = by_number.generate_random_number_at(1_000);
        let mut packed: u64 = 0;
        for &byte in &bytes {
            packed = (packed << 8) | u64::from(byte);
        }
        assert_eq!(number, packed);
        assert_eq!(number.to_be_bytes().to_vec(), bytes);
        assert_eq!(by_bytes.pool(), by_number.pool());
        assert_eq!(by_bytes.seed(), by_number.seed());
        assert_eq!(by_bytes.last_reseed_time(), by_number.last_reseed_time());
    }
}

#[test]
fn number_from_the_system_clock_packs_the_same_bytes() {
    let mut by_bytes = Yarrow::new(2024);
    let mut by_number = Yarrow::new(2024);
    let bytes = by_bytes.generate_random_bytes(8).unwrap();
    let number = by_number.generate_random_number().unwrap();
    assert_eq!(number.to_be_bytes().to_vec(), bytes);
}

#[test]
fn bounded_number_is_min_plus_the_remainder() {
    let mut plain = Yarrow::new(99);
    let mut ranged = Yarrow::new(99);
    let word = plain.generate_random_number_at(7);
    let n = ranged.generate_bounded_number_at(10, 20, 7);
    assert_eq!(n, 10 + word % 11);
    assert_eq!(plain.pool(), ranged.pool());
}

#[test]
fn bounded_number_at_stays_in_range() {
    let mut rng = Yarrow::new(4);
    for now in 0..1000u64 {
        let n = rng.generate_bounded_number_at(10, 20, now);
        assert!(n >= 10 && n <= 20);
    }
}

#[test]
fn bounded_number_of_a_single_value_range() {
    let mut rng = Yarrow::new(4);
    assert_eq!(rng.generate_bounded_number_at(17, 17, 0), 17);
    assert_eq!(rng.generate_bounded_number(u64::MAX, u64::MAX).unwrap(), u64::MAX);
}

#[test]
fn bounded_number_of_the_widest_ranges() {
    let mut plain = Yarrow::new(8);
    let mut low = Yarrow::new(8);
    let mut high = Yarrow::new(8);
    let word = plain.generate_random_number_at(0);
    assert_eq!(low.generate_bounded_number_at(0, u64::MAX - 1, 0), word % u64::MAX);
    assert_eq!(high.generate_bounded_number_at(1, u64::MAX, 0), 1 + word % u64::MAX);
}
