use fisher_yates_poc::account::DataAccount;
use fisher_yates_poc::codec::{get_line_item, read_record, swap_records, write_record};
use fisher_yates_poc::generator::generate_random_number;
use fisher_yates_poc::selection::{le_bytes, u64_from_le_prefix};
use fisher_yates_poc::{Errors, Record, BASE_SIZE, DATA_LINE_SIZE};

const OWNER: Record = [9u8; 32];

fn rec(b: u8) -> Record {
    let mut r = [0u8; 32];
    r[0] = b;
    r[31] = b.wrapping_mul(3);
    r
}

fn filled(max: u32, n: u8) -> DataAccount {
    let mut a = DataAccount::initialize(OWNER, max);
    for i in 0..n {
        a.add_item(&OWNER, rec(b'A' + i), i as u64).unwrap();
    }
    a
}

#[test]
fn initialize_sets_header() {
    let a = DataAccount::initialize(OWNER, 5);
    assert_eq!(a.authority, OWNER);
    assert_eq!(a.max_items, 5);
    assert_eq!(a.num_items, 0);
    assert_eq!(a.used_items, 0);
    assert_eq!(a.data.len(), BASE_SIZE + 4 + 5 * DATA_LINE_SIZE);
    assert_eq!(a.written, vec![false; 5]);
}

#[test]
fn show_after_add_round_trip() {
    let mut a = DataAccount::initialize(OWNER, 4);
    for i in 0..4u8 {
        a.add_item(&OWNER, rec(40 + i), i as u64).unwrap();
        assert_eq!(a.show_item(i as u32), Ok(rec(40 + i)));
    }
    a.add_item(&OWNER, rec(99), 2).unwrap();
    assert_eq!(a.show_item(2), Ok(rec(99)));
    assert_eq!(a.show_item(1), Ok(rec(41)));
}

#[test]
fn record_lands_at_its_offset() {
    let mut a = DataAccount::initialize(OWNER, 3);
    a.add_item(&OWNER, rec(7), 1).unwrap();
    let start = 52 + 32;
    assert_eq!(&a.data[start..start + 32], &rec(7)[..]);
    assert!(a.data[..start].iter().all(|b| *b == 0));
    assert!(a.data[start + 32..].iter().all(|b| *b == 0));
}

#[test]
fn first_write_counts_overwrite_does_not() {
    let mut a = DataAccount::initialize(OWNER, 3);
    a.add_item(&OWNER, rec(1), 2).unwrap();
    assert_eq!(a.num_items, 1);
    a.add_item(&OWNER, rec(2), 2).unwrap();
    assert_eq!(a.num_items, 1);
    a.add_item(&OWNER, rec(3), 0).unwrap();
    assert_eq!(a.num_items, 2);
    assert_eq!(a.written, vec![true, false, true]);
}

#[test]
fn add_at_capacity_fails() {
    let mut a = filled(5, 5);
    let before = a.data.clone();
    assert_eq!(a.add_item(&OWNER, rec(1), 5), Err(Errors::CapacityExceeded));
    assert_eq!(a.num_items, 5);
    assert_eq!(a.data, before);
}

#[test]
fn add_by_stranger_fails() {
    let mut a = DataAccount::initialize(OWNER, 2);
    assert_eq!(a.add_item(&[1u8; 32], rec(1), 0), Err(Errors::Unauthorized));
    assert_eq!(a.add_item(&[1u8; 32], rec(1), 7), Err(Errors::Unauthorized));
    assert_eq!(a.num_items, 0);
    assert_eq!(a.written, vec![false, false]);
}

#[test]
fn show_out_of_range_fails() {
    let a = filled(3, 3);
    assert_eq!(a.show_item(3), Err(Errors::IndexOutOfRange));
}

#[test]
fn line_item_errors() {
    let a = filled(3, 1);
    assert_eq!(get_line_item(0, &a.data, &a.written, 3), Ok(rec(b'A')));
    assert_eq!(get_line_item(1, &a.data, &a.written, 3), Err(Errors::DecodeError));
    assert_eq!(get_line_item(3, &a.data, &a.written, 3), Err(Errors::IndexOutOfRange));
}

#[test]
fn codec_write_read_swap() {
    let mut data = vec![0u8; 52 + 3 * 32];
    write_record(&mut data, 0, &rec(1));
    write_record(&mut data, 2, &rec(2));
    assert_eq!(read_record(&data, 0), rec(1));
    assert_eq!(read_record(&data, 1), [0u8; 32]);
    swap_records(&mut data, 0, 2);
    assert_eq!(read_record(&data, 0), rec(2));
    assert_eq!(read_record(&data, 2), rec(1));
}

#[test]
fn generator_exact_values() {
    // states 7, 54, 41, ...
    assert_eq!(generate_random_number(21, 7, 100, 0, 50), Ok(7));
    assert_eq!(generate_random_number(21, 7, 100, 40, 50), Ok(41));
    assert_eq!(generate_random_number(21, 7, 100, 54, 55), Ok(54));
}

#[test]
fn generator_stays_in_range() {
    for inc in 0..120u32 {
        for min in 0..20u32 {
            for max in (min + 1)..25u32 {
                if let Ok(v) = generate_random_number(21, inc, 100, min, max) {
                    assert!(min as u64 <= v && v < max as u64);
                }
            }
        }
    }
    assert!(generate_random_number(21, 7, 100, 0, 99).is_ok());
}

#[test]
fn generator_gives_up() {
    assert_eq!(generate_random_number(21, 0, 100, 1, 5), Err(Errors::RandomNumberNotFound));
    assert_eq!(generate_random_number(21, 7, 0, 0, 5), Err(Errors::RandomNumberNotFound));
    assert_eq!(generate_random_number(21, 7, 100, 200, 300), Err(Errors::RandomNumberNotFound));
}

#[test]
fn draws_count_up_then_exhaust() {
    let mut a = filled(5, 5);
    let mut n = 0u32;
    let mut seed = [3u8; 16];
    while a.used_items < a.num_items {
        seed[0] = seed[0].wrapping_add(1);
        match a.select_item(&seed) {
            Ok(_) => {
                n += 1;
                assert_eq!(a.used_items, n);
            }
            Err(e) => assert_eq!(e, Errors::RandomNumberNotFound),
        }
    }
    assert_eq!(a.used_items, 5);
    assert_eq!(a.num_items, 5);
    assert_eq!(a.select_item(&seed), Err(Errors::PoolExhausted));
    assert_eq!(a.select_with_entropy(0), Err(Errors::PoolExhausted));
}

#[test]
fn draws_never_repeat() {
    let mut a = filled(8, 8);
    let mut drawn: Vec<Record> = Vec::new();
    let mut e: u64 = 12345;
    while a.used_items < a.num_items {
        e = e.wrapping_mul(6364136223846793005).wrapping_add(1442695040888963407);
        let prefix = a.data[..52 + 32 * a.used_items as usize].to_vec();
        if let Ok(r) = a.select_with_entropy(e) {
            assert!(!drawn.contains(&r));
            assert_eq!(&a.data[..prefix.len()], &prefix[..]);
            drawn.push(r);
        }
    }
    drawn.sort();
    let mut all: Vec<Record> = (0..8u8).map(|i| rec(b'A' + i)).collect();
    all.sort();
    assert_eq!(drawn, all);
}

#[test]
fn same_entropy_same_draw() {
    let seed = b"recent slot hashes".to_vec();
    let mut a = filled(5, 5);
    let mut b = filled(5, 5);
    let ra = a.select_item(&seed);
    let rb = b.select_item(&seed);
    assert!(ra.is_ok());
    assert_eq!(ra, rb);
    assert_eq!(a.data, b.data);
    assert_eq!(a.used_items, 1);
}

#[test]
fn last_record_is_forced() {
    let mut a = filled(5, 1);
    assert_eq!(a.select_with_entropy(0xdead_beef), Ok(rec(b'A')));
    assert_eq!(a.used_items, 1);
    let mut b = filled(3, 3);
    b.select_with_entropy(0).unwrap();
    b.select_with_entropy(1).unwrap();
    let left = b.show_item(2).unwrap();
    assert_eq!(b.select_with_entropy(77), Ok(left));
}

#[test]
fn draw_with_zero_increment_fails_without_change() {
    let mut a = filled(3, 3);
    // remaining 3, increment 0: the generator stays at 0, which is in [0, 3)
    assert_eq!(a.select_with_entropy(0), Ok(rec(b'A')));
    let before = a.data.clone();
    // remaining 2, increment 0: state 0 never reaches [1, 3)
    assert_eq!(a.select_with_entropy(4), Err(Errors::RandomNumberNotFound));
    assert_eq!(a.used_items, 1);
    assert_eq!(a.data, before);
}

#[test]
fn draw_swaps_selected_into_place() {
    let mut a = filled(5, 5);
    // remaining 5, entropy 1: increment 7, first state 7 is out of [0, 5);
    // states: 7, 54, 41, 68, 35, 42, 89, 76, 3 -> index 3
    assert_eq!(a.select_with_entropy(1), Ok(rec(b'D')));
    assert_eq!(a.show_item(0), Ok(rec(b'D')));
    assert_eq!(a.show_item(3), Ok(rec(b'A')));
    assert_eq!(a.show_item(1), Ok(rec(b'B')));
}

#[test]
fn entropy_comes_from_keccak_of_seed_and_pool_size() {
    let seed = b"some slot history".to_vec();
    let digest = anchor_lang::solana_program::keccak::hashv(&[&seed, &5u32.to_le_bytes()]).to_bytes();
    let mut e_bytes = [0u8; 8];
    e_bytes.copy_from_slice(&digest[..8]);
    let e = u64::from_le_bytes(e_bytes);
    let mut a = filled(5, 5);
    let mut b = filled(5, 5);
    assert_eq!(a.select_item(&seed), b.select_with_entropy(e));
    assert_eq!(a.data, b.data);
    assert_eq!(u64_from_le_prefix(&digest), e);
}

#[test]
fn little_endian_helpers() {
    assert_eq!(le_bytes(0x0403_0201), [1, 2, 3, 4]);
    let mut b = [0u8; 32];
    for (i, x) in b.iter_mut().enumerate() {
        *x = i as u8 + 1;
    }
    assert_eq!(u64_from_le_prefix(&b), 0x0807_0605_0403_0201);
}
