use rustcraft::chunk::packed_array::PackedArray;
use rustcraft::protocol_types::traits::WriteProt;

#[test]
fn new_array_is_all_zero() {
    let array = PackedArray::new(100, 5);
    assert_eq!(array.len(), 100);
    assert!(!array.is_empty());
    assert_eq!(array.bits_per_value(), 5);
    assert_eq!(array.max_value(), 31);
    // twelve values of five bits in a word
    assert_eq!(array.as_u64_slice().len(), 9);
    for i in 0..100 {
        assert_eq!(array.get(i), Some(0));
    }
    assert_eq!(array.get(100), None);
    assert!(PackedArray::new(0, 4).is_empty());
}

#[test]
fn values_do_not_cross_words() {
    let mut array = PackedArray::new(26, 5);
    for i in 0..26 {
        array.set(i, (i as u64 * 7) % 32);
    }
    for i in 0..26 {
        assert_eq!(array.get(i), Some((i as u64 * 7) % 32));
    }
    let words = array.as_u64_slice();
    assert_eq!(words.len(), 3);
    // the four highest bits of every word stay unused
    for word in words {
        assert_eq!(word >> 60, 0);
    }
    // value 12 is the lowest field of the second word
    assert_eq!(words[1] & 31, (12 * 7) % 32);
}

#[test]
fn set_leaves_the_neighbours_alone() {
    let mut array = PackedArray::new(32, 4);
    array.fill(15);
    array.set(17, 0);
    for i in 0..32 {
        assert_eq!(array.get(i), Some(if i == 17 { 0 } else { 15 }));
    }
    assert_eq!(array.as_u64_slice(), &[u64::MAX, 0xffff_ffff_ffff_ff0f]);
}

#[test]
fn fill_broadcasts_the_value() {
    let mut array = PackedArray::new(40, 6);
    array.fill(0b101010);
    assert_eq!(array.iter(), vec![0b101010u64; 40]);
    // ten values of six bits: 60 bits used
    let word = array.as_u64_slice()[0];
    assert_eq!(word, 0x0aaa_aaaa_aaaa_aaaa);
}

#[test]
fn sixty_four_bits_take_a_whole_word() {
    let mut array = PackedArray::new(3, 64);
    assert_eq!(array.max_value(), u64::MAX);
    array.set(1, u64::MAX);
    array.set(2, 0x0123_4567_89ab_cdef);
    assert_eq!(array.iter(), vec![0, u64::MAX, 0x0123_4567_89ab_cdef]);
    assert_eq!(array.as_u64_slice(), &[0, u64::MAX, 0x0123_4567_89ab_cdef]);
}

#[test]
fn one_bit_values() {
    let mut array = PackedArray::new(130, 1);
    assert_eq!(array.as_u64_slice().len(), 3);
    array.set(0, 1);
    array.set(64, 1);
    array.set(129, 1);
    assert_eq!(array.as_u64_slice(), &[1, 1, 2]);
    assert_eq!(array.iter().iter().sum::<u64>(), 3);
}

#[test]
fn resized_keeps_every_value() {
    let mut array = PackedArray::new(4096, 4);
    for i in 0..4096 {
        array.set(i, (i % 16) as u64);
    }
    let wider = array.resized(15);
    assert_eq!(wider.bits_per_value(), 15);
    assert_eq!(wider.len(), 4096);
    assert_eq!(wider.as_u64_slice().len(), 1024);
    assert_eq!(wider.iter(), array.iter());
    let mut wider = wider;
    let narrow = wider.resized(4);
    assert_eq!(narrow.as_u64_slice(), array.as_u64_slice());
}

#[test]
fn from_iter_packs_in_order() {
    let array = PackedArray::from_iter(vec![1, 2, 3, 4, 5], 16);
    assert_eq!(array.len(), 5);
    assert_eq!(array.as_u64_slice(), &[0x0004_0003_0002_0001, 0x0005]);
    assert_eq!(array.iter(), vec![1, 2, 3, 4, 5]);
    let empty = PackedArray::from_iter(vec![], 7);
    assert_eq!(empty.len(), 0);
    assert_eq!(empty.as_u64_slice().len(), 0);
}

#[test]
fn from_u64_vec_counts_the_bits() {
    let array = PackedArray::from_u64_vec(vec![0x0004_0003_0002_0001, 0x0005], 8);
    assert_eq!(array.bits_per_value(), 16);
    assert_eq!(array.len(), 8);
    assert_eq!(array.iter(), vec![1, 2, 3, 4, 5, 0, 0, 0]);
    let blocks = PackedArray::from_u64_vec(vec![0; 342], 4096);
    assert_eq!(blocks.bits_per_value(), 5);
}

#[test]
fn words_can_be_changed_from_outside() {
    let mut array = PackedArray::new(16, 4);
    array.as_u64_mut_vec()[0] = 0xfedc_ba98_7654_3210;
    assert_eq!(array.get(0), Some(0));
    assert_eq!(array.get(10), Some(10));
    assert_eq!(array.get(15), Some(15));
    array.set_bits_per_value(8);
    assert_eq!(array.bits_per_value(), 8);
    assert_eq!(array.max_value(), 255);
}

#[test]
fn copy_is_its_own() {
    let mut array = PackedArray::new(8, 8);
    array.set(3, 200);
    let copy = array.clone();
    array.set(3, 100);
    assert_eq!(copy.get(3), Some(200));
}

#[test]
fn words_travel_behind_their_number() {
    let array = PackedArray::from_iter(vec![1, 2, 3, 4, 5], 16);
    let words: Vec<u64> = array.as_u64_slice().to_vec();
    let mut out = Vec::new();
    rustcraft::protocol_types::sequences::write_items(&words, &mut out);
    assert_eq!(
        out,
        vec![2, 0, 4, 0, 3, 0, 2, 0, 1, 0, 0, 0, 0, 0, 0, 0, 5]
    );
    let mut one = Vec::new();
    words[1].write(&mut one);
    assert_eq!(one, vec![0, 0, 0, 0, 0, 0, 0, 5]);
}

#[test]
fn thirteen_values_of_five_bits_take_two_words() {
    let array = PackedArray::from_iter(vec![31u64; 13], 5);
    assert_eq!(array.len(), 13);
    assert_eq!(array.bits_per_value(), 5);
    assert_eq!(array.as_u64_slice(), &[0x0FFF_FFFF_FFFF_FFFF, 0x1F]);
    assert_eq!(array.get(12), Some(31));
}

#[test]
fn bits_that_hold_no_value_stay_as_they_are() {
    let array = PackedArray::new(13, 5);
    assert_eq!(array.as_u64_slice(), &[0, 0]);
    let mut array = array;
    array.set(12, 21);
    assert_eq!(array.as_u64_slice(), &[0, 21]);
    array.set(1, 3);
    assert_eq!(array.as_u64_slice(), &[3 << 5, 21]);
    // what stands above the fields is not touched by set
    array.as_u64_mut_vec()[0] |= 0xf << 60;
    array.set(1, 0);
    assert_eq!(array.as_u64_slice(), &[0xf << 60, 21]);
    // fill writes every field of every word, and nothing above the fields
    array.fill(31);
    assert_eq!(
        array.as_u64_slice(),
        &[0x0FFF_FFFF_FFFF_FFFF, 0x0FFF_FFFF_FFFF_FFFF]
    );
    // a resize packs the values afresh
    let packed = array.resized(5);
    assert_eq!(packed.as_u64_slice(), &[0x0FFF_FFFF_FFFF_FFFF, 0x1F]);
}
