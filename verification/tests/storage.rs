use dynarray::marker::PhantomData;
use dynarray::nondet::NonDet;
use dynarray::raw::{allocate, sized_realloc, RawVec, Unique, START_CAPACITY};

#[test]
fn allocate_gives_uninitialized_slots() {
    let block: std::vec::Vec<Option<u32>> = allocate(5);
    assert_eq!(block, vec![None, None, None, None, None]);
    let none: std::vec::Vec<Option<u32>> = allocate(0);
    assert!(none.is_empty());
}

#[test]
fn sized_realloc_moves_the_leading_slots() {
    let mut orig = vec![Some(1), Some(2), None, Some(4)];
    let block = sized_realloc(&mut orig, 3, 6);
    assert_eq!(block, vec![Some(1), Some(2), None, None, None, None]);
    assert_eq!(orig, vec![None, None, None, Some(4)]);
}

#[test]
fn sized_realloc_of_nothing() {
    let mut orig: std::vec::Vec<Option<u8>> = vec![Some(9)];
    let block = sized_realloc(&mut orig, 0, 2);
    assert_eq!(block, vec![None, None]);
    assert_eq!(orig, vec![Some(9)]);
}

#[test]
fn unique_owns_the_block_it_was_given() {
    let u: Unique<i64> = Unique::new(vec![Some(3), None]);
    assert_eq!(*u.as_ptr(), vec![Some(3), None]);
}

#[test]
fn raw_buffer_starts_at_the_starting_capacity() {
    let buf: RawVec<u16> = RawVec::new();
    assert_eq!(buf.cap(), START_CAPACITY);
    assert_eq!(buf.as_block().len(), 32);
    assert!(buf.as_block().iter().all(|slot| slot.is_none()));
}

#[test]
fn raw_buffer_doubles_and_keeps_its_slots() {
    let mut buf: RawVec<u16> = RawVec::new();
    buf.write(0, 5);
    buf.write(31, 6);
    buf.grow();
    assert_eq!(buf.cap(), 64);
    assert_eq!(buf.as_block().len(), 64);
    assert_eq!(*buf.peek(0), 5);
    assert_eq!(*buf.peek(31), 6);
    assert!(buf.as_block()[32..].iter().all(|slot| slot.is_none()));
    buf.grow();
    assert_eq!(buf.cap(), 128);
    assert_eq!(*buf.peek(31), 6);
}

#[test]
fn raw_buffer_read_leaves_the_slot_uninitialized() {
    let mut buf: RawVec<String> = RawVec::new();
    buf.write(2, String::from("x"));
    assert_eq!(buf.peek(2).as_str(), "x");
    buf.peek_mut(2).push('y');
    assert_eq!(buf.read(2), "xy");
    assert!(buf.as_block()[2].is_none());
}

#[test]
fn raw_buffer_shifts_slots_up_and_down() {
    let mut buf: RawVec<i32> = RawVec::new();
    for i in 0..4 {
        buf.write(i, (i as i32) * 10);
    }
    buf.shift_up(1, 3);
    let expected_up = [Some(0), None, Some(10), Some(20), Some(30), None];
    assert_eq!(&buf.as_block()[..6], &expected_up[..]);
    buf.shift_down(1, 3);
    let expected_down = [Some(0), Some(10), Some(20), Some(30), None, None];
    assert_eq!(&buf.as_block()[..6], &expected_down[..]);
    buf.shift_up(4, 0);
    assert_eq!(&buf.as_block()[..6], &expected_down[..]);
}

#[test]
fn marker_default_builds() {
    let _marker: PhantomData<u32> = Default::default();
    let _other: PhantomData<String> = PhantomData::default();
}

#[test]
fn nondet_gives_the_value_back() {
    assert_eq!((-5i8).nondet(), -5);
    assert_eq!(200u8.nondet(), 200);
    assert_eq!((-300i16).nondet(), -300);
    assert_eq!(60000u16.nondet(), 60000);
    assert_eq!(i32::MIN.nondet(), i32::MIN);
    assert_eq!(u32::MAX.nondet(), u32::MAX);
    assert_eq!(i64::MIN.nondet(), i64::MIN);
    assert_eq!(u64::MAX.nondet(), u64::MAX);
}
