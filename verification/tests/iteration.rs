use dynarray::array::Vec;
use dynarray::iter::RawValIter;
use dynarray::raw::RawVec;
use std::cell::Cell;
use std::rc::Rc;

#[derive(Default)]
struct Counted {
    drops: Option<Rc<Cell<usize>>>,
    id: usize,
}

impl Drop for Counted {
    fn drop(&mut self) {
        if let Some(drops) = &self.drops {
            drops.set(drops.get() + 1);
        }
    }
}

fn counted(drops: &Rc<Cell<usize>>, id: usize) -> Counted {
    Counted { drops: Some(drops.clone()), id }
}

fn filled(items: &[i32]) -> Vec<i32> {
    let mut v = Vec::new();
    for x in items {
        v.push(*x);
    }
    v
}

#[test]
fn forward_traversal_yields_all_in_order_then_nothing() {
    let items: std::vec::Vec<i32> = (0..50).map(|i| i * i).collect();
    let mut it = filled(&items).into_iter();
    assert_eq!(it.size_hint(), (50, Some(50)));
    for (k, expected) in items.iter().enumerate() {
        assert_eq!(it.next(), Some(*expected));
        assert_eq!(it.size_hint(), (49 - k, Some(49 - k)));
    }
    assert_eq!(it.next(), None);
    assert_eq!(it.next(), None);
    assert_eq!(it.next_back(), None);
    assert_eq!(it.size_hint(), (0, Some(0)));
}

#[test]
fn backward_traversal_yields_all_in_reverse() {
    let mut it = filled(&[1, 2, 3, 4]).into_iter();
    assert_eq!(it.next_back(), Some(4));
    assert_eq!(it.next_back(), Some(3));
    assert_eq!(it.next_back(), Some(2));
    assert_eq!(it.next_back(), Some(1));
    assert_eq!(it.next_back(), None);
    assert_eq!(it.next(), None);
}

#[test]
fn interleaved_traversal_yields_each_slot_once() {
    let n = 37;
    let items: std::vec::Vec<i32> = (0..n).collect();
    let mut it = filled(&items).into_iter();
    let mut seen = vec![false; n as usize];
    let mut yielded = 0;
    let mut step = 0;
    loop {
        let got = if step % 3 == 0 { it.next_back() } else { it.next() };
        step += 1;
        match got {
            Some(x) => {
                assert!(!seen[x as usize]);
                seen[x as usize] = true;
                yielded += 1;
            }
            None => break,
        }
    }
    assert_eq!(yielded, n);
    assert!(seen.iter().all(|s| *s));
    assert_eq!(it.next(), None);
    assert_eq!(it.next_back(), None);
}

#[test]
fn interleaved_steps_meet_in_the_middle() {
    let mut it = filled(&[1, 2, 3, 4, 5]).into_iter();
    assert_eq!(it.next(), Some(1));
    assert_eq!(it.next_back(), Some(5));
    assert_eq!(it.next(), Some(2));
    assert_eq!(it.next_back(), Some(4));
    assert_eq!(it.size_hint(), (1, Some(1)));
    assert_eq!(it.next(), Some(3));
    assert_eq!(it.next_back(), None);
    assert_eq!(it.next(), None);
}

#[test]
fn empty_array_iterates_to_nothing() {
    let v: Vec<i32> = Vec::new();
    let mut it = v.into_iter();
    assert_eq!(it.size_hint(), (0, Some(0)));
    assert_eq!(it.next(), None);
    assert_eq!(it.next_back(), None);
}

#[test]
fn dropping_a_part_used_iterator_destroys_the_rest_once() {
    let drops = Rc::new(Cell::new(0));
    let mut v = Vec::new();
    for id in 1..=3 {
        v.push(counted(&drops, id));
    }
    let mut it = v.into_iter();
    let first = it.next().unwrap();
    let last = it.next_back().unwrap();
    assert_eq!(first.id, 1);
    assert_eq!(last.id, 3);
    assert_eq!(drops.get(), 0);
    drop(it);
    assert_eq!(drops.get(), 1);
    drop(first);
    drop(last);
    assert_eq!(drops.get(), 3);
}

#[test]
fn dropping_an_array_destroys_each_live_element_once() {
    let drops = Rc::new(Cell::new(0));
    let mut v = Vec::new();
    for id in 0..40 {
        v.push(counted(&drops, id));
    }
    let popped = v.pop().unwrap();
    let removed = v.remove(5);
    assert_eq!(popped.id, 39);
    assert_eq!(removed.id, 5);
    assert_eq!(drops.get(), 0);
    drop(v);
    assert_eq!(drops.get(), 38);
    drop(popped);
    drop(removed);
    assert_eq!(drops.get(), 40);
}

#[test]
fn append_neither_loses_nor_doubles_an_element() {
    let drops = Rc::new(Cell::new(0));
    let mut a = Vec::new();
    let mut b = Vec::new();
    for id in 0..3 {
        a.push(counted(&drops, id));
    }
    for id in 3..8 {
        b.push(counted(&drops, id));
    }
    a.append(&mut b);
    assert_eq!(drops.get(), 0);
    for id in 0..8 {
        assert_eq!(a.get(id).id, id);
    }
    drop(b);
    assert_eq!(drops.get(), 0);
    drop(a);
    assert_eq!(drops.get(), 8);
}

#[test]
fn cursor_steps_over_a_buffer_it_does_not_own() {
    let mut buf: RawVec<i32> = RawVec::new();
    let v = filled(&[11, 22, 33]);
    for i in 0..3 {
        buf.write(i, *v.get(i));
    }
    let mut cursor = RawValIter::new(&v);
    assert_eq!(cursor.size_hint(), (3, Some(3)));
    assert_eq!(cursor.next(&mut buf), Some(11));
    assert!(buf.as_block()[0].is_none());
    assert_eq!(cursor.next_back(&mut buf), Some(33));
    assert!(buf.as_block()[2].is_none());
    assert_eq!(cursor.size_hint(), (1, Some(1)));
    assert_eq!(cursor.next_back(&mut buf), Some(22));
    assert_eq!(cursor.next(&mut buf), None);
    assert_eq!(cursor.next_back(&mut buf), None);
    assert_eq!(cursor.size_hint(), (0, Some(0)));
    assert!(buf.as_block().iter().all(|slot| slot.is_none()));
}
