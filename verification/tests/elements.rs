use header_vec::HeaderVec;
use std::cell::{Cell, RefCell};
use std::rc::Rc;

/// Counts how often a value of it is dropped.
struct Counted {
    value: u32,
    drops: Rc<Cell<usize>>,
}

impl Drop for Counted {
    fn drop(&mut self) {
        self.drops.set(self.drops.get() + 1);
    }
}

fn counted(value: u32, drops: &Rc<Cell<usize>>) -> Counted {
    Counted { value, drops: drops.clone() }
}

#[test]
fn pushes_come_out_in_order() {
    let mut hv = HeaderVec::new(());
    let mut expected = Vec::new();
    for i in 0..100u64 {
        hv.push(i * i);
        expected.push(i * i);
        assert_eq!(hv.len(), expected.len());
        assert_eq!(hv.as_slice(), expected.as_slice());
    }
}

#[test]
fn push_reports_the_old_address_exactly_when_the_buffer_moved() {
    let mut hv = HeaderVec::new(());
    for i in 0..5000u32 {
        let before = hv.ptr();
        let had_room = hv.len() < hv.capacity();
        let previous = hv.push(i);
        if hv.ptr() != before {
            assert_eq!(previous, Some(before));
            assert!(!hv.is(before));
        } else {
            assert_eq!(previous, None);
            assert!(hv.is(before));
        }
        if had_room {
            assert_eq!(previous, None);
        }
    }
}

#[test]
fn resizes_report_the_old_address_exactly_when_the_buffer_moved() {
    let mut hv = HeaderVec::with_capacity(2, ());
    hv.push(1u8);
    for step in 1..40usize {
        let before = hv.ptr();
        let previous = match step % 4 {
            0 => hv.reserve(step * 100),
            1 => hv.reserve_exact(step * 1000),
            2 => hv.shrink_to(step),
            _ => hv.shrink_to_fit(),
        };
        if hv.ptr() != before {
            assert_eq!(previous, Some(before));
        } else {
            assert_eq!(previous, None);
        }
        assert_eq!(hv.as_slice(), [1]);
    }
}

#[test]
fn weak_handles_follow_the_buffer_once_updated() {
    let mut hv = HeaderVec::new("node");
    let mut weak = hv.weak();
    assert_eq!(weak.ptr(), hv.ptr());
    assert!(weak.is(hv.ptr()));
    for i in 0..2000u32 {
        if let Some(previous) = hv.push(i) {
            assert!(weak.is(previous));
            assert!(!hv.is(weak.ptr()));
            weak.update(hv.weak());
        }
        assert!(hv.is(weak.ptr()));
    }
    hv.update(weak);
    assert_eq!(hv.len(), 2000);
    assert_eq!(*hv, "node");
}

#[test]
fn retain_keeps_what_the_predicate_accepts() {
    let mut hv = HeaderVec::with_capacity(16, 'h');
    for i in 1..=10u32 {
        hv.push(i);
    }
    let at = hv.ptr();
    hv.retain(|x| x % 2 == 0);
    assert_eq!(hv.as_slice(), [2, 4, 6, 8, 10]);
    assert_eq!(hv.len(), 5);
    assert_eq!(hv.capacity(), 16);
    assert_eq!(hv.ptr(), at);
    hv.retain(|_| true);
    assert_eq!(hv.as_slice(), [2, 4, 6, 8, 10]);
    hv.retain(|_| false);
    assert!(hv.is_empty());
    assert_eq!(hv.capacity(), 16);
    assert_eq!(*hv, 'h');
}

#[test]
fn retain_asks_once_of_each_element_in_order() {
    let mut hv = HeaderVec::new(());
    for i in 0..8u8 {
        hv.push(i);
    }
    let mut asked = Vec::new();
    hv.retain(|x| {
        asked.push(*x);
        *x != 0 && *x != 5
    });
    assert_eq!(asked, vec![0, 1, 2, 3, 4, 5, 6, 7]);
    assert_eq!(hv.as_slice(), [1, 2, 3, 4, 6, 7]);
}

#[test]
fn retain_drops_what_the_predicate_rejects() {
    let drops = Rc::new(Cell::new(0));
    let mut hv = HeaderVec::new(());
    for i in 0..10 {
        hv.push(counted(i, &drops));
    }
    hv.retain(|c| c.value % 3 == 0);
    assert_eq!(drops.get(), 6);
    let left: Vec<u32> = hv.as_slice().iter().map(|c| c.value).collect();
    assert_eq!(left, vec![0, 3, 6, 9]);
    drop(hv);
    assert_eq!(drops.get(), 10);
}

#[test]
fn dropping_the_vector_drops_header_and_elements_once() {
    let head_drops = Rc::new(Cell::new(0));
    let drops = Rc::new(Cell::new(0));
    {
        let mut hv = HeaderVec::new(counted(0, &head_drops));
        for i in 0..33 {
            hv.push(counted(i, &drops));
        }
        let weak = hv.weak();
        drop(weak);
        assert_eq!(head_drops.get(), 0);
        assert_eq!(drops.get(), 0);
        assert_eq!(hv.len(), 33);
    }
    assert_eq!(head_drops.get(), 1);
    assert_eq!(drops.get(), 33);
}

#[test]
fn a_clone_equals_its_source_and_shares_nothing() {
    let mut source = HeaderVec::with_capacity(8, String::from("head"));
    source.push(1);
    source.push(2);
    source.push(3);
    let mut copy = source.clone();
    assert_eq!(copy, source);
    assert_eq!(copy.capacity(), 3);
    assert_ne!(copy.ptr(), source.ptr());

    copy.push(4);
    copy.push_str(" of the copy");
    copy.as_mut_slice()[0] = 10;
    assert_eq!(source.as_slice(), [1, 2, 3]);
    assert_eq!(*source, "head");
    assert_eq!(copy.as_slice(), [10, 2, 3, 4]);
    assert_eq!(*copy, "head of the copy");
    assert_ne!(copy, source);

    source.retain(|x| *x != 2);
    source.clear();
    assert_eq!(source.as_slice(), [1, 3]);
    assert_eq!(*source, "");
    assert_eq!(copy.as_slice(), [10, 2, 3, 4]);
    assert_eq!(*copy, "head of the copy");
}

#[test]
fn a_clone_of_an_empty_vector_has_room_for_one() {
    let source: HeaderVec<u8, u8> = HeaderVec::with_capacity(5, 9);
    let copy = source.clone();
    assert_eq!(copy, source);
    assert_eq!(copy.len(), 0);
    assert_eq!(copy.capacity(), 1);
    assert_eq!(*copy, 9);
}

#[test]
fn equality_is_of_header_and_elements() {
    let mut a = HeaderVec::with_capacity(2, 'h');
    let mut b = HeaderVec::with_capacity(50, 'h');
    assert_eq!(a, b);
    a.push(1);
    assert_ne!(a, b);
    b.push(1);
    assert_eq!(a, b);
    a.push(2);
    b.push(3);
    assert_ne!(a, b);
    let mut c = HeaderVec::with_capacity(2, 'g');
    c.push(1);
    c.push(2);
    assert_ne!(a, c);
    *c = 'h';
    assert_eq!(a, c);
}

#[test]
fn elements_are_reached_by_index_and_by_slice() {
    let mut hv = HeaderVec::new((1u8, 2u8));
    for c in "header".chars() {
        hv.push(c);
    }
    assert_eq!(hv[0], 'h');
    assert_eq!(hv[5], 'r');
    assert_eq!(hv[1..4], ['e', 'a', 'd']);
    assert_eq!(hv[..], ['h', 'e', 'a', 'd', 'e', 'r']);
    hv.as_mut_slice()[0] = 'l';
    hv.as_mut_slice().swap(1, 5);
    assert_eq!(hv.as_slice(), ['l', 'r', 'a', 'd', 'e', 'e']);
    assert_eq!(hv.as_slice_atomic_acquire(), hv.as_slice());
    assert_eq!(hv.len(), 6);
    hv.0 = 7;
    assert_eq!(*hv, (7, 2));
}

/// Writes its name into a shared record when it is dropped.
struct Recorded {
    name: &'static str,
    record: Rc<RefCell<Vec<&'static str>>>,
}

impl Drop for Recorded {
    fn drop(&mut self) {
        self.record.borrow_mut().push(self.name);
    }
}

#[test]
fn the_header_is_dropped_before_the_elements_in_order() {
    let record = Rc::new(RefCell::new(Vec::new()));
    let mut hv = HeaderVec::new(Recorded { name: "head", record: record.clone() });
    for name in ["first", "second", "third"] {
        hv.push(Recorded { name, record: record.clone() });
    }
    assert!(record.borrow().is_empty());
    drop(hv);
    assert_eq!(*record.borrow(), vec!["head", "first", "second", "third"]);
}

#[test]
fn update_takes_the_address_that_the_handle_names() {
    let mut hv = HeaderVec::with_capacity(4, 'h');
    hv.push(1u8);
    hv.push(2);
    let other: HeaderVec<char, u8> = HeaderVec::with_capacity(4, 'o');
    assert_ne!(hv.ptr(), other.ptr());

    let own = hv.weak();
    hv.update(other.weak());
    assert_eq!(hv.ptr(), other.ptr());
    assert!(hv.is(other.ptr()));
    assert!(!hv.is(own.ptr()));
    assert_eq!(hv.as_slice(), [1, 2]);
    assert_eq!(*hv, 'h');
    assert_eq!(hv.len(), 2);
    assert_eq!(hv.capacity(), 4);

    hv.update(own);
    assert!(!hv.is(other.ptr()));
    assert_eq!(hv.ptr(), hv.weak().ptr());
    assert_eq!(hv.as_slice(), [1, 2]);
}
