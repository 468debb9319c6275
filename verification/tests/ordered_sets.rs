use numbering::collect_all;
use numbering::DomainElement;
use numbering::DomainIter;
use numbering::IntRange;
use numbering::MapSet;
use numbering::OrderedSet;
use numbering::Singleton;

#[test]
fn test() {
    let range = IntRange::new(10);
    assert_eq!(range.index_of(-1), None);
    assert_eq!(range.index_of(0), Some(0));
    assert_eq!(range.index_of(3), Some(3));
    assert_eq!(range.index_of(9), Some(9));
    assert_eq!(range.index_of(10), None);
    assert_eq!(collect_all(range.iter()), (0..10).collect::<Vec<_>>());
    assert_eq!(range.len(), 10);
}

#[test]
fn empty_range() {
    let range = IntRange::new(0i64);
    assert_eq!(range.len(), 0);
    assert_eq!(collect_all(range.iter()), Vec::<i64>::new());
    assert_eq!(range.index_of(0), None);
    assert!(!range.contains(0));
}

#[test]
fn range_over_usize() {
    let range = IntRange::new(3usize);
    assert_eq!(range.len(), 3);
    assert_eq!(collect_all(range.iter()), vec![0usize, 1, 2]);
    assert_eq!(range.index_of(2), Some(2));
    assert_eq!(range.index_of(3), None);
    assert!(range.contains(1));
}

#[test]
fn range_restartable() {
    let range = IntRange::new(5i32);
    let first = collect_all(range.iter());
    let second = collect_all(range.iter());
    assert_eq!(first, vec![0, 1, 2, 3, 4]);
    assert_eq!(second, vec![0, 1, 2, 3, 4]);
}

#[test]
fn iterator_stays_exhausted() {
    let range = IntRange::new(2i32);
    let mut it = range.iter();
    assert_eq!(it.next(), Some(0));
    assert_eq!(it.next(), Some(1));
    assert_eq!(it.next(), None);
    assert_eq!(it.next(), None);
}

#[test]
fn singleton_membership() {
    let s = Singleton::new(42u64);
    assert_eq!(s.len(), 1);
    assert_eq!(s.index_of(42), Some(0));
    assert_eq!(s.index_of(7), None);
    assert!(s.contains(42));
    assert!(!s.contains(7));
    assert_eq!(collect_all(s.iter()), vec![42u64]);
}

#[test]
fn map_set_ordering() {
    let mut m = MapSet::new();
    assert_eq!(m.register('a'), 0);
    assert_eq!(m.register('b'), 1);
    assert_eq!(m.register('c'), 2);
    assert_eq!(m.index_of('a'), Some(0));
    assert_eq!(m.index_of('b'), Some(1));
    assert_eq!(m.index_of('c'), Some(2));
    assert_eq!(collect_all(m.iter()), vec!['a', 'b', 'c']);
    assert_eq!(m.len(), 3);
}

#[test]
fn map_set_duplicate_registration() {
    let mut m = MapSet::new();
    assert_eq!(m.register(5u32), 0);
    assert_eq!(m.register(9u32), 1);
    assert_eq!(m.register(5u32), 0);
    assert_eq!(m.len(), 2);
    assert_eq!(collect_all(m.iter()), vec![5u32, 9]);
    assert_eq!(m.index_of(4), None);
    assert!(!m.contains(4));
}

#[test]
fn map_set_empty() {
    let m = MapSet::<i64>::new();
    assert_eq!(m.len(), 0);
    assert_eq!(m.index_of(0), None);
    assert_eq!(collect_all(m.iter()), Vec::<i64>::new());
}

#[test]
fn bijection_round_trip() {
    let mut m = MapSet::new();
    m.register(10i64);
    m.register(-3i64);
    m.register(7i64);
    let elems = collect_all(m.iter());
    assert_eq!(elems.len(), m.len());
    for (i, e) in elems.iter().enumerate() {
        assert_eq!(m.index_of(*e), Some(i));
    }

    let range = IntRange::new(6i32);
    let elems = collect_all(range.iter());
    assert_eq!(elems.len(), range.len());
    for (i, e) in elems.iter().enumerate() {
        assert_eq!(range.index_of(*e), Some(i));
    }

    let s = Singleton::new(false);
    let elems = collect_all(s.iter());
    assert_eq!(elems.len(), s.len());
    for (i, e) in elems.iter().enumerate() {
        assert_eq!(s.index_of(*e), Some(i));
    }
}

#[test]
fn enumeration_complete_and_duplicate_free() {
    let mut m = MapSet::new();
    m.register('x');
    m.register('y');
    m.register('x');
    m.register('z');
    let elems = collect_all(m.iter());
    assert_eq!(elems.len(), m.len());
    for i in 0..elems.len() {
        for j in (i + 1)..elems.len() {
            assert_ne!(elems[i], elems[j]);
        }
    }
}

#[test]
fn element_equality_decision() {
    assert!(3i32.eq_elem(&3));
    assert!(!3i32.eq_elem(&4));
    assert!('q'.eq_elem(&'q'));
    assert!(!true.eq_elem(&false));
    assert!(5usize.eq_elem(&5));
}
