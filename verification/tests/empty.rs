use iterator_utilities::empty::Empty;

#[test]
fn empty_yields_nothing() {
    let mut e = Empty::<u8>::new();
    assert_eq!(e.next(), None);
}

#[test]
fn empty_keeps_reporting_exhaustion() {
    let mut e = Empty::<String>::new();
    assert_eq!(e.next(), None);
    assert_eq!(e.next(), None);
    assert_eq!(e.next(), None);
}

#[test]
fn empty_collects_to_nothing() {
    let all: Vec<u64> = Empty::<u64>::new().collect();
    assert_eq!(all, Vec::<u64>::new());
}
