use iterator_utilities::buffer::{BufferError, IteratorBuffer};
use iterator_utilities::empty::Empty;

#[test]
fn buffer_test1() {
    let mut ib = IteratorBuffer::new(0..4, 2);
    assert_eq!(ib[0], 0);
    assert!(ib.starts_with(&[0, 1]));
    assert_eq!(ib.pop(), Some(0));
    assert_eq!(ib[0], 1);
    assert!(!ib.starts_with(&[1, 2]));
    *ib.at_mut(1).unwrap() = 5;
    assert_eq!(ib.pop(), Some(1));
    assert!(ib.ends_with(&[5, 3]));
    assert_eq!(ib.pop(), Some(5));
    assert_eq!(ib.pop(), Some(3));
    assert_eq!(ib.pop(), None);
}

#[test]
fn scenario_shows_the_window_at_every_step() {
    let mut ib = IteratorBuffer::new(0..4, 2);
    assert_eq!(ib.buffer(), &[0, 1, 2]);
    assert_eq!(ib.len(), 3);
    assert!(ib.is_opening());
    assert!(!ib.is_closing());
    assert!(ib.starts_with(&[0, 1]));
    assert_eq!(ib.pop(), Some(0));
    assert_eq!(ib.buffer(), &[1, 2, 3]);
    assert!(!ib.is_opening());
    assert!(!ib.starts_with(&[1, 2]));
    *ib.at_mut(1).unwrap() = 5;
    assert_eq!(ib.buffer(), &[1, 5, 3]);
    assert_eq!(ib.pop(), Some(1));
    assert_eq!(ib.buffer(), &[5, 3]);
    assert!(ib.is_closing());
    assert!(ib.ends_with(&[5, 3]));
    assert_eq!(ib.pop(), Some(5));
    assert_eq!(ib.pop(), Some(3));
    assert_eq!(ib.pop(), None);
    assert_eq!(ib.len(), 0);
}

#[test]
fn construction_fills_up_to_one_more_than_the_size() {
    let ib = IteratorBuffer::new(0..10, 3);
    assert_eq!(ib.len(), 4);
    assert_eq!(ib.buffer(), &[0, 1, 2, 3]);
    assert!(!ib.is_closing());
    assert!(ib.is_opening());
}

#[test]
fn construction_over_a_source_of_exactly_the_capacity_is_not_closing() {
    let ib = IteratorBuffer::new(0..4, 3);
    assert_eq!(ib.len(), 4);
    assert!(!ib.is_closing());
}

#[test]
fn construction_over_a_short_source_is_closing() {
    let ib = IteratorBuffer::new(0..3, 3);
    assert_eq!(ib.len(), 3);
    assert_eq!(ib.buffer(), &[0, 1, 2]);
    assert!(ib.is_closing());
    assert!(ib.is_opening());
}

#[test]
fn a_window_of_size_zero_still_holds_one_element() {
    let mut ib = IteratorBuffer::new(7..9, 0);
    assert_eq!(ib.buffer(), &[7]);
    assert!(!ib.is_closing());
    assert_eq!(ib.pop(), Some(7));
    assert_eq!(ib.buffer(), &[8]);
    assert!(!ib.is_closing());
    assert_eq!(ib.pop(), Some(8));
    assert!(ib.is_closing());
    assert_eq!(ib.pop(), None);
}

#[test]
fn an_empty_source_gives_an_empty_closing_buffer() {
    let mut ib = IteratorBuffer::new(Empty::<u32>::new(), 2);
    assert_eq!(ib.len(), 0);
    assert!(ib.is_closing());
    assert!(ib.is_opening());
    assert!(ib.starts_with(&[]));
    assert!(ib.ends_with(&[]));
    assert_eq!(ib.at(0), Err(BufferError::IndexOutOfRange));
    assert_eq!(ib.pop(), None);
    assert!(!ib.is_opening());
    assert!(!ib.starts_with(&[]));
    assert!(ib.ends_with(&[]));
    assert_eq!(ib.pop(), None);
}

#[test]
fn opening_ends_with_the_first_pop_and_stays_ended() {
    let mut ib = IteratorBuffer::new(0..6, 1);
    assert!(ib.is_opening());
    assert_eq!(ib.replace(1, &[9]), Ok(()));
    assert!(ib.is_opening());
    *ib.at_mut(0).unwrap() = 4;
    assert!(ib.is_opening());
    assert_eq!(ib.pop(), Some(4));
    assert!(!ib.is_opening());
    assert_eq!(ib.replace(0, &[0, 1]), Ok(()));
    assert!(!ib.is_opening());
    assert!(!ib.starts_with(&[0, 1]));
    *ib.at_mut(0).unwrap() = 3;
    assert!(!ib.is_opening());
    while ib.pop().is_some() {
        assert!(!ib.is_opening());
    }
    assert!(!ib.is_opening());
}

#[test]
fn closing_starts_when_the_source_runs_dry_and_stays() {
    let mut ib = IteratorBuffer::new(0..5, 2);
    assert!(!ib.is_closing());
    assert_eq!(ib.pop(), Some(0));
    assert!(!ib.is_closing());
    assert_eq!(ib.pop(), Some(1));
    assert_eq!(ib.buffer(), &[2, 3, 4]);
    assert!(!ib.is_closing());
    assert_eq!(ib.pop(), Some(2));
    assert_eq!(ib.buffer(), &[3, 4]);
    assert!(ib.is_closing());
    assert_eq!(ib.replace(1, &[8, 9]), Ok(()));
    assert!(ib.is_closing());
    *ib.at_mut(0).unwrap() = 7;
    assert!(ib.is_closing());
    assert_eq!(ib.pop(), Some(7));
    assert_eq!(ib.pop(), Some(9));
    assert_eq!(ib.pop(), Some(4));
    assert!(ib.is_closing());
    assert_eq!(ib.pop(), None);
    assert!(ib.is_closing());
}

#[test]
fn popping_to_the_end_yields_the_source_in_order() {
    let source: Vec<u32> = vec![3, 1, 4, 1, 5, 9, 2, 6, 5, 3];
    let mut ib = IteratorBuffer::new(source.clone().into_iter(), 3);
    let mut seen: Vec<u32> = Vec::new();
    while let Some(x) = ib.pop() {
        assert!(ib.len() <= 4);
        seen.push(x);
    }
    assert_eq!(seen, source);
    assert_eq!(ib.pop(), None);
    assert_eq!(ib.len(), 0);
}

#[test]
fn popping_keeps_the_window_one_longer_than_the_size() {
    let mut ib = IteratorBuffer::new(0..100, 4);
    assert_eq!(ib.pop(), Some(0));
    assert_eq!(ib.buffer(), &[1, 2, 3, 4, 5]);
    assert_eq!(ib.pop(), Some(1));
    assert_eq!(ib.buffer(), &[2, 3, 4, 5, 6]);
}

#[test]
fn replace_with_nothing_removes_the_front_and_keeps_the_rest() {
    let mut ib = IteratorBuffer::new(0..10, 3);
    assert_eq!(ib.buffer(), &[0, 1, 2, 3]);
    assert_eq!(ib.replace(2, &[]), Ok(()));
    assert_eq!(ib.buffer(), &[2, 3]);
    assert_eq!(*ib.at_mut(0).unwrap(), 2);
    assert_eq!(ib.buffer(), &[2, 3, 4, 5]);
    assert_eq!(ib.pop(), Some(2));
    assert_eq!(ib.pop(), Some(3));
    assert_eq!(ib.pop(), Some(4));
}

#[test]
fn replace_puts_copies_in_front_of_what_remains() {
    let mut ib = IteratorBuffer::new(0..10, 3);
    assert_eq!(ib.replace(3, &[7, 8]), Ok(()));
    assert_eq!(ib.buffer(), &[7, 8, 3]);
    assert_eq!(ib.len(), 3);
    assert_eq!(ib.pop(), Some(7));
    assert_eq!(ib.buffer(), &[8, 3, 4, 5]);
}

#[test]
fn replace_may_grow_the_window_beyond_its_capacity() {
    let mut ib = IteratorBuffer::new(0..10, 1);
    assert_eq!(ib.buffer(), &[0, 1]);
    assert_eq!(ib.replace(1, &[5, 6, 7, 8]), Ok(()));
    assert_eq!(ib.buffer(), &[5, 6, 7, 8, 1]);
    assert_eq!(ib.pop(), Some(5));
    assert_eq!(ib.buffer(), &[6, 7, 8, 1]);
    assert_eq!(ib.pop(), Some(6));
    assert_eq!(ib.pop(), Some(7));
    assert_eq!(ib.pop(), Some(8));
    assert_eq!(ib.buffer(), &[1, 2]);
}

#[test]
fn replace_does_not_refill() {
    let mut ib = IteratorBuffer::new(0..10, 2);
    assert_eq!(ib.replace(3, &[]), Ok(()));
    assert_eq!(ib.len(), 0);
    assert_eq!(ib.at(0), Err(BufferError::IndexOutOfRange));
    assert!(!ib.is_closing());
    assert_eq!(ib.pop(), Some(3));
}

#[test]
fn replace_rejects_a_count_beyond_the_window() {
    let mut ib = IteratorBuffer::new(0..10, 2);
    assert_eq!(ib.replace(4, &[1]), Err(BufferError::InvalidRemoveCount));
    assert_eq!(ib.buffer(), &[0, 1, 2]);
    assert!(ib.is_opening());
    assert_eq!(ib.replace(3, &[1]), Ok(()));
    assert_eq!(ib.buffer(), &[1]);
}

#[test]
fn at_reads_the_window_as_it_is() {
    let ib = IteratorBuffer::new(0..2, 4);
    assert_eq!(ib.len(), 2);
    assert_eq!(ib.at(0), Ok(&0));
    assert_eq!(ib.at(1), Ok(&1));
    assert_eq!(ib.at(2), Err(BufferError::IndexOutOfRange));
}

#[test]
fn at_mut_refills_before_it_looks() {
    let mut ib = IteratorBuffer::new(0..10, 2);
    assert_eq!(ib.replace(2, &[]), Ok(()));
    assert_eq!(ib.at(1), Err(BufferError::IndexOutOfRange));
    assert_eq!(ib.at_mut(2).map(|slot| *slot), Ok(4));
    assert_eq!(ib.buffer(), &[2, 3, 4]);
    assert_eq!(ib.at_mut(3).map(|slot| *slot), Err(BufferError::IndexOutOfRange));
    assert_eq!(ib.buffer(), &[2, 3, 4]);
}

#[test]
fn at_mut_writes_through() {
    let mut ib = IteratorBuffer::new(10..20, 2);
    *ib.at_mut(2).unwrap() = 0;
    assert_eq!(ib.buffer(), &[10, 11, 0]);
    assert_eq!(ib.pop(), Some(10));
    assert_eq!(ib.pop(), Some(11));
    assert_eq!(ib.pop(), Some(0));
    assert_eq!(ib.pop(), Some(13));
}

#[test]
fn starts_with_is_a_prefix_test_on_the_untouched_stream() {
    let ib = IteratorBuffer::new(0..10, 2);
    assert!(ib.starts_with(&[]));
    assert!(ib.starts_with(&[0]));
    assert!(ib.starts_with(&[0, 1]));
    assert!(ib.starts_with(&[0, 1, 2]));
    assert!(!ib.starts_with(&[1]));
    assert!(!ib.starts_with(&[0, 2]));
    assert!(!ib.starts_with(&[0, 1, 3]));
}

#[test]
fn starts_with_is_false_for_a_pattern_longer_than_the_window() {
    let ib = IteratorBuffer::new(0..10, 2);
    assert!(!ib.starts_with(&[0, 1, 2, 3]));
    let short = IteratorBuffer::new(0..2, 2);
    assert!(short.starts_with(&[0, 1]));
    assert!(!short.starts_with(&[0, 1, 2]));
}

#[test]
fn starts_with_is_false_after_a_pop_even_if_the_rest_matches() {
    let mut ib = IteratorBuffer::new(0..10, 2);
    assert_eq!(ib.pop(), Some(0));
    assert_eq!(ib.buffer(), &[1, 2, 3]);
    assert!(!ib.starts_with(&[1, 2]));
    assert!(!ib.starts_with(&[]));
}

#[test]
fn ends_with_needs_an_exhausted_source_and_the_whole_window() {
    let mut ib = IteratorBuffer::new(0..4, 2);
    assert!(!ib.ends_with(&[0, 1, 2]));
    assert_eq!(ib.pop(), Some(0));
    assert_eq!(ib.buffer(), &[1, 2, 3]);
    assert!(!ib.is_closing());
    assert!(!ib.ends_with(&[1, 2, 3]));
    assert_eq!(ib.pop(), Some(1));
    assert!(ib.is_closing());
    assert!(ib.ends_with(&[2, 3]));
    assert!(!ib.ends_with(&[3]));
    assert!(!ib.ends_with(&[1, 2, 3]));
    assert!(!ib.ends_with(&[2, 4]));
    assert!(!ib.ends_with(&[]));
}

#[test]
fn elements_are_compared_with_their_own_equality() {
    let words = vec![String::from("a"), String::from("b"), String::from("c")];
    let mut ib = IteratorBuffer::new(words.into_iter(), 5);
    assert!(ib.is_closing());
    assert!(ib.starts_with(&[String::from("a"), String::from("b")]));
    assert!(ib.ends_with(&[String::from("a"), String::from("b"), String::from("c")]));
    assert_eq!(ib.replace(1, &[String::from("x"), String::from("y")]), Ok(()));
    assert_eq!(ib.pop(), Some(String::from("x")));
    assert_eq!(ib.pop(), Some(String::from("y")));
    assert_eq!(ib.pop(), Some(String::from("b")));
}

#[test]
fn the_largest_window_takes_the_whole_source() {
    let mut ib = IteratorBuffer::new(0..5, usize::MAX);
    assert_eq!(ib.buffer(), &[0, 1, 2, 3, 4]);
    assert!(ib.is_closing());
    assert!(ib.starts_with(&[0, 1, 2, 3, 4]));
    assert!(ib.ends_with(&[0, 1, 2, 3, 4]));
    assert_eq!(ib.pop(), Some(0));
    assert_eq!(ib.buffer(), &[1, 2, 3, 4]);
}
