use requestx::streaming::{chunk_size_or_default, iter_plan, split_lines, ContentChunks, IterPlan, Rechunker};

#[test]
fn content_chunks() {
    let mut c = ContentChunks::new(b"abcdefg".to_vec(), 3);
    assert_eq!(c.next(), Some(b"abc".to_vec()));
    assert_eq!(c.next(), Some(b"def".to_vec()));
    assert_eq!(c.next(), Some(b"g".to_vec()));
    assert_eq!(c.next(), None);
    let mut big = ContentChunks::new(b"ab".to_vec(), usize::MAX);
    assert_eq!(big.next(), Some(b"ab".to_vec()));
    assert_eq!(chunk_size_or_default(None), 65536);
}

#[test]
fn rechunking_keeps_every_byte() {
    let mut r = Rechunker::new(4);
    assert_eq!(r.pop_buffered(), None);
    assert_eq!(r.accept(vec![]), None);
    assert_eq!(r.accept(b"abcdefghij".to_vec()), Some(b"abcd".to_vec()));
    assert_eq!(r.pop_buffered(), Some(b"efgh".to_vec()));
    assert_eq!(r.pop_buffered(), Some(b"ij".to_vec()));
    assert_eq!(r.pop_buffered(), None);
    assert_eq!(r.accept(b"xy".to_vec()), Some(b"xy".to_vec()));
}

#[test]
fn lines() {
    assert_eq!(split_lines("a\r\nb\nc\rd"), vec!["a", "b", "c", "d"]);
    assert_eq!(split_lines("a\n\nb\n"), vec!["a", "", "b"]);
    assert!(split_lines("").is_empty());
}

#[test]
fn plans() {
    assert_eq!(iter_plan(true, true, false, true), IterPlan::AsyncStreamError);
    assert_eq!(iter_plan(false, false, true, true), IterPlan::StreamConsumed);
    assert_eq!(iter_plan(true, false, true, true), IterPlan::FromStream);
    assert_eq!(iter_plan(false, false, true, false), IterPlan::FromContent);
}
