use pump::mem::{MemLink, MemSink, MemSource};
use pump::pump::{chunk_budget, Pump, POLL_MICROS};

fn bytes(range: std::ops::Range<u8>) -> Vec<u8> {
    range.collect()
}

#[test]
fn upload_stops_exactly_at_limit() {
    let data = bytes(0..20);
    let link = MemLink::new(Vec::new(), 1000, 115200);
    let mut p = Pump::new(link, Some(10));
    let mut src = MemSource::new(data.clone());
    let r = p.upload(&mut src);
    assert!(r.is_ok());
    assert_eq!(p.link.outbound_bytes().as_slice(), &data[..10]);
}

#[test]
fn upload_sends_full_source_when_under_limit() {
    let data = bytes(0..5);
    let link = MemLink::new(Vec::new(), 1000, 115200);
    let mut p = Pump::new(link, Some(50));
    let mut src = MemSource::new(data.clone());
    let r = p.upload(&mut src);
    assert!(r.is_ok());
    assert_eq!(p.link.outbound_bytes().as_slice(), &data[..]);
}

#[test]
fn upload_without_limit_sends_everything_in_one_chunk() {
    let data = bytes(0..5);
    let link = MemLink::new(Vec::new(), 1000, 115200);
    let mut p = Pump::new(link, None);
    let mut src = MemSource::new(data.clone());
    let r = p.upload(&mut src);
    assert!(r.is_ok());
    assert_eq!(p.link.outbound_bytes().as_slice(), &data[..]);
    assert_eq!(p.link.write_count(), 1);
    assert_eq!(p.link.flush_count(), 1);
}

#[test]
fn upload_flushes_once_per_chunk() {
    let data = bytes(0..10);
    let link = MemLink::new(Vec::new(), 1000, 115200);
    let mut p = Pump::new(link, None);
    let mut src = MemSource::new(data.clone());
    src.set_read_cap(3);
    let r = p.upload(&mut src);
    assert!(r.is_ok());
    assert_eq!(p.link.outbound_bytes().as_slice(), &data[..]);
    // chunks of 3, 3, 3, 1
    assert_eq!(p.link.write_count(), 4);
    assert_eq!(p.link.flush_count(), 4);
}

#[test]
fn upload_chunks_land_exactly_on_limit() {
    let data = bytes(0..20);
    let link = MemLink::new(Vec::new(), 1000, 115200);
    let mut p = Pump::new(link, Some(7));
    let mut src = MemSource::new(data.clone());
    src.set_read_cap(3);
    let r = p.upload(&mut src);
    assert!(r.is_ok());
    // chunks of 3, 3, then 1: the total never passes the limit
    assert_eq!(p.link.outbound_bytes().as_slice(), &data[..7]);
    assert_eq!(p.link.write_count(), 3);
    assert_eq!(p.link.flush_count(), 3);
}

#[test]
fn upload_with_zero_limit_sends_nothing() {
    let link = MemLink::new(Vec::new(), 1000, 115200);
    let mut p = Pump::new(link, Some(0));
    let mut src = MemSource::new(vec![1, 2, 3]);
    let r = p.upload(&mut src);
    assert!(r.is_ok());
    assert!(p.link.outbound_bytes().is_empty());
}

#[test]
fn upload_polls_backpressured_fifo_without_timeout() {
    let mut link = MemLink::new(Vec::new(), 0, 115200);
    link.set_tx_busy_polls(5);
    let mut p = Pump::new(link, None);
    let mut src = MemSource::new(vec![9, 8, 7, 6]);
    let r = p.upload(&mut src);
    assert!(r.is_ok());
    let pauses = p.link.pauses_taken();
    assert_eq!(pauses.len(), 5);
    assert!(pauses.iter().all(|&us| us == POLL_MICROS));
    assert_eq!(p.link.outbound_bytes().as_slice(), &[9, 8, 7, 6]);
}

#[test]
fn upload_never_polls_when_timeout_is_set() {
    let mut link = MemLink::new(Vec::new(), 250, 115200);
    link.set_tx_busy_polls(5);
    let mut p = Pump::new(link, None);
    let mut src = MemSource::new(vec![9, 8, 7]);
    let r = p.upload(&mut src);
    assert!(r.is_ok());
    assert!(p.link.pauses_taken().is_empty());
    assert_eq!(p.link.outbound_bytes().as_slice(), &[9, 8, 7]);
}

#[test]
fn upload_propagates_source_failure() {
    let link = MemLink::new(Vec::new(), 1000, 115200);
    let mut p = Pump::new(link, None);
    let mut src = MemSource::new(vec![1, 2, 3]);
    src.set_fail_reads(true);
    let r = p.upload(&mut src);
    assert!(r.is_err());
    assert!(p.link.outbound_bytes().is_empty());
}

#[test]
fn upload_propagates_link_write_failure() {
    let mut link = MemLink::new(Vec::new(), 1000, 115200);
    link.set_fail_writes(true);
    let mut p = Pump::new(link, None);
    let mut src = MemSource::new(vec![1, 2, 3]);
    let r = p.upload(&mut src);
    assert!(r.is_err());
    assert!(p.link.outbound_bytes().is_empty());
}

#[test]
fn download_stops_exactly_at_limit() {
    let data = bytes(0..20);
    let link = MemLink::new(data.clone(), 1000, 115200);
    let mut p = Pump::new(link, Some(10));
    let mut sink = MemSink::new();
    let r = p.download(&mut sink);
    assert!(r.is_ok());
    assert_eq!(sink.received_bytes().as_slice(), &data[..10]);
    assert_eq!(sink.write_count(), sink.flush_count());
}

#[test]
fn download_completes_despite_empty_reads() {
    let data = bytes(0..15);
    let mut link = MemLink::new(data.clone(), 250, 115200);
    link.set_pre_empty_reads(4);
    let mut p = Pump::new(link, Some(10));
    let mut sink = MemSink::new();
    let r = p.download(&mut sink);
    assert!(r.is_ok());
    assert_eq!(sink.received_bytes().as_slice(), &data[..10]);
    // a configured timeout means no backpressure polling at all
    assert!(p.link.pauses_taken().is_empty());
}

#[test]
fn download_polls_empty_fifo_without_timeout() {
    let data = bytes(0..8);
    let mut link = MemLink::new(data.clone(), 0, 115200);
    link.set_rx_quiet_polls(3);
    let mut p = Pump::new(link, Some(8));
    let mut sink = MemSink::new();
    let r = p.download(&mut sink);
    assert!(r.is_ok());
    let pauses = p.link.pauses_taken();
    assert_eq!(pauses.len(), 3);
    assert!(pauses.iter().all(|&us| us == POLL_MICROS));
    assert_eq!(sink.received_bytes().as_slice(), &data[..]);
}

#[test]
fn download_without_limit_never_completes_on_its_own() {
    // A live link has no end-of-stream; the in-memory link stands in for
    // external cancellation by failing once its preload is drained. The
    // download keeps going past the last preloaded byte and never reports
    // success.
    let data = bytes(0..12);
    let link = MemLink::new(data.clone(), 250, 115200);
    let mut p = Pump::new(link, None);
    let mut sink = MemSink::new();
    let r = p.download(&mut sink);
    assert!(r.is_err());
    assert_eq!(sink.received_bytes().as_slice(), &data[..]);
    assert_eq!(sink.write_count(), sink.flush_count());
}

#[test]
fn download_flushes_once_per_chunk() {
    let data = bytes(0..10);
    let mut link = MemLink::new(data.clone(), 1000, 115200);
    link.set_pre_empty_reads(2);
    let mut p = Pump::new(link, Some(10));
    let mut sink = MemSink::new();
    let r = p.download(&mut sink);
    assert!(r.is_ok());
    assert!(sink.write_count() >= 1);
    assert_eq!(sink.write_count(), sink.flush_count());
}

#[test]
fn download_propagates_sink_failure() {
    let data = bytes(0..4);
    let link = MemLink::new(data, 1000, 115200);
    let mut p = Pump::new(link, Some(4));
    let mut sink = MemSink::new();
    sink.set_fail_writes(true);
    let r = p.download(&mut sink);
    assert!(r.is_err());
    assert!(sink.received_bytes().is_empty());
}

#[test]
fn transfer_copies_both_ways_and_waits_for_propagation() {
    let mut link = MemLink::new(b"world".to_vec(), 0, 115200);
    link.set_end_empty_reads(1);
    let mut p = Pump::new(link, None);
    let mut src = MemSource::new(b"hello".to_vec());
    let mut sink = MemSink::new();
    let r = p.transfer(&mut src, &mut sink);
    assert!(r.is_ok());
    assert_eq!(p.link.outbound_bytes().as_slice(), b"hello");
    assert_eq!(sink.received_bytes().as_slice(), b"world");
    // 1024 / (115200 / 4096) ms: about 36 ms
    assert_eq!(p.link.pauses_taken().as_slice(), &[36_000]);
}

#[test]
fn transfer_wait_scales_inversely_with_baud() {
    let mut link = MemLink::new(Vec::new(), 0, 4096);
    link.set_end_empty_reads(1);
    let mut p = Pump::new(link, None);
    let mut src = MemSource::new(Vec::new());
    let mut sink = MemSink::new();
    let r = p.transfer(&mut src, &mut sink);
    assert!(r.is_ok());
    // 1024 / (4096 / 4096) ms: the slowest permitted link waits the longest
    assert_eq!(p.link.pauses_taken().as_slice(), &[1_024_000]);
}

#[test]
fn upload_limit_equal_to_source_takes_it_all() {
    let data = bytes(0..5);
    let link = MemLink::new(Vec::new(), 1000, 115200);
    let mut p = Pump::new(link, Some(5));
    let mut src = MemSource::new(data.clone());
    let r = p.upload(&mut src);
    assert!(r.is_ok());
    assert_eq!(p.link.outbound_bytes().as_slice(), &data[..]);
}

#[test]
fn download_limit_equal_to_preload_takes_it_all() {
    let data = bytes(0..6);
    let link = MemLink::new(data.clone(), 1000, 115200);
    let mut p = Pump::new(link, Some(6));
    let mut sink = MemSink::new();
    let r = p.download(&mut sink);
    assert!(r.is_ok());
    assert_eq!(sink.received_bytes().as_slice(), &data[..]);
}

#[test]
fn transfer_propagates_source_failure() {
    let link = MemLink::new(Vec::new(), 0, 115200);
    let mut p = Pump::new(link, None);
    let mut src = MemSource::new(vec![1, 2]);
    src.set_fail_reads(true);
    let mut sink = MemSink::new();
    let r = p.transfer(&mut src, &mut sink);
    assert!(r.is_err());
    assert!(p.link.outbound_bytes().is_empty());
    assert!(sink.received_bytes().is_empty());
}

#[test]
fn chunk_budget_caps_at_the_limit() {
    // a chunk may never push the running total past the limit
    assert_eq!(chunk_budget(5, Some(3), 1), 2);
    assert_eq!(chunk_budget(2, Some(10), 3), 2);
    assert_eq!(chunk_budget(7, Some(7), 0), 7);
    assert_eq!(chunk_budget(4, None, 0), 4);
}
