use qbz::streaming::{BufferedMediaSource, SeekFrom, StreamError, StreamingConfig};

#[test]
fn test_basic_read_write() {
    let config = StreamingConfig {
        initial_buffer_bytes: 10,
        max_buffer_bytes: 100,
    };
    let (mut source, writer) = BufferedMediaSource::new(config, Some(20));

    writer.push_chunk(&mut source, b"Hello").unwrap();
    writer.push_chunk(&mut source, b"World").unwrap();

    let mut buf = [0u8; 5];
    assert_eq!(source.read(&mut buf).unwrap(), 5);
    assert_eq!(&buf, b"Hello");

    assert_eq!(source.read(&mut buf).unwrap(), 5);
    assert_eq!(&buf, b"World");
}

#[test]
fn test_seek_within_buffer() {
    let config = StreamingConfig {
        initial_buffer_bytes: 5,
        max_buffer_bytes: 100,
    };
    let (mut source, writer) = BufferedMediaSource::new(config, Some(10));

    writer.push_chunk(&mut source, b"0123456789").unwrap();
    writer.complete(&mut source).unwrap();

    let mut buf = [0u8; 5];
    source.read(&mut buf).unwrap();
    assert_eq!(&buf, b"01234");

    source.seek(SeekFrom::Start(0)).unwrap();
    source.read(&mut buf).unwrap();
    assert_eq!(&buf, b"01234");

    source.seek(SeekFrom::Start(3)).unwrap();
    source.read(&mut buf).unwrap();
    assert_eq!(&buf, b"34567");
}

#[test]
fn test_complete_data_retrieval() {
    let config = StreamingConfig {
        initial_buffer_bytes: 5,
        max_buffer_bytes: 100,
    };
    let (mut source, writer) = BufferedMediaSource::new(config, Some(10));

    writer.push_chunk(&mut source, b"Hello").unwrap();
    assert!(source.take_complete_data().is_none());

    writer.push_chunk(&mut source, b"World").unwrap();
    writer.complete(&mut source).unwrap();

    let data = source.take_complete_data().unwrap();
    assert_eq!(&data, b"HelloWorld");
}

#[test]
fn read_ahead_of_download_is_pending() {
    let (mut source, writer) = BufferedMediaSource::new(StreamingConfig::fast_start(), None);
    let mut buf = [0u8; 4];
    assert!(matches!(source.read(&mut buf), Err(StreamError::Pending)));
    writer.push_chunk(&mut source, b"ab").unwrap();
    assert_eq!(source.read(&mut buf).unwrap(), 2);
    assert_eq!(&buf[..2], b"ab");
    assert!(matches!(source.read(&mut buf), Err(StreamError::Pending)));
    writer.complete(&mut source).unwrap();
    assert_eq!(source.read(&mut buf).unwrap(), 0);
}

#[test]
fn download_error_is_reported_by_read_and_seek() {
    let (mut source, writer) = BufferedMediaSource::new(StreamingConfig::default(), Some(4));
    writer.push_chunk(&mut source, b"abcd").unwrap();
    writer.error(&mut source, "connection reset".to_string()).unwrap();
    let mut buf = [0u8; 2];
    match source.read(&mut buf) {
        Err(StreamError::DownloadFailed(e)) => assert_eq!(e, "connection reset"),
        _ => panic!("expected a download error"),
    }
    assert!(matches!(source.seek(SeekFrom::Start(1)), Err(StreamError::DownloadFailed(_))));
    assert!(!source.is_complete());
    assert!(source.take_complete_data().is_none());
    assert!(source.initial_buffer_ready());
}

#[test]
fn seek_errors() {
    let (mut source, writer) = BufferedMediaSource::new(StreamingConfig::fast_start(), None);
    writer.push_chunk(&mut source, b"0123").unwrap();
    assert!(matches!(source.seek(SeekFrom::End(0)), Err(StreamError::UnknownEnd)));
    assert!(matches!(source.seek(SeekFrom::Current(-1)), Err(StreamError::BeforeStart)));
    assert!(matches!(source.seek(SeekFrom::Start(9)), Err(StreamError::Pending)));
    writer.complete(&mut source).unwrap();
    assert!(matches!(source.seek(SeekFrom::Start(9)), Err(StreamError::BeyondEnd)));
    assert_eq!(source.seek(SeekFrom::End(-1)).unwrap(), 3);
    assert_eq!(source.seek(SeekFrom::Current(-2)).unwrap(), 1);
    let mut buf = [0u8; 8];
    assert_eq!(source.read(&mut buf).unwrap(), 3);
    assert_eq!(&buf[..3], b"123");
}

#[test]
fn seek_from_end_uses_known_total_size() {
    let (mut source, writer) = BufferedMediaSource::new(StreamingConfig::fast_start(), Some(10));
    writer.push_chunk(&mut source, b"0123456789").unwrap();
    assert_eq!(source.seek(SeekFrom::End(-4)).unwrap(), 6);
    let mut buf = [0u8; 4];
    assert_eq!(source.read(&mut buf).unwrap(), 4);
    assert_eq!(&buf, b"6789");
}

#[test]
fn buffer_queries_follow_the_data() {
    let config = StreamingConfig { initial_buffer_bytes: 3, max_buffer_bytes: 100 };
    let (mut source, writer) = BufferedMediaSource::new(config, Some(8));
    assert!(source.get_buffered_data().is_none());
    assert!(!source.has_min_buffer());
    assert_eq!(source.progress_parts(), Some((0, 8)));
    writer.push_chunk(&mut source, b"abc").unwrap();
    assert!(source.has_min_buffer());
    assert_eq!(source.buffer_size(), 3);
    assert_eq!(writer.buffer_size(&source), 3);
    assert_eq!(source.get_buffered_data().unwrap(), b"abc".to_vec());
    assert_eq!(source.progress_parts(), Some((3, 8)));
    assert_eq!(source.byte_len(), Some(8));
    let reader = source.create_reader();
    assert_eq!(reader.buffer_size(), 3);
}

#[test]
fn config_constructors() {
    let d = StreamingConfig::default();
    assert_eq!(d.initial_buffer_bytes, 512 * 1024);
    assert_eq!(d.max_buffer_bytes, 100 * 1024 * 1024);
    assert_eq!(StreamingConfig::from_seconds(0).initial_buffer_bytes, 256 * 1024);
    assert_eq!(StreamingConfig::from_seconds(3).initial_buffer_bytes, 3 * 1024 * 1024);
    assert_eq!(StreamingConfig::fast_start().initial_buffer_bytes, 256 * 1024);
    let c = StreamingConfig::from_initial_buffer_with_cap(2 * 1024 * 1024, 256 * 1024);
    assert_eq!(c.initial_buffer_bytes, 256 * 1024);
    assert_eq!(c.max_buffer_bytes, 100 * 1024 * 1024);
    let c = StreamingConfig::from_initial_buffer_with_cap(384 * 1024, 4 * 1024 * 1024);
    assert_eq!(c.initial_buffer_bytes, 384 * 1024);
}

#[test]
fn writer_call_sequences() {
    let config = StreamingConfig { initial_buffer_bytes: 8, max_buffer_bytes: 100 };
    let (mut source, writer) = BufferedMediaSource::new(config, None);
    writer.push_chunk(&mut source, b"abc").unwrap();
    writer.error(&mut source, "reset".to_string()).unwrap();
    assert!(!source.has_min_buffer());
    writer.push_chunk(&mut source, b"def").unwrap();
    writer.complete(&mut source).unwrap();
    assert!(source.has_min_buffer());
    assert!(!source.is_complete());
    assert!(source.take_complete_data().is_none());
    let mut buf = [0u8; 4];
    match source.read(&mut buf) {
        Err(StreamError::DownloadFailed(e)) => assert_eq!(e, "reset"),
        _ => panic!("expected the download error"),
    }

    let (mut ok, w) = BufferedMediaSource::new(config, None);
    w.push_chunk(&mut ok, b"abc").unwrap();
    w.push_chunk(&mut ok, b"de").unwrap();
    assert!(!ok.has_min_buffer());
    w.complete(&mut ok).unwrap();
    assert!(ok.has_min_buffer());
    assert!(ok.is_complete());
    assert_eq!(ok.take_complete_data(), Some(b"abcde".to_vec()));
    let mut big = [0u8; 16];
    assert_eq!(ok.read(&mut big).unwrap(), 5);
    assert_eq!(&big[..5], b"abcde");
    assert_eq!(ok.read(&mut big).unwrap(), 0);
}
