use dirble::request::Collector;

#[test]
fn test_collector_write_and_clear() {
    let bytes: Vec<u8> = vec![4, 2, 7, 1];
    let mut collector = Collector { contents: Vec::new(), content_len: 0 };
    match collector.write(&bytes) {
        Ok(_v) => {},
        Err(_e) => {
            println!("Error writing to collector buffer");
        },
    }

    assert_eq!(collector.contents, bytes);

    collector.clear_buffer();

    let vector: Vec<u8> = Vec::new();
    assert_eq!(collector.contents, vector);
}

#[test]
fn collector_length_tracks_appended_bytes() {
    let mut collector = Collector::new();
    assert_eq!(collector.content_len, 0);

    let first: Vec<u8> = vec![1, 2, 3];
    let written = collector.write(&first).unwrap();
    assert_eq!(written, 3);
    assert_eq!(collector.content_len, 3);

    let second: Vec<u8> = vec![9, 9];
    collector.write(&second).unwrap();
    assert_eq!(collector.content_len, 5);
    assert_eq!(collector.contents, vec![1, 2, 3, 9, 9]);

    collector.clear_buffer();
    assert_eq!(collector.content_len, 0);
    assert!(collector.contents.is_empty());
}
