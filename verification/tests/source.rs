use audio_agent::audio::source::{MemorySource, ReadOutcome};

#[test]
fn reads_in_chunks_until_the_end() {
    let data: Vec<u8> = (0..10).collect();
    let mut source = MemorySource::new(data.clone());
    assert_eq!(source.remaining(), 10);
    let mut buffer = [0xffu8; 4];
    assert_eq!(source.read(&mut buffer), ReadOutcome::Bytes(4));
    assert_eq!(buffer, [0, 1, 2, 3]);
    assert_eq!(source.read(&mut buffer), ReadOutcome::Bytes(4));
    assert_eq!(buffer, [4, 5, 6, 7]);
    assert_eq!(source.read(&mut buffer), ReadOutcome::Bytes(2));
    assert_eq!(buffer, [8, 9, 6, 7]);
    assert_eq!(source.remaining(), 0);
    assert_eq!(source.read(&mut buffer), ReadOutcome::EndOfInput);
    assert_eq!(buffer, [8, 9, 6, 7]);
}

#[test]
fn end_of_input_repeats() {
    let data = vec![1u8, 2, 3];
    let mut source = MemorySource::new(data);
    let mut buffer = [0u8; 8];
    assert_eq!(source.read(&mut buffer), ReadOutcome::Bytes(3));
    for _ in 0..5 {
        assert_eq!(source.read(&mut buffer), ReadOutcome::EndOfInput);
        assert_eq!(source.remaining(), 0);
    }
    assert_eq!(&buffer[..3], &[1, 2, 3]);
}

#[test]
fn empty_input_ends_at_once() {
    let mut source = MemorySource::new(Vec::new());
    let mut buffer = [9u8; 2];
    assert_eq!(source.read(&mut buffer), ReadOutcome::EndOfInput);
    assert_eq!(buffer, [9, 9]);
}

#[test]
fn empty_buffer_takes_nothing() {
    let mut source = MemorySource::new(vec![1u8, 2]);
    let mut nothing: [u8; 0] = [];
    assert_eq!(source.read(&mut nothing), ReadOutcome::Bytes(0));
    assert_eq!(source.remaining(), 2);
}

#[test]
fn input_is_read_whole_and_unchanged() {
    let data: Vec<u8> = (0..=255).cycle().take(1000).collect();
    let mut source = MemorySource::new(data.clone());
    let mut gathered = Vec::new();
    let mut buffer = [0u8; 7];
    loop {
        match source.read(&mut buffer) {
            ReadOutcome::Bytes(n) => gathered.extend_from_slice(&buffer[..n]),
            ReadOutcome::EndOfInput => break,
        }
    }
    assert_eq!(gathered, data);
}
