use file_gateway::streams::{Chunk, Chunkable};

#[test]
fn chunks_yields_correct_count() {
    let len = 32;
    let chunk_size = 8;
    let test_vec = vec![0; len];

    let mut chunks = Chunkable::chunks(test_vec, chunk_size);
    let mut count = 0;
    while let Some(_chunk) = chunks.next() {
        count += 1;
    }
    let expected_count = len / chunk_size;

    assert_eq!(count, expected_count);
}

#[test]
fn chunk_is_correct_size() {
    let len = 32;
    let chunk_size = 8;
    let test_vec = vec![0; len];

    let mut chunks = Chunkable::chunks(test_vec, chunk_size);

    while let Some(chunk) = chunks.next() {
        let actual_chunk_size = chunk.len();

        assert_eq!(actual_chunk_size, chunk_size);
    }
}

#[test]
fn chunk_is_correct_size_odd_length() {
    let len = 33;
    let chunk_size = 8;
    let test_vec = vec![0; len];

    let mut chunks = Chunkable::chunks(test_vec, chunk_size);
    let mut idx = 0;

    while let Some(chunk) = chunks.next() {
        let mut expected_chunk_size = chunk_size;
        let actual_chunk_size = chunk.len();

        let starting_offset = idx * chunk_size;
        let end_offset = starting_offset + chunk_size;

        if end_offset > len {
            expected_chunk_size = len - starting_offset;
        }

        assert_eq!(actual_chunk_size, expected_chunk_size);
        idx += 1;
    }
}

#[test]
fn chunk_has_correct_content() {
    let start_value = 1;
    let end_value = 36;

    // Bail if someone changes above values to something dumb
    assert_eq!(true, start_value > -1);
    assert_eq!(true, start_value < end_value);

    let test_vec = (start_value..end_value).collect::<Vec<i8>>();

    let mut chunks = Chunkable::chunks(test_vec, 6);

    while let Some(chunk) = chunks.next() {
        let mut last_val: i8 = start_value - 1;

        for value in chunk {
            assert_eq!(true, value > last_val);
            last_val = value;
        }
    }
}

#[test]
fn empty_source_yields_no_chunks() {
    let test_vec: Vec<u8> = Vec::new();
    let mut chunks = Chunkable::chunks(test_vec, 4096);

    assert!(chunks.next().is_none());
    assert!(chunks.next().is_none());
}

#[test]
fn chunks_concatenate_back_to_the_source() {
    let test_vec: Vec<u8> = (0..=255).cycle().take(10000).collect();
    let mut chunks = Chunkable::chunks(test_vec.clone(), 4096);

    let mut rebuilt: Vec<u8> = Vec::new();
    while let Some(chunk) = chunks.next() {
        rebuilt.extend(chunk);
    }

    assert_eq!(rebuilt, test_vec);
}

fn collect_sizes(chunks: &mut Chunk<u8>) -> Vec<usize> {
    let mut sizes = Vec::new();
    while let Some(chunk) = chunks.next() {
        sizes.push(chunk.len());
    }
    sizes
}

#[test]
fn upload_sized_payload_chunks_as_declared() {
    // A 10,000-byte payload with the upload chunk size of 4096 becomes
    // exactly three stream elements of sizes 4096, 4096 and 1808.
    let payload = vec![7u8; 10000];
    let mut chunks = Chunkable::chunks(payload, file_gateway::handlers::UPLOAD_CHUNK_SIZE);

    let sizes = collect_sizes(&mut chunks);

    assert_eq!(sizes, vec![4096, 4096, 1808]);
}

#[test]
fn exact_multiple_yields_only_full_chunks() {
    let payload = vec![1u8; 8192];
    let mut chunks = Chunkable::chunks(payload, 4096);

    let sizes = collect_sizes(&mut chunks);

    assert_eq!(sizes, vec![4096, 4096]);
}
