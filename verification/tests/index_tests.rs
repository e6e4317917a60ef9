use bundle_vfs::BundleDataErr;
use bundle_vfs::IndexBundle;

fn push_u32(out: &mut Vec<u8>, v: u32) {
    out.extend_from_slice(&v.to_le_bytes());
}

fn push_u64(out: &mut Vec<u8>, v: u64) {
    out.extend_from_slice(&v.to_le_bytes());
}

fn push_info(out: &mut Vec<u8>, name: &str, uncompressed_size: u32) {
    push_u32(out, name.len() as u32);
    out.extend_from_slice(name.as_bytes());
    push_u32(out, uncompressed_size);
}

fn push_file(out: &mut Vec<u8>, hash: u64, bundle_index: u32, offset: u32, size: u32) {
    push_u64(out, hash);
    push_u32(out, bundle_index);
    push_u32(out, offset);
    push_u32(out, size);
}

#[test]
fn test_index_round_trip() {
    // One bundle named "a.bundle" of size 5, one file record pointing into
    // it, no path records.
    let mut raw = Vec::new();
    push_u32(&mut raw, 1);
    push_info(&mut raw, "a.bundle", 5);
    push_u32(&mut raw, 1);
    push_file(&mut raw, 42, 0, 0, 5);
    push_u32(&mut raw, 0);

    let ib = IndexBundle::decode(&raw).map_err(|e| e.message()).unwrap();
    assert_eq!(ib.bundle_infos.len(), 1);
    assert_eq!(ib.bundle_infos[0].name, "a.bundle");
    assert_eq!(ib.bundle_infos[0].uncompressed_size, 5);
    assert_eq!(ib.bundle_files.len(), 1);
    assert_eq!(ib.bundle_files[0].hash, 42);
    assert_eq!(ib.bundle_files[0].bundle_index, 0);
    assert_eq!(ib.bundle_files[0].offset, 0);
    assert_eq!(ib.bundle_files[0].size, 5);
    assert!(ib.bundle_paths.is_empty());
}

#[test]
fn test_index_all_three_tables() {
    let mut raw = Vec::new();
    push_u32(&mut raw, 2);
    push_info(&mut raw, "first.bundle", 100);
    push_info(&mut raw, "second.bundle", 200);
    push_u32(&mut raw, 2);
    push_file(&mut raw, 7, 1, 10, 20);
    push_file(&mut raw, 8, 0, 30, 40);
    push_u32(&mut raw, 1);
    push_u64(&mut raw, 9); // path hash
    push_u32(&mut raw, 11); // payload_offset
    push_u32(&mut raw, 12); // payload_size
    push_u32(&mut raw, 13); // payload_rec_size

    let ib = IndexBundle::decode(&raw).map_err(|e| e.message()).unwrap();
    assert_eq!(ib.bundle_infos[1].name, "second.bundle");
    assert_eq!(ib.bundle_infos[1].uncompressed_size, 200);
    assert_eq!(ib.bundle_files[0].bundle_index, 1);
    assert_eq!(ib.bundle_files[1].hash, 8);
    assert_eq!(ib.bundle_paths[0].hash, 9);
    assert_eq!(ib.bundle_paths[0].payload_offset, 11);
    assert_eq!(ib.bundle_paths[0].payload_size, 12);
    assert_eq!(ib.bundle_paths[0].payload_rec_size, 13);
    // Index consistency: every file record points at an existing bundle.
    for f in &ib.bundle_files {
        assert!((f.bundle_index as usize) < ib.bundle_infos.len());
    }
}

#[test]
fn test_index_non_ascii_name() {
    let mut raw = Vec::new();
    push_u32(&mut raw, 1);
    push_info(&mut raw, "caf\u{e9}.bundle", 1);
    push_u32(&mut raw, 0);
    push_u32(&mut raw, 0);
    let ib = IndexBundle::decode(&raw).map_err(|e| e.message()).unwrap();
    assert_eq!(ib.bundle_infos[0].name, "caf\u{e9}.bundle");
}

#[test]
fn test_index_invalid_utf8_rejected() {
    let mut raw = Vec::new();
    push_u32(&mut raw, 1);
    push_u32(&mut raw, 2); // name length
    raw.push(0xFF); // not valid UTF-8
    raw.push(0xFE);
    push_u32(&mut raw, 1); // uncompressed_size
    push_u32(&mut raw, 0);
    push_u32(&mut raw, 0);
    match IndexBundle::decode(&raw) {
        Err(e) => assert_eq!(e, BundleDataErr::DataCorrupted),
        Ok(_) => panic!("decode accepted an invalid UTF-8 name"),
    }
}

#[test]
fn test_index_truncated_tables_rejected() {
    // Empty buffer: no bundle count.
    match IndexBundle::decode(&[]) {
        Err(e) => assert_eq!(e, BundleDataErr::DataCorrupted),
        Ok(_) => panic!("decode accepted an empty buffer"),
    }
    // Name runs past the end of the buffer.
    let mut raw = Vec::new();
    push_u32(&mut raw, 1);
    push_u32(&mut raw, 100); // name length, but no name bytes follow
    match IndexBundle::decode(&raw) {
        Err(e) => assert_eq!(e, BundleDataErr::DataCorrupted),
        Ok(_) => panic!("decode accepted a truncated name"),
    }
    // File table claims a record that is not there.
    let mut raw = Vec::new();
    push_u32(&mut raw, 0);
    push_u32(&mut raw, 1);
    push_u64(&mut raw, 42); // only 8 of the 20 record bytes
    match IndexBundle::decode(&raw) {
        Err(e) => assert_eq!(e, BundleDataErr::DataCorrupted),
        Ok(_) => panic!("decode accepted a truncated file record"),
    }
    // Path count missing entirely.
    let mut raw = Vec::new();
    push_u32(&mut raw, 0);
    push_u32(&mut raw, 0);
    match IndexBundle::decode(&raw) {
        Err(e) => assert_eq!(e, BundleDataErr::DataCorrupted),
        Ok(_) => panic!("decode accepted a buffer with no path table"),
    }
}

#[test]
fn test_index_dangling_bundle_index_rejected() {
    // The one file record points at bundle 1, but only bundle 0 exists.
    let mut raw = Vec::new();
    push_u32(&mut raw, 1);
    push_info(&mut raw, "only.bundle", 5);
    push_u32(&mut raw, 1);
    push_file(&mut raw, 42, 1, 0, 5);
    push_u32(&mut raw, 0);
    match IndexBundle::decode(&raw) {
        Err(e) => assert_eq!(e, BundleDataErr::DataCorrupted),
        Ok(_) => panic!("decode accepted a dangling bundle index"),
    }
}

#[test]
fn test_index_trailing_bytes_ignored() {
    let mut raw = Vec::new();
    push_u32(&mut raw, 0);
    push_u32(&mut raw, 0);
    push_u32(&mut raw, 0);
    raw.extend_from_slice(&[1, 2, 3, 4]);
    let ib = IndexBundle::decode(&raw).map_err(|e| e.message()).unwrap();
    assert!(ib.bundle_infos.is_empty());
    assert!(ib.bundle_files.is_empty());
    assert!(ib.bundle_paths.is_empty());
}
