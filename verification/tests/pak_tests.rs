use bevy_vn::pak::{
    assign_bundles, parse_pak_entries, try_pack_bundle, write_pak, AssetError, BundleDef, IndexEntry,
    PakAssetReader, PakError,
};

const PAK_MAGIC: &[u8; 4] = b"BPAK";
const PAK_VERSION: u32 = 1;

fn build_test_pak(items: &[(&str, &[u8])]) -> Vec<u8> {
    let mut data_section = Vec::new();
    let mut index = Vec::new();

    for (name, content) in items {
        let compressed = zstd::encode_all(std::io::Cursor::new(content), 3).unwrap();
        let offset = data_section.len() as u64;
        let compressed_size = compressed.len() as u64;
        data_section.extend_from_slice(&compressed);
        index.push((name, offset, compressed_size, content.len() as u64));
    }

    let mut pak = Vec::new();
    pak.extend_from_slice(&data_section);
    let index_offset = pak.len() as u64;

    for (name, offset, compressed_size, uncompressed_size) in &index {
        let name_bytes = name.as_bytes();
        pak.extend_from_slice(&(name_bytes.len() as u32).to_le_bytes());
        pak.extend_from_slice(name_bytes);
        pak.extend_from_slice(&offset.to_le_bytes());
        pak.extend_from_slice(&compressed_size.to_le_bytes());
        pak.extend_from_slice(&uncompressed_size.to_le_bytes());
    }
    pak.extend_from_slice(PAK_MAGIC);
    pak.extend_from_slice(&PAK_VERSION.to_le_bytes());
    pak.extend_from_slice(&index_offset.to_le_bytes());
    pak.extend_from_slice(&(index.len() as u32).to_le_bytes());
    pak
}

fn read_entry(reader: &PakAssetReader, paks: &Vec<Vec<u8>>, path: &str) -> Vec<u8> {
    let entry = reader.get_entry(path).unwrap();
    PakAssetReader::decompress(&paks[entry.source_index], entry).unwrap()
}

#[test]
fn test_load_many_single() {
    let paks = vec![build_test_pak(&[("fonts/a.otf", b"hello")])];
    let reader = PakAssetReader::load_many(&paks).unwrap();
    assert_eq!(reader.entries.len(), 1);
    let entry = reader.get_entry("fonts/a.otf").unwrap();
    assert_eq!(entry.inner.uncompressed_size, 5);
    let data = PakAssetReader::decompress(&paks[entry.source_index], entry).unwrap();
    assert_eq!(&data, b"hello");
}

#[test]
fn test_load_many_multiple() {
    let paks = vec![
        build_test_pak(&[("fonts/a.otf", b"aaa")]),
        build_test_pak(&[("fonts/b.otf", b"bbb")]),
    ];
    let reader = PakAssetReader::load_many(&paks).unwrap();
    assert_eq!(reader.entries.len(), 2);
    assert_eq!(&read_entry(&reader, &paks, "fonts/a.otf"), b"aaa");
    assert_eq!(&read_entry(&reader, &paks, "fonts/b.otf"), b"bbb");
}

#[test]
fn test_load_many_dedup() {
    // Same path in both — first wins
    let paks = vec![
        build_test_pak(&[("dup.txt", b"first")]),
        build_test_pak(&[("dup.txt", b"second")]),
    ];
    let reader = PakAssetReader::load_many(&paks).unwrap();
    assert_eq!(reader.entries.len(), 1);
    assert_eq!(&read_entry(&reader, &paks, "dup.txt"), b"first");
}

#[test]
fn test_read_directory_cross_source() {
    let paks = vec![
        build_test_pak(&[("a/one.txt", b"1")]),
        build_test_pak(&[("b/two.txt", b"2")]),
    ];
    let reader = PakAssetReader::load_many(&paks).unwrap();
    let items = reader.read_directory("").unwrap();
    assert!(items.contains(&"a/".to_string()));
    assert!(items.contains(&"b/".to_string()));
}

#[test]
fn read_directory_lists_files_and_subdirectories_once() {
    let paks = vec![build_test_pak(&[
        ("a/x.txt", b"1"),
        ("a/sub/y.txt", b"2"),
        ("a/sub/z.txt", b"3"),
        ("b.txt", b"4"),
    ])];
    let reader = PakAssetReader::load_many(&paks).unwrap();
    assert_eq!(reader.read_directory("a").unwrap(), vec!["a/sub/".to_string(), "a/x.txt".to_string()]);
    assert_eq!(reader.read_directory("/a").unwrap(), vec!["a/sub/".to_string(), "a/x.txt".to_string()]);
    // A trailing slash doubles the separator, and nothing lies under `a//`.
    assert_eq!(reader.read_directory("a/"), None);
    assert_eq!(reader.read_directory("").unwrap(), vec!["a/".to_string(), "b.txt".to_string()]);
    assert_eq!(reader.read_directory("c"), None);
    assert!(reader.is_directory("a/sub"));
    assert!(!reader.is_directory("c"));
}

#[test]
fn leading_slash_is_ignored_and_missing_paths_are_not_found() {
    let paks = vec![build_test_pak(&[("x/y.bin", b"data")])];
    let reader = PakAssetReader::load_many(&paks).unwrap();
    assert_eq!(reader.read(&paks, "/x/y.bin").unwrap(), b"data".to_vec());
    assert_eq!(reader.read(&paks, "x/z.bin"), Err(AssetError::NotFound));
}

#[test]
fn corrupt_data_is_an_io_error() {
    let mut pak = build_test_pak(&[("x.bin", b"payload")]);
    for b in pak.iter_mut().take(4) {
        *b = 0;
    }
    let paks = vec![pak];
    let reader = PakAssetReader::load_many(&paks).unwrap();
    assert_eq!(reader.read(&paks, "x.bin"), Err(AssetError::Io));
}

#[test]
fn short_input_is_too_small() {
    assert!(matches!(parse_pak_entries(&[0u8; 19]), Err(PakError::TooSmall)));
}

#[test]
fn wrong_magic_is_reported() {
    let mut pak = build_test_pak(&[]);
    let n = pak.len();
    pak[n - 20] = b'X';
    assert!(matches!(parse_pak_entries(&pak), Err(PakError::InvalidMagic(b'X', b'P', b'A', b'K'))));
}

#[test]
fn other_version_is_reported() {
    let mut pak = build_test_pak(&[]);
    let n = pak.len();
    pak[n - 16] = 7;
    assert!(matches!(parse_pak_entries(&pak), Err(PakError::UnsupportedVersion(7))));
}

#[test]
fn first_failing_pack_stops_loading() {
    let paks = vec![build_test_pak(&[("a", b"1")]), vec![1, 2, 3]];
    assert!(matches!(PakAssetReader::load_many(&paks), Err(PakError::TooSmall)));
}

#[test]
fn invalid_utf8_names_are_read_lossily() {
    let mut pak = Vec::new();
    let name: &[u8] = &[b'a', 0xff, b'b'];
    pak.extend_from_slice(&(name.len() as u32).to_le_bytes());
    pak.extend_from_slice(name);
    pak.extend_from_slice(&0u64.to_le_bytes());
    pak.extend_from_slice(&0u64.to_le_bytes());
    pak.extend_from_slice(&0u64.to_le_bytes());
    pak.extend_from_slice(PAK_MAGIC);
    pak.extend_from_slice(&PAK_VERSION.to_le_bytes());
    pak.extend_from_slice(&0u64.to_le_bytes());
    pak.extend_from_slice(&1u32.to_le_bytes());
    let entries = parse_pak_entries(&pak).unwrap();
    assert_eq!(entries.len(), 1);
    let key: Vec<char> = "a\u{FFFD}b".chars().collect();
    assert!(entries.contains_key(&key));
}

#[test]
fn written_pack_reads_back() {
    let data = b"0123456789".to_vec();
    let index = vec![
        IndexEntry { path: "p/q".to_string(), offset: 2, compressed_size: 3, uncompressed_size: 9 },
        IndexEntry { path: "r".to_string(), offset: 5, compressed_size: 5, uncompressed_size: 1 },
    ];
    let pak = write_pak(&data, &index);
    assert_eq!(&pak[..10], b"0123456789");
    assert_eq!(&pak[pak.len() - 20..pak.len() - 16], b"BPAK");
    let entries = parse_pak_entries(&pak).unwrap();
    assert_eq!(entries.len(), 2);
    let q: Vec<char> = "p/q".chars().collect();
    let e = entries.get(&q).unwrap();
    assert_eq!((e.offset, e.compressed_size, e.uncompressed_size), (2, 3, 9));
}

#[test]
fn packed_bundle_reads_back() {
    let files = vec![
        ("fonts/a.otf".to_string(), b"hello".to_vec()),
        ("fonts/b.otf".to_string(), vec![7u8; 1000]),
    ];
    let pak = try_pack_bundle(&files, 3).unwrap();
    let paks = vec![pak];
    let reader = PakAssetReader::load_many(&paks).unwrap();
    assert_eq!(reader.read(&paks, "fonts/a.otf").unwrap(), b"hello".to_vec());
    assert_eq!(reader.read(&paks, "fonts/b.otf").unwrap(), vec![7u8; 1000]);
    // The second file is stored compressed.
    assert!(reader.get_entry("fonts/b.otf").unwrap().inner.compressed_size < 1000);
}

#[test]
fn files_go_to_the_first_bundle_that_includes_them() {
    let bundles = vec![
        BundleDef { name: "fonts".to_string(), includes: vec!["fonts/".to_string()] },
        BundleDef { name: "media".to_string(), includes: vec!["audio/".to_string(), "fonts/big".to_string()] },
    ];
    let paths = vec![
        "fonts/a.otf".to_string(),
        "audio/x.ogg".to_string(),
        "fonts/big.otf".to_string(),
        "misc.txt".to_string(),
    ];
    let (assigned, rest) = assign_bundles(&paths, &bundles);
    assert_eq!(assigned, vec![vec![0, 2], vec![1]]);
    assert_eq!(rest, vec![3]);
}
