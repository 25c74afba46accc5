use vdb_benchmarks::distribution::ids::{fake_uuid_to_index, index_to_fake_uuid};

#[test]
fn test_index_to_uuid_conversion_is_okay() {
    assert_eq!(1 << 54, fake_uuid_to_index(&index_to_fake_uuid(1 << 54)));
    assert_eq!(
        (1 << 54) - 1,
        fake_uuid_to_index(&index_to_fake_uuid((1 << 54) - 1))
    );
    assert_eq!(1, fake_uuid_to_index(&index_to_fake_uuid(1)));
    assert_eq!(0, fake_uuid_to_index(&index_to_fake_uuid(0)));
}

#[test]
fn fake_uuid_renders_like_a_version_4_uuid() {
    assert_eq!(
        index_to_fake_uuid(12).hyphenated_string(),
        "00000000-0000-400c-8000-00000000000c"
    );
    assert_eq!(
        index_to_fake_uuid(321).hyphenated_string(),
        "00000000-0000-4141-8000-000000000141"
    );
}

#[test]
fn fake_uuid_matches_the_uuid_crate_rendering() {
    for id in [0u64, 7, 12, 54321, (1 << 54) - 1] {
        let ours = index_to_fake_uuid(id);
        let mut bytes = [0u8; 16];
        bytes.copy_from_slice(ours.as_bytes());
        // rebuild the raw pre-stamp bytes the same way the encoding does
        let mut raw = [0u8; 16];
        for (idx, byte) in id.to_be_bytes().iter().cycle().take(16).enumerate() {
            raw[idx] = *byte;
        }
        let reference = uuid::Builder::from_random_bytes(raw).into_uuid();
        assert_eq!(reference.as_bytes(), &bytes);
        assert_eq!(reference.to_string(), ours.hyphenated_string());
    }
}
