use yuttari::id::{create_id, mint_id, to_formatted_timestamp, to_timestamp, to_timestamp_string,
    IdType, EPOCH_2000};

#[test]
fn minted_id_recovers_time() {
    // one thousand seconds into the year 2000, for every kind
    let t = EPOCH_2000 + 1000;
    for kind in [IdType::Unknown, IdType::Message, IdType::User] {
        let id = mint_id(t, kind, 0);
        assert_eq!(to_timestamp(id), t);
    }
}

#[test]
fn minted_id_recovers_time_with_random_bits() {
    let t = EPOCH_2000 + 777_000_000;
    for rnd in [0u64, 1, 4242, 0x3FFF] {
        let id = mint_id(t, IdType::Message, rnd);
        assert_eq!(to_timestamp(id), t);
    }
}

#[test]
fn mint_id_exact_layout() {
    // 1000 seconds, tag 1, random 5: 1000 * 2^16 + 1 * 2^14 + 5
    let id = mint_id(EPOCH_2000 + 1000, IdType::Message, 5);
    assert_eq!(id, 1000 * 0x10000 + 0x4000 + 5);
}

#[test]
fn mint_id_clamps_times_before_epoch() {
    let id = mint_id(12, IdType::User, 3);
    assert_eq!(id, 2 * 0x4000 + 3);
    assert_eq!(to_timestamp(id), EPOCH_2000);
}

#[test]
fn to_timestamp_exact() {
    assert_eq!(to_timestamp(0x10000), EPOCH_2000 + 1);
    assert_eq!(to_timestamp(0), EPOCH_2000);
}

#[test]
fn created_id_recovers_current_time() {
    let before = std::time::SystemTime::now()
        .duration_since(std::time::UNIX_EPOCH)
        .unwrap()
        .as_secs();
    let id = create_id(IdType::Message);
    let after = std::time::SystemTime::now()
        .duration_since(std::time::UNIX_EPOCH)
        .unwrap()
        .as_secs();
    let t = to_timestamp(id);
    assert!(before <= t && t <= after);
}

#[test]
fn timestamp_strings_render() {
    // mid-year 2000, so the local zone cannot move the year
    let id = mint_id(EPOCH_2000 + 15_552_000, IdType::Message, 0);
    let s = to_timestamp_string(id);
    // a local-time date string: fixed shape, zone-dependent content
    assert_eq!(s.len(), "2000-06-29 00:00:00".len());
    let y = to_formatted_timestamp(id, "%Y");
    assert_eq!(y, "2000");
}

#[test]
fn invalid_format_renders_empty() {
    let id = mint_id(EPOCH_2000 + 1000, IdType::Message, 0);
    assert_eq!(to_formatted_timestamp(id, "%Q"), "");
}
