use pokedit_lib::error::PkError;
use pokedit_lib::error::PkErrorLoad;
use pokedit_lib::gen3::Game;
use pokedit_lib::gen3::GameVersion;
use pokedit_lib::gen3::Gender;
use pokedit_lib::gen3::Validate;
use pokedit_lib::gen3::MAGIC_SIGNATURE;
use pokedit_lib::gen3::SAVE_FILE_MIN_SIZE;
use pokedit_lib::mem::le;

fn new_save() -> Vec<u8> {
    vec![0; SAVE_FILE_MIN_SIZE]
}

/// An image with both slots fully well-formed: ids 0..=13 in physical
/// order, the magic signature everywhere, all-zero payloads (whose fold
/// checksum is 0, matching the zeroed checksum fields), save index 1 in
/// slot A and 0 in slot B, so slot A is current.
fn build_valid_save() -> Vec<u8> {
    let mut buf = vec![0u8; SAVE_FILE_MIN_SIZE];
    for slot in 0..2usize {
        let slot_off = slot * 57344;
        let index: u32 = if slot == 0 { 1 } else { 0 };
        for sec in 0..14usize {
            let off = slot_off + sec * 4096;
            le::write_half_word(&mut buf, off + 0x0FF4, sec as u16);
            le::write_word(&mut buf, off + 0x0FF8, MAGIC_SIGNATURE);
            le::write_word(&mut buf, off + 0x0FFC, index);
        }
    }
    buf
}

#[test]
fn load_game() {
    let bytes = new_save();
    // An all-zero image has matching (zero) checksums but no magic
    // signature, so the default validation rejects its first section.
    match Game::new(bytes) {
        Err(PkError::Load(e)) => assert_eq!(
            e,
            PkErrorLoad::InvalidSignature { section_id: 0, expected: MAGIC_SIGNATURE, found: 0 }
        ),
        other => panic!("expected an invalid-signature failure, got {:?}", other),
    }
}

#[test]
fn load_valid_save() {
    let game = Game::new(build_valid_save()).unwrap();
    assert_eq!(game.version(), GameVersion::RubySapphire);
    assert_eq!(game.save_slot().save_index(), 1);
}

#[test]
fn too_small_save_reports_sizes() {
    let bytes = vec![0u8; SAVE_FILE_MIN_SIZE - 1];
    match Game::new(bytes) {
        Err(PkError::Load(e)) => assert_eq!(
            e,
            PkErrorLoad::SaveFileTooSmall { expected_size: 131072, received_size: 131071 }
        ),
        other => panic!("expected a too-small failure, got {:?}", other),
    }
}

#[test]
fn slot_with_larger_save_index_is_current() {
    let mut buf = build_valid_save();
    // Slot B gets index 2, beating slot A's 1; tag the trainer names apart.
    for sec in 0..14usize {
        le::write_word(&mut buf, 57344 + sec * 4096 + 0x0FFC, 2);
    }
    buf[0] = 0xAA; // slot A trainer name byte
    buf[57344] = 0xBB; // slot B trainer name byte
    let game = Game::new_with_validation(buf, Validate::Off).unwrap();
    assert_eq!(game.save_slot().save_index(), 2);
    assert_eq!(game.trainer().name_raw()[0], 0xBB);
}

#[test]
fn equal_save_indices_select_slot_b() {
    let mut buf = build_valid_save();
    // Make both slots carry index 1: a tie.
    for sec in 0..14usize {
        le::write_word(&mut buf, 57344 + sec * 4096 + 0x0FFC, 1);
    }
    buf[0] = 0xAA;
    buf[57344] = 0xBB;
    let game = Game::new_with_validation(buf, Validate::Off).unwrap();
    assert_eq!(game.trainer().name_raw()[0], 0xBB);
}

#[test]
fn stale_checksum_fails_validation() {
    let mut buf = build_valid_save();
    // Edit a payload byte of slot A's trainer section without updating the
    // stored checksum: word at 0 becomes 0x00010002, which folds to 3.
    buf[0] = 2;
    buf[2] = 1;
    match Game::new(buf) {
        Err(PkError::Load(e)) => assert_eq!(
            e,
            PkErrorLoad::InvalidChecksum { section_id: 0, expected: 3, found: 0 }
        ),
        other => panic!("expected an invalid-checksum failure, got {:?}", other),
    }
}

#[test]
fn bad_signature_fails_validation() {
    let mut buf = build_valid_save();
    le::write_word(&mut buf, 3 * 4096 + 0x0FF8, 0x1234);
    match Game::new(buf) {
        Err(PkError::Load(e)) => assert_eq!(
            e,
            PkErrorLoad::InvalidSignature { section_id: 3, expected: MAGIC_SIGNATURE, found: 0x1234 }
        ),
        other => panic!("expected an invalid-signature failure, got {:?}", other),
    }
}

#[test]
fn mismatched_save_index_fails_validation() {
    let mut buf = build_valid_save();
    le::write_word(&mut buf, 5 * 4096 + 0x0FFC, 7);
    match Game::new(buf) {
        Err(PkError::Load(e)) => assert_eq!(e, PkErrorLoad::MissmatchedSaveFileIndex(1, 7)),
        other => panic!("expected a mismatched-index failure, got {:?}", other),
    }
}

#[test]
fn unrecognized_section_id_fails_validation() {
    let mut buf = build_valid_save();
    le::write_half_word(&mut buf, 6 * 4096 + 0x0FF4, 14);
    match Game::new(buf) {
        Err(PkError::Load(e)) => assert_eq!(e, PkErrorLoad::InvalidSectionId(14)),
        other => panic!("expected an invalid-id failure, got {:?}", other),
    }
}

#[test]
fn missing_team_items_section_is_reported() {
    let mut buf = build_valid_save();
    // Turn slot A's team/items section (id 1) into a second trainer section.
    le::write_half_word(&mut buf, 4096 + 0x0FF4, 0);
    match Game::new(buf) {
        Err(PkError::Load(PkErrorLoad::MissingSection(name))) => assert_eq!(name, "Team/Items"),
        other => panic!("expected a missing-section failure, got {:?}", other),
    }
}

#[test]
fn validation_off_accepts_stale_checksums() {
    let mut buf = build_valid_save();
    buf[0] = 2;
    buf[2] = 1;
    let game = Game::new_with_validation(buf, Validate::Off).unwrap();
    assert_eq!(game.version(), GameVersion::RubySapphire);
}

#[test]
fn gender_byte_decodes_or_fails() {
    for (byte, expected) in [(0u8, Some(Gender::Male)), (1, Some(Gender::Female)), (2, None), (0xFF, None)] {
        let mut buf = build_valid_save();
        buf[0x0008] = byte; // gender byte of slot A's trainer section
        let game = Game::new_with_validation(buf, Validate::Off).unwrap();
        match (game.trainer().gender(), expected) {
            (Ok(g), Some(e)) => assert_eq!(g, e),
            (Err(PkError::InvalidData(field)), None) => assert_eq!(field, "gender"),
            (got, want) => panic!("gender {:?} decoded to {:?}, wanted {:?}", byte, got, want),
        }
    }
}

#[test]
fn trainer_id_and_time_played_read_their_words() {
    let mut buf = build_valid_save();
    le::write_half_word(&mut buf, 0x000A, 0x1111); // public id
    le::write_half_word(&mut buf, 0x000C, 0x2222); // private id
    le::write_half_word(&mut buf, 0x000E, 123); // hours
    buf[0x0010] = 45; // minutes
    buf[0x0011] = 6; // seconds
    buf[0x0012] = 7; // frames
    // keep the stored checksum in step with the edited payload
    let mut game = Game::new_with_validation(buf, Validate::Off).unwrap();
    game.update_checksum();
    let game = Game::new(game.data().clone()).unwrap();
    let id = game.trainer().trainer_id();
    assert_eq!(id.public, 0x1111);
    assert_eq!(id.private, 0x2222);
    let time = game.trainer().time_played();
    assert_eq!(time.hours, 123);
    assert_eq!(time.minutes, 45);
    assert_eq!(time.seconds, 6);
    assert_eq!(time.frames, 7);
}

#[test]
fn security_key_not_available_for_ruby_sapphire() {
    let game = Game::new(build_valid_save()).unwrap();
    assert_eq!(game.trainer().game_code(), 0);
    match game.trainer().security_key() {
        Err(PkError::NotAvailableInGameVersion(field)) => assert_eq!(field, "Security Key"),
        other => panic!("expected a not-available failure, got {:?}", other),
    }
}

#[test]
fn security_key_read_from_offset_for_fire_red_leaf_green() {
    let mut buf = build_valid_save();
    le::write_word(&mut buf, 0x00AC, 1); // game code 1
    le::write_word(&mut buf, 0x0AF8, 0xDEADBEEF); // stored key
    let mut game = Game::new_with_validation(buf, Validate::Off).unwrap();
    game.update_checksum();
    let game = Game::new(game.data().clone()).unwrap();
    assert_eq!(game.version(), GameVersion::FireRedLeafGreen);
    assert_eq!(game.trainer().security_key().unwrap(), 0xDEADBEEF);
}

#[test]
fn security_key_is_game_code_for_emerald() {
    let mut buf = build_valid_save();
    le::write_word(&mut buf, 0x00AC, 0x12345678);
    let mut game = Game::new_with_validation(buf, Validate::Off).unwrap();
    game.update_checksum();
    let game = Game::new(game.data().clone()).unwrap();
    assert_eq!(game.version(), GameVersion::Emerald);
    assert_eq!(game.trainer().security_key().unwrap(), 0x12345678);
}

#[test]
fn zero_payload_checksum_is_zero() {
    let game = Game::new(build_valid_save()).unwrap();
    for section in game.save_slot().sections() {
        assert_eq!(section.calculate_checksum(), 0);
    }
    assert_eq!(pokedit_lib::gen3::calculate_checksum(&vec![0u8; 3968], 3968), 0);
}

#[test]
fn checksum_folds_high_and_low_halves() {
    // One payload word 0x00010002: sum 0x00010002, fold 0x0001 + 0x0002.
    let mut payload = vec![0u8; 3884];
    payload[0] = 2;
    payload[2] = 1;
    assert_eq!(pokedit_lib::gen3::calculate_checksum(&payload, 3884), 3);
}

#[test]
fn set_money_round_trips_for_every_version() {
    // Ruby/Sapphire: key 0; Emerald: key equals the game code.
    for game_code in [0u32, 0xCAFEF00D] {
        let mut buf = build_valid_save();
        le::write_word(&mut buf, 0x00AC, game_code);
        let mut game = Game::new_with_validation(buf, Validate::Off).unwrap();
        let token = game.team_items_mut();
        token.set_money(&mut game, 123456);
        assert_eq!(game.team_items().money(), 123456);
        let data = game.team_items_mut().as_data(&game);
        assert_eq!(data.money(), 123456);
    }
}

#[test]
fn money_is_stored_xor_obfuscated() {
    let mut buf = build_valid_save();
    le::write_word(&mut buf, 0x00AC, 0xCAFEF00D); // Emerald: key is the game code
    let mut game = Game::new_with_validation(buf, Validate::Off).unwrap();
    let token = game.team_items_mut();
    token.set_money(&mut game, 1000);
    // The raw stored word differs from the value by exactly the key.
    let raw = le::read_word(game.data(), 4096 + 0x0490);
    assert_eq!(raw, 0xCAFEF00D ^ 1000);
    assert_eq!(game.team_items().money(), 1000);
}

#[test]
fn update_checksum_round_trips_through_reload() {
    let mut buf = build_valid_save();
    le::write_word(&mut buf, 0x00AC, 0x00C0FFEE); // Emerald
    buf[0x0008] = 1; // female trainer
    let mut game = Game::new_with_validation(buf, Validate::Off).unwrap();
    let token = game.team_items_mut();
    token.set_money(&mut game, 424242);
    game.update_checksum();

    let reloaded = Game::new_with_validation(game.data().clone(), Validate::Full).unwrap();
    assert_eq!(reloaded.version(), GameVersion::Emerald);
    assert_eq!(reloaded.trainer().gender().unwrap(), Gender::Female);
    assert_eq!(reloaded.trainer().game_code(), 0x00C0FFEE);
    assert_eq!(reloaded.team_items().money(), 424242);
    assert_eq!(reloaded.save_slot().save_index(), 1);
    // A second reload under Basic passes too, with identical bytes.
    let again = Game::new_with_validation(reloaded.data().clone(), Validate::Basic).unwrap();
    assert_eq!(again.data(), reloaded.data());
}

#[test]
fn update_checksum_keeps_stored_checksums_fresh() {
    let mut buf = build_valid_save();
    buf[0] = 2;
    buf[2] = 1; // stale payload edit: fold checksum becomes 3
    let mut game = Game::new_with_validation(buf, Validate::Off).unwrap();
    game.update_checksum();
    let reloaded = Game::new_with_validation(game.data().clone(), Validate::Basic).unwrap();
    assert_eq!(reloaded.trainer().checksum(), 3);
}

#[test]
fn version_offsets_match_the_layout() {
    assert_eq!(GameVersion::RubySapphire.money_offset(), 0x0490);
    assert_eq!(GameVersion::Emerald.money_offset(), 0x0490);
    assert_eq!(GameVersion::FireRedLeafGreen.money_offset(), 0x0290);
    assert_eq!(GameVersion::RubySapphire.security_key_offset(), 0);
    assert_eq!(GameVersion::FireRedLeafGreen.security_key_offset(), 0x0AF8);
    assert_eq!(GameVersion::Emerald.security_key_offset(), 0x00AC);
}

#[test]
fn section_views_expose_header_fields() {
    let game = Game::new(build_valid_save()).unwrap();
    let sections = game.save_slot().sections();
    assert_eq!(sections.len(), 14);
    assert!(sections[0].validate(Validate::Full).is_ok());
    assert!(sections[0].validate(Validate::Off).is_ok());
    assert_eq!(sections[2].id(), 2);
    assert_eq!(sections[2].signature(), MAGIC_SIGNATURE);
    assert_eq!(sections[2].save_index(), 1);
    assert_eq!(sections[2].checksum(), 0);
    assert_eq!(sections[2].calculate_checksum(), 0);
}

#[test]
fn slot_validate_follows_mode() {
    let mut buf = build_valid_save();
    buf[0] = 2;
    buf[2] = 1; // stale payload edit
    let game = Game::new_with_validation(buf, Validate::Off).unwrap();
    assert!(game.save_slot().validate(Validate::Off).is_ok());
    match game.save_slot().validate(Validate::Basic) {
        Err(PkError::Load(e)) => assert_eq!(
            e,
            PkErrorLoad::InvalidChecksum { section_id: 0, expected: 3, found: 0 }
        ),
        other => panic!("expected an invalid-checksum failure, got {:?}", other),
    }
    assert!(game.validate().is_ok());
}

#[test]
fn to_info_records_scanned_offsets() {
    let game = Game::new(build_valid_save()).unwrap();
    let info = game.save_slot().to_info(0);
    assert_eq!(info.offset, 0);
    assert_eq!(info.trainer, 0);
    assert_eq!(info.team_items, 4096);
}

#[test]
fn to_sections_resolves_typed_views() {
    let mut buf = build_valid_save();
    le::write_word(&mut buf, 0x00AC, 5); // game code, inside the trainer payload
    let mut game = Game::new_with_validation(buf, Validate::Off).unwrap();
    game.update_checksum();
    let game = Game::new(game.data().clone()).unwrap();
    let sections = game.save_slot().to_sections().unwrap();
    assert_eq!(sections.trainer.game_code(), 5);
    assert_eq!(sections.trainer.gender().unwrap(), Gender::Male);
}

#[test]
fn sections_mut_tokens_update_each_checksum() {
    let mut buf = build_valid_save();
    buf[0] = 2;
    buf[2] = 1; // stale payload edit: fold checksum becomes 3
    let mut game = Game::new_with_validation(buf, Validate::Off).unwrap();
    let slot = game.save_slot_mut();
    for token in slot.sections_mut() {
        token.update_checksum(&mut game);
    }
    let reloaded = Game::new(game.data().clone()).unwrap();
    assert_eq!(reloaded.trainer().checksum(), 3);
}

#[test]
fn name_raw_returns_the_seven_name_bytes() {
    let mut buf = build_valid_save();
    for (i, byte) in [10u8, 20, 30, 40, 50, 60, 70].into_iter().enumerate() {
        buf[i] = byte;
    }
    let game = Game::new_with_validation(buf, Validate::Off).unwrap();
    assert_eq!(game.trainer().name_raw(), [10, 20, 30, 40, 50, 60, 70]);
}

#[test]
fn fire_red_money_uses_its_own_offset_and_key() {
    let mut buf = build_valid_save();
    le::write_word(&mut buf, 0x00AC, 1); // game code 1: FireRed/LeafGreen
    le::write_word(&mut buf, 0x0AF8, 0x0BADF00D); // stored security key
    let mut game = Game::new_with_validation(buf, Validate::Off).unwrap();
    let token = game.team_items_mut();
    token.set_money(&mut game, 777);
    assert_eq!(game.team_items().money(), 777);
    let raw = le::read_word(game.data(), 4096 + 0x0290);
    assert_eq!(raw, 0x0BADF00D ^ 777);
}
