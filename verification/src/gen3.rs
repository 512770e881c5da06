use vstd::prelude::*;

use crate::error::PkError;
use crate::error::PkErrorLoad;
use crate::mem::le;
use crate::PkResult;
use vstd::arithmetic::div_mod::lemma_fundamental_div_mod;
use vstd::arithmetic::div_mod::lemma_mod_multiples_basic;
use vstd::arithmetic::div_mod::lemma_mod_multiples_vanish;
use vstd::arithmetic::div_mod::lemma_small_mod;

pub use crate::common::Gender;

verus! {

// ---------------------------------------------------------------------------
// Layout constants
// ---------------------------------------------------------------------------

/// Minimum size of a loadable save image: two slots plus the trailing regions.
pub const SAVE_FILE_MIN_SIZE: usize = 131072;

/// Size of one section window.
pub const SECTION_SIZE: usize = 4096;

/// Number of sections in one save slot.
pub const SECTION_COUNT: usize = 14;

/// Size of one save slot: `SECTION_COUNT` contiguous sections.
pub const SAVE_SLOT_SIZE: usize = 57344;

/// Byte offset of save slot A in the playable region.
pub const SAVE_SLOT_A_OFFSET: usize = 0;

/// Byte offset of save slot B in the playable region.
pub const SAVE_SLOT_B_OFFSET: usize = 57344;

/// Offset of the 16-bit section id inside a section window.
pub const SECTION_ID_OFFSET: usize = 0x0FF4;

/// Offset of the stored 16-bit checksum inside a section window.
pub const CHECKSUM_OFFSET: usize = 0x0FF6;

/// Offset of the 32-bit signature inside a section window.
pub const SIGNATURE_OFFSET: usize = 0x0FF8;

/// Offset of the 32-bit save index inside a section window.
pub const SAVE_INDEX_OFFSET: usize = 0x0FFC;

/// The magic constant every valid section carries as its signature.
pub const MAGIC_SIGNATURE: u32 = 0x08012025;

// ---------------------------------------------------------------------------
// Validation modes and game versions
// ---------------------------------------------------------------------------

/// How much structural checking a load performs.
///
/// `Basic` and `Full` currently apply identical checks; both are kept as a
/// seam for a future product decision on deep-validating reserved sections.
#[derive(Debug, Clone, Copy, Default, PartialEq, Eq, Hash, Structural)]
pub enum Validate {
    /// No validation at all (the "none" mode): the caller vouches for data integrity.
    Off,
    #[default]
    Basic,
    Full,
}

/// The game version, derived from the trainer section's game-code field.
#[derive(Debug, Clone, Copy, Default, PartialEq, Eq, Hash, Structural)]
pub enum GameVersion {
    #[default]
    RubySapphire,
    FireRedLeafGreen,
    Emerald,
}

/// The game version a game-code word denotes: 0 is Ruby/Sapphire, 1 is
/// FireRed/LeafGreen, and anything else is Emerald (where the field doubles
/// as the security key).
pub open spec fn spec_version_of(game_code: u32) -> GameVersion {
    if game_code == 0 {
        GameVersion::RubySapphire
    } else if game_code == 1 {
        GameVersion::FireRedLeafGreen
    } else {
        GameVersion::Emerald
    }
}

impl GameVersion {
    /// The offset into the trainer section where the security key is stored.
    pub open spec fn spec_security_key_offset(self) -> int {
        match self {
            GameVersion::RubySapphire => 0,
            GameVersion::FireRedLeafGreen => 0x0AF8,
            GameVersion::Emerald => 0x00AC,
        }
    }

    /// Returns the offset into the trainer section where the security key is stored.
    pub fn security_key_offset(self) -> (r: usize)
        ensures
            r as int == self.spec_security_key_offset(),
    {
        match self {
            GameVersion::RubySapphire => 0,
            GameVersion::FireRedLeafGreen => 0x0AF8,
            GameVersion::Emerald => 0x00AC,
        }
    }

    /// The offset into the team/items section where the player's money is stored.
    pub open spec fn spec_money_offset(self) -> int {
        match self {
            GameVersion::RubySapphire | GameVersion::Emerald => 0x0490,
            GameVersion::FireRedLeafGreen => 0x0290,
        }
    }

    /// Returns the offset into the team/items section where the player's money is stored.
    pub fn money_offset(self) -> (r: usize)
        ensures
            r as int == self.spec_money_offset(),
    {
        match self {
            GameVersion::RubySapphire | GameVersion::Emerald => 0x0490,
            GameVersion::FireRedLeafGreen => 0x0290,
        }
    }

    /// Derives the version from a game-code word.
    pub fn from_game_code(game_code: u32) -> (r: GameVersion)
        ensures
            r == spec_version_of(game_code),
    {
        if game_code == 0 {
            GameVersion::RubySapphire
        } else if game_code == 1 {
            GameVersion::FireRedLeafGreen
        } else {
            GameVersion::Emerald
        }
    }
}

impl From<u32> for GameVersion {
    fn from(value: u32) -> Self {
        GameVersion::from_game_code(value)
    }
}

impl vstd::std_specs::convert::FromSpecImpl<u32> for GameVersion {
    open spec fn obeys_from_spec() -> bool {
        true
    }

    open spec fn from_spec(value: u32) -> GameVersion {
        spec_version_of(value)
    }
}

/// The language codes a save can carry; currently uninterpreted by this crate.
#[derive(Debug, Default, Copy, Clone, PartialEq, Eq, Structural)]
pub enum Language {
    #[default]
    Japanese,
    English,
    French,
    Italian,
    German,
    Spanish,
}

// ---------------------------------------------------------------------------
// Field obfuscation: XOR with the per-save security key
// ---------------------------------------------------------------------------

/// Removes the XOR obfuscation from a stored word.
pub fn decrypt_word(key: u32, value: u32) -> (r: u32)
    ensures
        r == key ^ value,
{
    key ^ value
}

/// Applies the XOR obfuscation to a word before storing it.
pub fn encrypt_word(key: u32, value: u32) -> (r: u32)
    ensures
        r == key ^ value,
{
    key ^ value
}

/// XOR with a fixed key is its own inverse: decrypting an encrypted word
/// gives the word back, for every key and every value.
pub proof fn lemma_encrypt_decrypt_round_trip(key: u32, value: u32)
    ensures
        key ^ (key ^ value) == value,
{
    assert(key ^ (key ^ value) == value) by (bit_vector);
}

// ---------------------------------------------------------------------------
// Checksum engine
// ---------------------------------------------------------------------------

/// Sum of the first `n` little-endian 32-bit words of `s`, with wraparound.
pub open spec fn spec_word_sum(s: Seq<u8>, n: int) -> u32
    recommends
        4 * n <= s.len(),
    decreases n,
{
    if n <= 0 {
        0u32
    } else {
        ((spec_word_sum(s, n - 1) + le::spec_word(s, 4 * (n - 1))) % 0x1_0000_0000) as u32
    }
}

/// The fold-checksum over the first `len` bytes of `s`: sum the 4-byte
/// little-endian words with 32-bit wraparound, then add the high and low
/// halves of the sum with 16-bit wraparound.
pub open spec fn spec_checksum(s: Seq<u8>, len: int) -> u16
    recommends
        len % 4 == 0,
        len <= s.len(),
{
    let sum = spec_word_sum(s, len / 4);
    ((sum / 65536 + sum % 65536) % 65536) as u16
}

/// Computes the fold-checksum over the first `len` bytes of `data`.
pub fn calculate_checksum(data: &Vec<u8>, len: usize) -> (r: u16)
    requires
        len <= data@.len(),
        len % 4 == 0,
    ensures
        r == spec_checksum(data@, len as int),
{
    let words = len / 4;
    let mut sum: u32 = 0;
    let mut i: usize = 0;
    while i < words
        invariant
            i <= words,
            words == len / 4,
            len % 4 == 0,
            len <= data@.len(),
            sum == spec_word_sum(data@, i as int),
        decreases words - i,
    {
        assert(4 * (i as int) + 4 <= len);
        let w = le::read_word(data, 4 * i);
        sum = ((sum as u64 + w as u64) % 0x1_0000_0000) as u32;
        i = i + 1;
    }
    let hi = sum / 65536;
    let lo = sum % 65536;
    ((hi + lo) % 65536) as u16
}

/// The word sum over a prefix depends only on the bytes of that prefix.
pub proof fn lemma_word_sum_prefix(s1: Seq<u8>, s2: Seq<u8>, n: int)
    requires
        forall|i: int| 0 <= i < 4 * n ==> s1[i] == s2[i],
    ensures
        spec_word_sum(s1, n) == spec_word_sum(s2, n),
    decreases n,
{
    if n > 0 {
        lemma_word_sum_prefix(s1, s2, n - 1);
        assert(le::spec_word(s1, 4 * (n - 1)) == le::spec_word(s2, 4 * (n - 1)));
    }
}

// ---------------------------------------------------------------------------
// Section header fields, as specifications over a 4096-byte window
// ---------------------------------------------------------------------------

/// How many payload bytes the checksum of a section with this id covers.
pub open spec fn spec_checksum_len(id: u16) -> int {
    if id == 0 {
        3884
    } else if id == 4 {
        3848
    } else if id == 13 {
        2000
    } else {
        3968
    }
}

/// Returns how many payload bytes the checksum of a section with id `id` covers.
pub fn checksum_len(id: u16) -> (r: usize)
    requires
        id <= 13,
    ensures
        r as int == spec_checksum_len(id),
        r % 4 == 0,
        r <= SECTION_SIZE,
{
    match id {
        0 => 3884,
        1 => 3968,
        2 => 3968,
        3 => 3968,
        4 => 3848,
        5..=12 => 3968,
        _ => 2000,
    }
}

/// The id stored in a section window.
pub open spec fn spec_sec_id(sec: Seq<u8>) -> u16 {
    le::spec_half_word(sec, SECTION_ID_OFFSET as int)
}

/// The checksum stored in a section window.
pub open spec fn spec_sec_stored_checksum(sec: Seq<u8>) -> u16 {
    le::spec_half_word(sec, CHECKSUM_OFFSET as int)
}

/// The signature stored in a section window.
pub open spec fn spec_sec_signature(sec: Seq<u8>) -> u32 {
    le::spec_word(sec, SIGNATURE_OFFSET as int)
}

/// The save index stored in a section window.
pub open spec fn spec_sec_save_index(sec: Seq<u8>) -> u32 {
    le::spec_word(sec, SAVE_INDEX_OFFSET as int)
}

/// The checksum a section window should carry: the fold-checksum over the
/// payload length its id selects.
pub open spec fn spec_sec_computed_checksum(sec: Seq<u8>) -> u16 {
    spec_checksum(sec, spec_checksum_len(spec_sec_id(sec)))
}

/// The structural failure a section reports under a validating mode, if any:
/// a checksum mismatch is reported first, then a signature mismatch.
pub open spec fn spec_sec_validate_error(sec: Seq<u8>) -> Option<PkErrorLoad> {
    if spec_sec_stored_checksum(sec) != spec_sec_computed_checksum(sec) {
        Some(
            PkErrorLoad::InvalidChecksum {
                section_id: spec_sec_id(sec),
                expected: spec_sec_computed_checksum(sec),
                found: spec_sec_stored_checksum(sec),
            },
        )
    } else if spec_sec_signature(sec) != MAGIC_SIGNATURE {
        Some(
            PkErrorLoad::InvalidSignature {
                section_id: spec_sec_id(sec),
                expected: MAGIC_SIGNATURE,
                found: spec_sec_signature(sec),
            },
        )
    } else {
        None
    }
}

/// A section window is structurally valid: its stored checksum equals the
/// freshly computed one and its signature equals the magic constant.
pub open spec fn spec_sec_valid(sec: Seq<u8>) -> bool {
    spec_sec_validate_error(sec) is None
}

/// Two section windows that agree everywhere outside the stored-checksum
/// field carry the same id, signature, save index, and computed checksum:
/// the checksum never covers its own stored field.
pub proof fn lemma_sec_fields_ignore_stored_checksum(w1: Seq<u8>, w2: Seq<u8>)
    requires
        w1.len() == SECTION_SIZE,
        w2.len() == SECTION_SIZE,
        forall|i: int|
            0 <= i < SECTION_SIZE && !(CHECKSUM_OFFSET <= i < CHECKSUM_OFFSET + 2) ==> w1[i]
                == w2[i],
    ensures
        spec_sec_id(w2) == spec_sec_id(w1),
        spec_sec_signature(w2) == spec_sec_signature(w1),
        spec_sec_save_index(w2) == spec_sec_save_index(w1),
        spec_sec_computed_checksum(w2) == spec_sec_computed_checksum(w1),
{
    assert(spec_sec_id(w2) == spec_sec_id(w1));
    let len = spec_checksum_len(spec_sec_id(w1));
    assert(len <= 3968);
    lemma_word_sum_prefix(w1, w2, len / 4);
}

// ---------------------------------------------------------------------------
// Typed windows over the raw buffer
// ---------------------------------------------------------------------------

/// A view type: a fixed window size plus optional interpretation context.
pub trait DataView {
    /// The window size this view type spans.
    spec fn spec_size() -> int;

    /// Returns the window size.
    fn size() -> (r: usize)
        ensures
            r as int == Self::spec_size(),
            r > 0,
    ;
}

/// Marker for a 4096-byte section window.
#[derive(Debug, Clone, Copy)]
pub struct Section;

impl DataView for Section {
    open spec fn spec_size() -> int {
        SECTION_SIZE as int
    }

    fn size() -> usize {
        SECTION_SIZE
    }
}

/// Marker for a 57344-byte save-slot window.
#[derive(Debug, Clone, Copy)]
pub struct SaveSlot;

impl DataView for SaveSlot {
    open spec fn spec_size() -> int {
        SAVE_SLOT_SIZE as int
    }

    fn size() -> usize {
        SAVE_SLOT_SIZE
    }
}

/// Marker for the trainer section (id 0).
#[derive(Debug, Clone, Copy)]
pub struct TrainerSection;

/// The id of the trainer section.
pub const TRAINER_SECTION_ID: u16 = 0;

impl DataView for TrainerSection {
    open spec fn spec_size() -> int {
        SECTION_SIZE as int
    }

    fn size() -> usize {
        SECTION_SIZE
    }
}

/// Marker and interpretation context for the team/items section (id 1):
/// reading its obfuscated fields needs the version and the security key.
#[derive(Debug, Clone, Copy)]
pub struct TeamItemsSection {
    pub version: GameVersion,
    pub security_key: u32,
}

/// The id of the team/items section.
pub const TEAM_ITEMS_SECTION_ID: u16 = 1;

impl DataView for TeamItemsSection {
    open spec fn spec_size() -> int {
        SECTION_SIZE as int
    }

    fn size() -> usize {
        SECTION_SIZE
    }
}

/// A read-only snapshot of one window of the save buffer, tagged by the view
/// type `D`. It holds a copy of the window bytes, so reading it never
/// conflicts with a later mutation of the buffer.
#[derive(Debug, Clone)]
pub struct Data<D> {
    bytes: Vec<u8>,
    view_context: D,
}

impl<D> View for Data<D> {
    type V = Seq<u8>;

    closed spec fn view(&self) -> Seq<u8> {
        self.bytes@
    }
}

impl<D> Data<D> {
    /// The interpretation context this view carries.
    pub closed spec fn ctx(&self) -> D {
        self.view_context
    }
}

impl<D: DataView> Data<D> {
    /// A snapshot is well formed when it spans exactly the window its view
    /// type asks for.
    pub open spec fn wf(&self) -> bool {
        self@.len() == D::spec_size()
    }

    /// Copies the `D`-sized window of `data` that starts at `offset`.
    fn from_offset_with(data: &Vec<u8>, offset: usize, view_context: D) -> (r: Self)
        requires
            offset + D::spec_size() <= data@.len(),
        ensures
            r@ == data@.subrange(offset as int, offset + D::spec_size()),
            r.view_context == view_context,
            r.wf(),
    {
        let n: usize = data.len();
        let size = D::size();
        let window = vstd::slice::slice_to_vec(
            vstd::slice::slice_subrange(data.as_slice(), offset, offset + size),
        );
        Data { bytes: window, view_context }
    }
}

impl Data<Section> {
    /// The stored checksum field.
    pub fn checksum(&self) -> (r: u16)
        requires
            self.wf(),
        ensures
            r == spec_sec_stored_checksum(self@),
    {
        le::read_half_word(&self.bytes, CHECKSUM_OFFSET)
    }

    /// The id field.
    pub fn id(&self) -> (r: u16)
        requires
            self.wf(),
        ensures
            r == spec_sec_id(self@),
    {
        le::read_half_word(&self.bytes, SECTION_ID_OFFSET)
    }

    /// The signature field.
    pub fn signature(&self) -> (r: u32)
        requires
            self.wf(),
        ensures
            r == spec_sec_signature(self@),
    {
        le::read_word(&self.bytes, SIGNATURE_OFFSET)
    }

    /// The save-index field.
    pub fn save_index(&self) -> (r: u32)
        requires
            self.wf(),
        ensures
            r == spec_sec_save_index(self@),
    {
        le::read_word(&self.bytes, SAVE_INDEX_OFFSET)
    }

    /// Recomputes the checksum from the payload, over the length the id selects.
    pub fn calculate_checksum(&self) -> (r: u16)
        requires
            self.wf(),
            spec_sec_id(self@) <= 13,
        ensures
            r == spec_sec_computed_checksum(self@),
    {
        let id = self.id();
        let len = checksum_len(id);
        calculate_checksum(&self.bytes, len)
    }

    /// Checks this section under the requested mode. Under `Validate::Off`
    /// nothing is checked; under any other mode the section passes exactly
    /// when its stored checksum equals the freshly computed one and its
    /// signature equals the magic constant.
    pub fn validate(&self, validation: Validate) -> (r: PkResult<()>)
        requires
            self.wf(),
            validation != Validate::Off ==> spec_sec_id(self@) <= 13,
        ensures
            validation == Validate::Off ==> r is Ok,
            validation != Validate::Off ==> match spec_sec_validate_error(self@) {
                Some(e) => r == PkResult::<()>::Err(PkError::Load(e)),
                None => r is Ok,
            },
            validation != Validate::Off ==> (r is Ok <==> spec_sec_valid(self@)),
    {
        if matches!(validation, Validate::Off) {
            return Ok(());
        }

        let current_checksum = self.checksum();
        let expected_checksum = self.calculate_checksum();

        if current_checksum != expected_checksum {
            return Err(
                PkError::Load(
                    PkErrorLoad::InvalidChecksum {
                        section_id: self.id(),
                        expected: expected_checksum,
                        found: current_checksum,
                    },
                ),
            );
        }

        let current_signature = self.signature();
        if current_signature != MAGIC_SIGNATURE {
            return Err(
                PkError::Load(
                    PkErrorLoad::InvalidSignature {
                        section_id: self.id(),
                        expected: MAGIC_SIGNATURE,
                        found: current_signature,
                    },
                ),
            );
        }

        Ok(())
    }
}

// ---------------------------------------------------------------------------
// Save slots: 14 contiguous sections, resolved by scanning ids
// ---------------------------------------------------------------------------

/// The `i`-th section window of a slot window.
pub open spec fn spec_slot_section(slot: Seq<u8>, i: int) -> Seq<u8> {
    slot.subrange(4096 * i, 4096 * i + 4096)
}

/// The save index of a slot: the save index of its first physical section.
pub open spec fn spec_slot_save_index(slot: Seq<u8>) -> u32 {
    spec_sec_save_index(spec_slot_section(slot, 0))
}

/// The failure the `i`-th section of a slot reports during slot validation,
/// if any: a save-index mismatch first, then an unrecognized id, then the
/// section's own checksum/signature check.
pub open spec fn spec_slot_section_error(slot: Seq<u8>, i: int) -> Option<PkError> {
    let sec = spec_slot_section(slot, i);
    if spec_sec_save_index(sec) != spec_slot_save_index(slot) {
        Some(
            PkError::Load(
                PkErrorLoad::MissmatchedSaveFileIndex(
                    spec_slot_save_index(slot),
                    spec_sec_save_index(sec),
                ),
            ),
        )
    } else if spec_sec_id(sec) > 13 {
        Some(PkError::Load(PkErrorLoad::InvalidSectionId(spec_sec_id(sec))))
    } else {
        match spec_sec_validate_error(sec) {
            Some(e) => Some(PkError::Load(e)),
            None => None,
        }
    }
}

/// A slot passes validation: every section carries the slot's save index, a
/// recognized id, a correct checksum and the magic signature.
pub open spec fn spec_slot_ok(slot: Seq<u8>) -> bool {
    forall|i: int| 0 <= i < 14 ==> spec_slot_section_error(slot, i) is None
}

/// `e` is the failure of the first faulty section of the slot, in scan order.
pub open spec fn spec_slot_first_fault_error(slot: Seq<u8>, e: PkError) -> bool {
    exists|i: int|
        0 <= i < 14 && (forall|j: int| 0 <= j < i ==> spec_slot_section_error(slot, j) is None)
            && spec_slot_section_error(slot, i) == Some(e)
}

/// The largest `i < n` whose section carries `id`, or -1 if none does.
pub open spec fn spec_slot_last_index_of(slot: Seq<u8>, id: u16, n: int) -> int
    decreases n,
{
    if n <= 0 {
        -1
    } else if spec_sec_id(spec_slot_section(slot, n - 1)) == id {
        n - 1
    } else {
        spec_slot_last_index_of(slot, id, n - 1)
    }
}

/// The last index a scan can report is below the scan bound.
pub proof fn lemma_last_index_bounds(slot: Seq<u8>, id: u16, n: int)
    ensures
        -1 <= spec_slot_last_index_of(slot, id, n) < n || n < 0,
    decreases n,
{
    if n > 0 {
        lemma_last_index_bounds(slot, id, n - 1);
    }
}

/// Every section id of the slot is recognized (at most 13).
pub open spec fn spec_slot_ids_recognized(slot: Seq<u8>) -> bool {
    forall|i: int| 0 <= i < 14 ==> spec_sec_id(#[trigger] spec_slot_section(slot, i)) <= 13
}

/// `e` is the failure a scan for the typed sections reports: the first
/// unrecognized id in scan order, else a missing trainer section, else a
/// missing team/items section.
pub open spec fn spec_to_sections_error(slot: Seq<u8>, e: PkError) -> bool {
    ||| (exists|k: int|
        0 <= k < 14 && (forall|j: int|
            0 <= j < k ==> spec_sec_id(#[trigger] spec_slot_section(slot, j)) <= 13)
            && spec_sec_id(spec_slot_section(slot, k)) > 13 && e == PkError::Load(
            PkErrorLoad::InvalidSectionId(spec_sec_id(spec_slot_section(slot, k))),
        ))
    ||| (spec_slot_ids_recognized(slot) && spec_slot_last_index_of(slot, TRAINER_SECTION_ID, 14)
        < 0 && (e matches PkError::Load(PkErrorLoad::MissingSection(name)) && name@
        == "Trainer"@))
    ||| (spec_slot_ids_recognized(slot) && spec_slot_last_index_of(slot, TRAINER_SECTION_ID, 14)
        >= 0 && spec_slot_last_index_of(slot, TEAM_ITEMS_SECTION_ID, 14) < 0 && (
    e matches PkError::Load(PkErrorLoad::MissingSection(name)) && name@ == "Team/Items"@))
}

/// Resolved byte offsets of a slot and of its semantic sections, relative to
/// the whole buffer; computed once per load by scanning ids.
#[derive(Debug, Clone, Copy)]
pub struct SaveSlotInfo {
    pub offset: usize,
    pub trainer: usize,
    pub team_items: usize,
}

/// The typed trainer and team/items views a slot scan resolves.
#[derive(Debug, Clone)]
pub struct Sections {
    pub trainer: Data<TrainerSection>,
    pub team_items: Data<TeamItemsSection>,
}

impl Data<SaveSlot> {
    /// Copies the `i`-th section window out of this slot snapshot.
    fn section_at(&self, i: usize) -> (r: Data<Section>)
        requires
            self.wf(),
            i < 14,
        ensures
            r@ == spec_slot_section(self@, i as int),
            r.wf(),
    {
        Data::<Section>::from_offset_with(&self.bytes, 4096 * i, Section)
    }

    /// The save index of this slot: the save index of its first physical
    /// section, readable before any validation; used for slot selection.
    pub fn save_index(&self) -> (r: u32)
        requires
            self.wf(),
        ensures
            r == spec_slot_save_index(self@),
    {
        let sec = self.section_at(0);
        sec.save_index()
    }

    /// Checks the whole slot under the requested mode. Under `Validate::Off`
    /// nothing is checked; under any other mode the slot passes exactly when
    /// every section carries the slot's save index, a recognized id, a
    /// correct checksum and the magic signature. On failure the error of the
    /// first faulty section, in scan order, is returned.
    pub fn validate(&self, validation: Validate) -> (r: PkResult<()>)
        requires
            self.wf(),
        ensures
            validation == Validate::Off ==> r is Ok,
            validation != Validate::Off ==> (r is Ok <==> spec_slot_ok(self@)),
            validation != Validate::Off ==> match r {
                Ok(()) => spec_slot_ok(self@),
                Err(e) => spec_slot_first_fault_error(self@, e),
            },
    {
        if matches!(validation, Validate::Off) {
            return Ok(());
        }

        let expected_save_index = self.save_index();
        let mut i: usize = 0;
        while i < SECTION_COUNT
            invariant
                self.wf(),
                i <= 14,
                validation != Validate::Off,
                expected_save_index == spec_slot_save_index(self@),
                forall|j: int| 0 <= j < i ==> spec_slot_section_error(self@, j) is None,
            decreases 14 - i,
        {
            let section = self.section_at(i);
            let found_save_index = section.save_index();
            if found_save_index != expected_save_index {
                assert(spec_slot_section_error(self@, i as int) == Some(
                    PkError::Load(
                        PkErrorLoad::MissmatchedSaveFileIndex(
                            expected_save_index,
                            found_save_index,
                        ),
                    ),
                ));
                return Err(
                    PkError::Load(
                        PkErrorLoad::MissmatchedSaveFileIndex(
                            expected_save_index,
                            found_save_index,
                        ),
                    ),
                );
            }

            let id = section.id();
            if id > 13 {
                assert(spec_slot_section_error(self@, i as int) == Some(
                    PkError::Load(PkErrorLoad::InvalidSectionId(id)),
                ));
                return Err(PkError::Load(PkErrorLoad::InvalidSectionId(id)));
            }

            match section.validate(validation) {
                Ok(()) => {
                    assert(spec_slot_section_error(self@, i as int) is None);
                },
                Err(e) => {
                    return Err(e);
                },
            }

            i = i + 1;
        }

        Ok(())
    }

    /// Scans the slot once and returns the typed trainer and team/items
    /// views. Fails on the first unrecognized id, then on a missing trainer
    /// section, then on a missing team/items section. When several sections
    /// carry the same semantic id, the last one in physical order wins.
    pub fn to_sections(&self) -> (r: PkResult<Sections>)
        requires
            self.wf(),
        ensures
            match r {
                Ok(sections) => spec_slot_ids_recognized(self@)
                    && spec_slot_last_index_of(self@, TRAINER_SECTION_ID, 14) >= 0
                    && spec_slot_last_index_of(self@, TEAM_ITEMS_SECTION_ID, 14) >= 0
                    && sections.trainer@ == spec_slot_section(
                    self@,
                    spec_slot_last_index_of(self@, TRAINER_SECTION_ID, 14),
                ) && sections.team_items@ == spec_slot_section(
                    self@,
                    spec_slot_last_index_of(self@, TEAM_ITEMS_SECTION_ID, 14),
                ) && sections.trainer.wf() && sections.team_items.wf()
                    && sections.team_items.ctx() == (TeamItemsSection {
                    version: GameVersion::RubySapphire,
                    security_key: 0,
                }),
                Err(e) => spec_to_sections_error(self@, e),
            },
    {
        let mut trainer: Option<Data<TrainerSection>> = None;
        let mut team_items: Option<Data<TeamItemsSection>> = None;

        let mut i: usize = 0;
        while i < SECTION_COUNT
            invariant
                self.wf(),
                i <= 14,
                forall|j: int| 0 <= j < i ==> spec_sec_id(#[trigger] spec_slot_section(self@, j)) <= 13,
                ({
                    let t = spec_slot_last_index_of(self@, TRAINER_SECTION_ID, i as int);
                    match trainer {
                        Some(d) => t >= 0 && d@ == spec_slot_section(self@, t) && d.wf(),
                        None => t < 0,
                    }
                }),
                ({
                    let t = spec_slot_last_index_of(self@, TEAM_ITEMS_SECTION_ID, i as int);
                    match team_items {
                        Some(d) => t >= 0 && d@ == spec_slot_section(self@, t) && d.wf()
                            && d.view_context == (TeamItemsSection {
                            version: GameVersion::RubySapphire,
                            security_key: 0,
                        }),
                        None => t < 0,
                    }
                }),
            decreases 14 - i,
        {
            let section = self.section_at(i);
            let id = section.id();
            if id == TRAINER_SECTION_ID {
                trainer = Some(
                    Data {
                        bytes: section.bytes,
                        view_context: TrainerSection,
                    },
                );
            } else if id == TEAM_ITEMS_SECTION_ID {
                team_items = Some(
                    Data {
                        bytes: section.bytes,
                        view_context: TeamItemsSection {
                            version: GameVersion::RubySapphire,
                            security_key: 0,
                        },
                    },
                );
            } else if id > 13 {
                return Err(PkError::Load(PkErrorLoad::InvalidSectionId(id)));
            }
            i = i + 1;
        }

        let trainer = match trainer {
            Some(t) => t,
            None => {
                return Err(PkError::Load(PkErrorLoad::MissingSection("Trainer")));
            },
        };
        let team_items = match team_items {
            Some(t) => t,
            None => {
                return Err(PkError::Load(PkErrorLoad::MissingSection("Team/Items")));
            },
        };

        Ok(Sections { trainer, team_items })
    }

    /// Scans the slot once and records where, relative to the whole buffer, a
    /// slot that starts at `current_offset` keeps its trainer and team/items
    /// sections. A semantic section that is absent is recorded at offset 0;
    /// when several sections carry the same id, the last one wins.
    /// Unrecognized ids are ignored here; `validate` and `to_sections`
    /// report them.
    pub fn to_info(&self, current_offset: usize) -> (r: SaveSlotInfo)
        requires
            self.wf(),
            current_offset + SAVE_SLOT_SIZE <= usize::MAX,
        ensures
            r.offset == current_offset,
            ({
                let t = spec_slot_last_index_of(self@, TRAINER_SECTION_ID, 14);
                r.trainer == (if t >= 0 {
                    current_offset + 4096 * t
                } else {
                    0
                })
            }),
            ({
                let t = spec_slot_last_index_of(self@, TEAM_ITEMS_SECTION_ID, 14);
                r.team_items == (if t >= 0 {
                    current_offset + 4096 * t
                } else {
                    0
                })
            }),
    {
        let mut info = SaveSlotInfo { offset: current_offset, trainer: 0, team_items: 0 };

        let mut i: usize = 0;
        while i < SECTION_COUNT
            invariant
                self.wf(),
                i <= 14,
                current_offset + SAVE_SLOT_SIZE <= usize::MAX,
                info.offset == current_offset,
                ({
                    let t = spec_slot_last_index_of(self@, TRAINER_SECTION_ID, i as int);
                    info.trainer == (if t >= 0 {
                        current_offset + 4096 * t
                    } else {
                        0
                    })
                }),
                ({
                    let t = spec_slot_last_index_of(self@, TEAM_ITEMS_SECTION_ID, i as int);
                    info.team_items == (if t >= 0 {
                        current_offset + 4096 * t
                    } else {
                        0
                    })
                }),
            decreases 14 - i,
        {
            let section = self.section_at(i);
            let id = section.id();
            if id == TRAINER_SECTION_ID {
                info.trainer = current_offset + SECTION_SIZE * i;
            } else if id == TEAM_ITEMS_SECTION_ID {
                info.team_items = current_offset + SECTION_SIZE * i;
            }
            i = i + 1;
        }

        info
    }

    /// Copies all 14 section windows of this slot, in physical order.
    pub fn sections(&self) -> (r: Vec<Data<Section>>)
        requires
            self.wf(),
        ensures
            r@.len() == 14,
            forall|i: int|
                0 <= i < 14 ==> (#[trigger] r@[i])@ == spec_slot_section(self@, i) && r@[i].wf(),
    {
        let mut out: Vec<Data<Section>> = Vec::new();
        let mut i: usize = 0;
        while i < SECTION_COUNT
            invariant
                self.wf(),
                i <= 14,
                out@.len() == i,
                forall|j: int|
                    0 <= j < i ==> (#[trigger] out@[j])@ == spec_slot_section(self@, j)
                        && out@[j].wf(),
            decreases 14 - i,
        {
            let section = self.section_at(i);
            out.push(section);
            i = i + 1;
        }
        out
    }
}

impl SaveSlot {
    /// Reads both slots and orders them: the slot with the strictly greater
    /// save index comes first as current; on a tie, slot B is current. Each
    /// slot is returned with its byte offset in the buffer.
    fn save_slots(data: &Vec<u8>) -> (r: ((usize, Data<SaveSlot>), (usize, Data<SaveSlot>)))
        requires
            data@.len() >= SAVE_FILE_MIN_SIZE,
        ensures
            ({
                let ((current_offset, current), (backup_offset, backup)) = r;
                let slot_a = data@.subrange(0, SAVE_SLOT_SIZE as int);
                let slot_b = data@.subrange(
                    SAVE_SLOT_B_OFFSET as int,
                    SAVE_SLOT_B_OFFSET + SAVE_SLOT_SIZE,
                );
                &&& current.wf()
                &&& backup.wf()
                &&& if spec_slot_save_index(slot_a) > spec_slot_save_index(slot_b) {
                    current_offset == SAVE_SLOT_A_OFFSET && current@ == slot_a && backup_offset
                        == SAVE_SLOT_B_OFFSET && backup@ == slot_b
                } else {
                    current_offset == SAVE_SLOT_B_OFFSET && current@ == slot_b && backup_offset
                        == SAVE_SLOT_A_OFFSET && backup@ == slot_a
                }
            }),
    {
        let save_slot_a = Data::<SaveSlot>::from_offset_with(data, SAVE_SLOT_A_OFFSET, SaveSlot);
        let a_index = save_slot_a.save_index();
        let save_slot_b = Data::<SaveSlot>::from_offset_with(data, SAVE_SLOT_B_OFFSET, SaveSlot);
        let b_index = save_slot_b.save_index();

        if a_index > b_index {
            ((SAVE_SLOT_A_OFFSET, save_slot_a), (SAVE_SLOT_B_OFFSET, save_slot_b))
        } else {
            ((SAVE_SLOT_B_OFFSET, save_slot_b), (SAVE_SLOT_A_OFFSET, save_slot_a))
        }
    }
}

// ---------------------------------------------------------------------------
// Trainer section fields
// ---------------------------------------------------------------------------

/// Offset of the raw player name inside the trainer section.
pub const PLAYER_NAME_OFFSET: usize = 0x0000;

/// Length of the raw player name.
pub const PLAYER_NAME_LENGTH: usize = 7;

/// Offset of the gender byte inside the trainer section.
pub const GENDER_OFFSET: usize = 0x0008;

/// Offset of the two 16-bit trainer-id halves inside the trainer section.
pub const TRAINER_ID_OFFSET: usize = 0x000A;

/// Offset of the public trainer-id half.
pub const PUBLIC_TRAINER_ID_OFFSET: usize = 0x000A;

/// Offset of the private trainer-id half.
pub const PRIVATE_TRAINER_ID_OFFSET: usize = 0x000C;

/// Offset of the time-played record inside the trainer section.
pub const TIME_PLAYED_OFFSET: usize = 0x000E;

/// Offset of the 16-bit hours-played field.
pub const HOURS_PLAYED_OFFSET: usize = 0x000E;

/// Offset of the minutes-played byte.
pub const MINUTES_PLAYED_OFFSET: usize = 0x0010;

/// Offset of the seconds-played byte.
pub const SECONDS_PLAYED_OFFSET: usize = 0x0011;

/// Offset of the frames-played byte.
pub const FRAMES_PLAYED_OFFSET: usize = 0x0012;

/// Offset of the 32-bit game-code word inside the trainer section.
pub const GAME_CODE_OFFSET: usize = 0x00AC;

/// The game-code word of a trainer section window.
pub open spec fn spec_trainer_game_code(sec: Seq<u8>) -> u32 {
    le::spec_word(sec, GAME_CODE_OFFSET as int)
}

/// The security key a trainer section yields: none for Ruby/Sapphire (game
/// code 0), the word at the FireRed/LeafGreen offset for game code 1, and
/// the game code itself for Emerald (any other game code).
pub open spec fn spec_trainer_security_key(sec: Seq<u8>) -> Option<u32> {
    let code = spec_trainer_game_code(sec);
    if code == 0 {
        None
    } else if code == 1 {
        Some(le::spec_word(sec, GameVersion::FireRedLeafGreen.spec_security_key_offset()))
    } else {
        Some(code)
    }
}

/// The two 16-bit halves of the trainer id.
#[derive(Debug, Clone, Copy, Default, PartialEq, Eq, Hash, Structural)]
pub struct TrainerId {
    pub public: u16,
    pub private: u16,
}

/// The time-played record of the trainer section.
#[derive(Debug, Clone, Copy, Default, PartialEq, Eq, Hash, Structural)]
pub struct Playtime {
    pub hours: u16,
    pub minutes: u8,
    pub seconds: u8,
    pub frames: u8,
}

impl Data<TrainerSection> {
    /// The stored checksum field of this section window.
    pub fn checksum(&self) -> (r: u16)
        requires
            self.wf(),
        ensures
            r == spec_sec_stored_checksum(self@),
    {
        le::read_half_word(&self.bytes, CHECKSUM_OFFSET)
    }

    /// The raw, undecoded 7 bytes of the player name.
    pub fn name_raw(&self) -> (r: [u8; 7])
        requires
            self.wf(),
        ensures
            forall|i: int| 0 <= i < 7 ==> r@[i] == self@[PLAYER_NAME_OFFSET + i],
    {
        [
            self.bytes[PLAYER_NAME_OFFSET],
            self.bytes[PLAYER_NAME_OFFSET + 1],
            self.bytes[PLAYER_NAME_OFFSET + 2],
            self.bytes[PLAYER_NAME_OFFSET + 3],
            self.bytes[PLAYER_NAME_OFFSET + 4],
            self.bytes[PLAYER_NAME_OFFSET + 5],
            self.bytes[PLAYER_NAME_OFFSET + 6],
        ]
    }

    /// The game-code word: the version discriminant, doubling as Emerald's
    /// security key.
    pub fn game_code(&self) -> (r: u32)
        requires
            self.wf(),
        ensures
            r == spec_trainer_game_code(self@),
    {
        le::read_word(&self.bytes, GAME_CODE_OFFSET)
    }

    /// Decodes the gender byte: 0 is male, 1 is female, and every other
    /// value fails with an invalid-data error naming the field.
    pub fn gender(&self) -> (r: PkResult<Gender>)
        requires
            self.wf(),
        ensures
            self@[GENDER_OFFSET as int] == 0 ==> r == PkResult::<Gender>::Ok(Gender::Male),
            self@[GENDER_OFFSET as int] == 1 ==> r == PkResult::<Gender>::Ok(Gender::Female),
            self@[GENDER_OFFSET as int] > 1 ==> (r matches PkResult::<Gender>::Err(
                PkError::InvalidData(name),
            ) && name@ == "gender"@),
    {
        let b = self.bytes[GENDER_OFFSET];
        match b {
            0 => Ok(Gender::Male),
            1 => Ok(Gender::Female),
            _ => Err(PkError::InvalidData("gender")),
        }
    }

    /// The public and private 16-bit halves of the trainer id.
    pub fn trainer_id(&self) -> (r: TrainerId)
        requires
            self.wf(),
        ensures
            r.public == le::spec_half_word(self@, PUBLIC_TRAINER_ID_OFFSET as int),
            r.private == le::spec_half_word(self@, PRIVATE_TRAINER_ID_OFFSET as int),
    {
        TrainerId {
            public: le::read_half_word(&self.bytes, PUBLIC_TRAINER_ID_OFFSET),
            private: le::read_half_word(&self.bytes, PRIVATE_TRAINER_ID_OFFSET),
        }
    }

    /// The time played: 16-bit hours, one byte each of minutes, seconds and
    /// frames.
    pub fn time_played(&self) -> (r: Playtime)
        requires
            self.wf(),
        ensures
            r.hours == le::spec_half_word(self@, HOURS_PLAYED_OFFSET as int),
            r.minutes == self@[MINUTES_PLAYED_OFFSET as int],
            r.seconds == self@[SECONDS_PLAYED_OFFSET as int],
            r.frames == self@[FRAMES_PLAYED_OFFSET as int],
    {
        Playtime {
            hours: le::read_half_word(&self.bytes, HOURS_PLAYED_OFFSET),
            minutes: self.bytes[MINUTES_PLAYED_OFFSET],
            seconds: self.bytes[SECONDS_PLAYED_OFFSET],
            frames: self.bytes[FRAMES_PLAYED_OFFSET],
        }
    }

    /// The security key: fails for Ruby/Sapphire (game code 0), reads the
    /// FireRed/LeafGreen offset for game code 1, and returns the game code
    /// itself for any other game code (Emerald).
    pub fn security_key(&self) -> (r: PkResult<u32>)
        requires
            self.wf(),
        ensures
            match spec_trainer_security_key(self@) {
                Some(key) => r == PkResult::<u32>::Ok(key),
                None => r matches PkResult::<u32>::Err(PkError::NotAvailableInGameVersion(name))
                    && name@ == "Security Key"@,
            },
    {
        let code = self.game_code();
        if code == 0 {
            // Ruby/Sapphire stores no security key.
            Err(PkError::NotAvailableInGameVersion("Security Key"))
        } else if code == 1 {
            let offset = GameVersion::FireRedLeafGreen.security_key_offset();
            Ok(le::read_word(&self.bytes, offset))
        } else {
            // Emerald stores its security key as the game code.
            Ok(code)
        }
    }
}

// ---------------------------------------------------------------------------
// Team/items section fields
// ---------------------------------------------------------------------------

/// The de-obfuscated money value a team/items section window holds, read
/// with the given version and security key.
pub open spec fn spec_money(sec: Seq<u8>, ctx: TeamItemsSection) -> u32 {
    ctx.security_key ^ le::spec_word(sec, ctx.version.spec_money_offset())
}

impl Data<TeamItemsSection> {
    /// Reads the stored money word at the version's offset and removes the
    /// XOR obfuscation with the security key this view was built with.
    pub fn money(&self) -> (r: u32)
        requires
            self.wf(),
        ensures
            r == spec_money(self@, self.ctx()),
    {
        let offset = self.view_context.version.money_offset();
        decrypt_word(self.view_context.security_key, le::read_word(&self.bytes, offset))
    }
}

// ---------------------------------------------------------------------------
// The whole buffer: two redundant slots, selection, loading
// ---------------------------------------------------------------------------

/// The slot-A window of a buffer.
pub open spec fn spec_slot_a(data: Seq<u8>) -> Seq<u8> {
    data.subrange(SAVE_SLOT_A_OFFSET as int, SAVE_SLOT_A_OFFSET + SAVE_SLOT_SIZE)
}

/// The slot-B window of a buffer.
pub open spec fn spec_slot_b(data: Seq<u8>) -> Seq<u8> {
    data.subrange(SAVE_SLOT_B_OFFSET as int, SAVE_SLOT_B_OFFSET + SAVE_SLOT_SIZE)
}

/// Where the current slot starts: slot A exactly when its save index is
/// strictly greater than slot B's; on a tie, slot B is current.
pub open spec fn spec_current_slot_offset(data: Seq<u8>) -> int {
    if spec_slot_save_index(spec_slot_a(data)) > spec_slot_save_index(spec_slot_b(data)) {
        SAVE_SLOT_A_OFFSET as int
    } else {
        SAVE_SLOT_B_OFFSET as int
    }
}

/// Where the backup slot starts: the slot that is not current.
pub open spec fn spec_backup_slot_offset(data: Seq<u8>) -> int {
    if spec_current_slot_offset(data) == SAVE_SLOT_A_OFFSET as int {
        SAVE_SLOT_B_OFFSET as int
    } else {
        SAVE_SLOT_A_OFFSET as int
    }
}

/// The current slot's window.
pub open spec fn spec_current_slot(data: Seq<u8>) -> Seq<u8> {
    data.subrange(spec_current_slot_offset(data), spec_current_slot_offset(data) + SAVE_SLOT_SIZE)
}

/// The backup slot's window.
pub open spec fn spec_backup_slot(data: Seq<u8>) -> Seq<u8> {
    data.subrange(spec_backup_slot_offset(data), spec_backup_slot_offset(data) + SAVE_SLOT_SIZE)
}

/// A buffer loads successfully under `validation`: it is big enough, both
/// slots pass the requested checks, and the current slot resolves a trainer
/// and a team/items section.
pub open spec fn spec_load_ok(data: Seq<u8>, validation: Validate) -> bool {
    &&& data.len() >= SAVE_FILE_MIN_SIZE
    &&& (validation == Validate::Off || (spec_slot_ok(spec_current_slot(data)) && spec_slot_ok(
        spec_backup_slot(data),
    )))
    &&& spec_slot_ids_recognized(spec_current_slot(data))
    &&& spec_slot_last_index_of(spec_current_slot(data), TRAINER_SECTION_ID, 14) >= 0
    &&& spec_slot_last_index_of(spec_current_slot(data), TEAM_ITEMS_SECTION_ID, 14) >= 0
}

/// `e` is the failure loading this buffer reports: a too-small buffer first;
/// then the current slot's first validation fault, then the backup slot's;
/// then the current slot's section-scan failure.
pub open spec fn spec_load_error(data: Seq<u8>, validation: Validate, e: PkError) -> bool {
    if data.len() < SAVE_FILE_MIN_SIZE {
        e == PkError::Load(
            PkErrorLoad::SaveFileTooSmall {
                expected_size: SAVE_FILE_MIN_SIZE,
                received_size: data.len() as usize,
            },
        )
    } else if validation != Validate::Off && !spec_slot_ok(spec_current_slot(data)) {
        spec_slot_first_fault_error(spec_current_slot(data), e)
    } else if validation != Validate::Off && !spec_slot_ok(spec_backup_slot(data)) {
        spec_slot_first_fault_error(spec_backup_slot(data), e)
    } else {
        spec_to_sections_error(spec_current_slot(data), e)
    }
}

/// Everything a successful load promises of the game it returns: the buffer
/// is kept verbatim, the slot with the strictly greater save index is
/// current (slot B on a tie), the resolved offsets point at the scanned
/// sections, and version and security key are decoded from the current
/// slot's trainer section (a version without a key falls back to 0).
pub open spec fn spec_loaded_game(g: Game, data: Seq<u8>) -> bool {
    let cur_off = spec_current_slot_offset(data);
    let cur = spec_current_slot(data);
    let trainer_index = spec_slot_last_index_of(cur, TRAINER_SECTION_ID, 14);
    let team_items_index = spec_slot_last_index_of(cur, TEAM_ITEMS_SECTION_ID, 14);
    let tr = spec_slot_section(cur, trainer_index);
    &&& g@ == data
    &&& g.spec_current_info().offset == cur_off
    &&& g.spec_current_info().trainer == cur_off + 4096 * trainer_index
    &&& g.spec_current_info().team_items == cur_off + 4096 * team_items_index
    &&& g.spec_backup_info().offset == spec_backup_slot_offset(data)
    &&& ({
        let bak = spec_backup_slot(data);
        let bak_trainer = spec_slot_last_index_of(bak, TRAINER_SECTION_ID, 14);
        g.spec_backup_info().trainer == (if bak_trainer >= 0 {
            spec_backup_slot_offset(data) + 4096 * bak_trainer
        } else {
            0
        })
    })
    &&& ({
        let bak = spec_backup_slot(data);
        let bak_team_items = spec_slot_last_index_of(bak, TEAM_ITEMS_SECTION_ID, 14);
        g.spec_backup_info().team_items == (if bak_team_items >= 0 {
            spec_backup_slot_offset(data) + 4096 * bak_team_items
        } else {
            0
        })
    })
    &&& g.spec_version() == spec_version_of(spec_trainer_game_code(tr))
    &&& g.spec_security_key() == (match spec_trainer_security_key(tr) {
        Some(key) => key,
        None => 0u32,
    })
}

/// Returns the length of the emulator intro of the save file: a replaceable
/// detector seam that currently always reports zero.
fn emulator_intro_length(_bytes: &Vec<u8>) -> (r: usize)
    ensures
        r == 0,
{
    let gnuboy_offset: usize = 0;
    gnuboy_offset
}

/// A loaded save image. It owns the whole buffer and keeps the resolved slot
/// offsets, the derived version and the cached security key; field reads go
/// back to the buffer on demand.
#[derive(Debug)]
pub struct Game {
    data: Vec<u8>,
    current_save_slot_info: SaveSlotInfo,
    backup_save_slot_info: SaveSlotInfo,
    version: GameVersion,
    security_key: u32,
}

impl View for Game {
    type V = Seq<u8>;

    closed spec fn view(&self) -> Seq<u8> {
        self.data@
    }
}

impl Game {
    /// The resolved offsets of the current slot.
    pub closed spec fn spec_current_info(&self) -> SaveSlotInfo {
        self.current_save_slot_info
    }

    /// The resolved offsets of the backup slot.
    pub closed spec fn spec_backup_info(&self) -> SaveSlotInfo {
        self.backup_save_slot_info
    }

    /// The derived game version.
    pub closed spec fn spec_version(&self) -> GameVersion {
        self.version
    }

    /// The cached security key.
    pub closed spec fn spec_security_key(&self) -> u32 {
        self.security_key
    }

    #[verifier::type_invariant]
    spec fn type_wf(self) -> bool {
        let info = self.current_save_slot_info;
        &&& self.data@.len() >= SAVE_FILE_MIN_SIZE
        &&& (info.offset == SAVE_SLOT_A_OFFSET || info.offset == SAVE_SLOT_B_OFFSET)
        &&& info.offset <= info.trainer
        &&& info.trainer + SECTION_SIZE <= info.offset + SAVE_SLOT_SIZE
        &&& (info.trainer - info.offset) % 4096 == 0
        &&& info.offset <= info.team_items
        &&& info.team_items + SECTION_SIZE <= info.offset + SAVE_SLOT_SIZE
        &&& (info.team_items - info.offset) % 4096 == 0
        &&& spec_slot_ids_recognized(
            self.data@.subrange(info.offset as int, info.offset + SAVE_SLOT_SIZE),
        )
    }

    /// Loads a save image under the default validation mode (`Basic`).
    pub fn new(bytes: Vec<u8>) -> (r: PkResult<Game>)
        ensures
            r is Ok <==> spec_load_ok(bytes@, Validate::Basic),
            match r {
                Ok(g) => spec_loaded_game(g, bytes@),
                Err(e) => spec_load_error(bytes@, Validate::Basic, e),
            },
    {
        Self::new_with_validation(bytes, Validate::Basic)
    }

    /// Loads a save image: skips the (currently empty) emulator intro,
    /// rejects a buffer below the minimum size, selects the current slot by
    /// save index (slot B on a tie), validates both slots under the
    /// requested mode, resolves the section offsets of both slots, and
    /// decodes version and security key from the current slot's trainer
    /// section.
    pub fn new_with_validation(bytes: Vec<u8>, validation: Validate) -> (r: PkResult<Game>)
        ensures
            r is Ok <==> spec_load_ok(bytes@, validation),
            match r {
                Ok(g) => spec_loaded_game(g, bytes@),
                Err(e) => spec_load_error(bytes@, validation, e),
            },
    {
        let skip = emulator_intro_length(&bytes);
        let n: usize = bytes.len();

        if n - skip < SAVE_FILE_MIN_SIZE {
            return Err(
                PkError::Load(
                    PkErrorLoad::SaveFileTooSmall {
                        expected_size: SAVE_FILE_MIN_SIZE,
                        received_size: n - skip,
                    },
                ),
            );
        }

        let ((current_offset, current_slot), (backup_offset, backup_slot)) = SaveSlot::save_slots(
            &bytes,
        );
        proof {
            assert(current_slot@ == spec_current_slot(bytes@));
            assert(backup_slot@ == spec_backup_slot(bytes@));
            assert(current_offset as int == spec_current_slot_offset(bytes@));
            assert(backup_offset as int == spec_backup_slot_offset(bytes@));
        }

        match current_slot.validate(validation) {
            Ok(()) => {},
            Err(e) => {
                return Err(e);
            },
        }
        match backup_slot.validate(validation) {
            Ok(()) => {},
            Err(e) => {
                return Err(e);
            },
        }

        let sections = match current_slot.to_sections() {
            Ok(s) => s,
            Err(e) => {
                return Err(e);
            },
        };
        let trainer_section = sections.trainer;
        let game_code = trainer_section.game_code();
        let version = GameVersion::from_game_code(game_code);
        let security_key = match trainer_section.security_key() {
            Ok(key) => key,
            // Only Ruby/Sapphire reports no key; it is treated as 0, a no-op.
            Err(_) => 0,
        };

        let current_info = current_slot.to_info(current_offset);
        let backup_info = backup_slot.to_info(backup_offset);

        proof {
            let cur = spec_current_slot(bytes@);
            let trainer_index = spec_slot_last_index_of(cur, TRAINER_SECTION_ID, 14);
            let team_items_index = spec_slot_last_index_of(cur, TEAM_ITEMS_SECTION_ID, 14);
            lemma_last_index_bounds(cur, TRAINER_SECTION_ID, 14);
            lemma_last_index_bounds(cur, TEAM_ITEMS_SECTION_ID, 14);
            assert(0 <= trainer_index < 14 && current_info.trainer == current_info.offset + 4096
                * trainer_index);
            assert(0 <= team_items_index < 14 && current_info.team_items == current_info.offset
                + 4096 * team_items_index);
            lemma_mod_multiples_basic(trainer_index, 4096);
            lemma_mod_multiples_basic(team_items_index, 4096);
            assert((current_info.trainer - current_info.offset) % 4096 == 0);
            assert((current_info.team_items - current_info.offset) % 4096 == 0);
            assert(spec_slot_ids_recognized(
                bytes@.subrange(current_info.offset as int, current_info.offset + SAVE_SLOT_SIZE),
            ));
        }
        let g = Game {
            data: bytes,
            current_save_slot_info: current_info,
            backup_save_slot_info: backup_info,
            version,
            security_key,
        };
        Ok(g)
    }

    /// Nothing further to check beyond what loading already established.
    pub fn validate(&self) -> (r: Result<(), PkError>)
        ensures
            r is Ok,
    {
        Ok(())
    }

    /// A read view of the current slot.
    pub fn save_slot(&self) -> (r: Data<SaveSlot>)
        ensures
            r@ == self@.subrange(
                self.spec_current_info().offset as int,
                self.spec_current_info().offset + SAVE_SLOT_SIZE,
            ),
            r.wf(),
    {
        proof {
            use_type_invariant(self);
        }
        Data::<SaveSlot>::from_offset_with(&self.data, self.current_save_slot_info.offset, SaveSlot)
    }

    /// A read view of the current slot's trainer section.
    pub fn trainer(&self) -> (r: Data<TrainerSection>)
        ensures
            r@ == self@.subrange(
                self.spec_current_info().trainer as int,
                self.spec_current_info().trainer + SECTION_SIZE,
            ),
            r.wf(),
    {
        proof {
            use_type_invariant(self);
        }
        Data::<TrainerSection>::from_offset_with(
            &self.data,
            self.current_save_slot_info.trainer,
            TrainerSection,
        )
    }

    /// A read view of the current slot's team/items section, carrying the
    /// version and security key as interpretation context.
    pub fn team_items(&self) -> (r: Data<TeamItemsSection>)
        ensures
            r@ == self@.subrange(
                self.spec_current_info().team_items as int,
                self.spec_current_info().team_items + SECTION_SIZE,
            ),
            r.wf(),
            r.ctx() == (TeamItemsSection {
                version: self.spec_version(),
                security_key: self.spec_security_key(),
            }),
    {
        proof {
            use_type_invariant(self);
        }
        Data::<TeamItemsSection>::from_offset_with(
            &self.data,
            self.current_save_slot_info.team_items,
            TeamItemsSection { version: self.version, security_key: self.security_key },
        )
    }

    /// The derived game version.
    pub fn version(&self) -> (r: GameVersion)
        ensures
            r == self.spec_version(),
    {
        self.version
    }

    /// The raw buffer, exactly as it would be persisted.
    pub fn data(&self) -> (r: &Vec<u8>)
        ensures
            r@ == self@,
    {
        &self.data
    }
}

// ---------------------------------------------------------------------------
// Mutable views: offset tokens into the buffer the Game owns
// ---------------------------------------------------------------------------

/// A mutable view token: the resolved byte offset of one window inside the
/// buffer a `Game` owns, plus interpretation context. The token never
/// borrows the buffer; mutating methods take the owning game, so at most
/// one mutation is in flight at a time.
#[derive(Debug, Clone, Copy)]
pub struct DataMut<D> {
    start: usize,
    view_context: D,
}

impl<D> DataMut<D> {
    /// Where in the buffer the window starts.
    pub closed spec fn spec_start(&self) -> int {
        self.start as int
    }

    /// The interpretation context this token carries.
    pub closed spec fn ctx(&self) -> D {
        self.view_context
    }
}

impl<D: DataView + Copy> DataMut<D> {
    /// A read snapshot of the window this token points at.
    pub fn as_data(&self, g: &Game) -> (r: Data<D>)
        requires
            self.spec_start() + D::spec_size() <= g@.len(),
        ensures
            r@ == g@.subrange(self.spec_start(), self.spec_start() + D::spec_size()),
            r.ctx() == self.ctx(),
            r.wf(),
    {
        Data::<D>::from_offset_with(g.data(), self.start, self.view_context)
    }
}

impl DataMut<SaveSlot> {
    /// Mutable tokens for all 14 sections of this slot, in physical order.
    pub fn sections_mut(&self) -> (r: Vec<DataMut<Section>>)
        requires
            self.spec_start() + SAVE_SLOT_SIZE <= usize::MAX,
        ensures
            r@.len() == 14,
            forall|i: int|
                0 <= i < 14 ==> (#[trigger] r@[i]).spec_start() == self.spec_start() + 4096 * i,
    {
        let mut out: Vec<DataMut<Section>> = Vec::new();
        let mut i: usize = 0;
        while i < SECTION_COUNT
            invariant
                self.spec_start() + SAVE_SLOT_SIZE <= usize::MAX,
                i <= 14,
                out@.len() == i,
                forall|j: int|
                    0 <= j < i ==> (#[trigger] out@[j]).spec_start() == self.spec_start() + 4096
                        * j,
            decreases 14 - i,
        {
            out.push(DataMut { start: self.start + SECTION_SIZE * i, view_context: Section });
            i = i + 1;
        }
        out
    }
}

impl DataMut<Section> {
    /// Recomputes this section's checksum from its payload and overwrites
    /// the stored checksum field with it; no other byte of the buffer
    /// changes, and the resolved offsets, version and security key of the
    /// game stay as they were.
    pub fn update_checksum(&self, g: &mut Game)
        requires
            ({
                let info = old(g).spec_current_info();
                &&& info.offset <= self.spec_start()
                &&& self.spec_start() + SECTION_SIZE <= info.offset + SAVE_SLOT_SIZE
                &&& (self.spec_start() - info.offset) % 4096 == 0
            }),
        ensures
            final(g)@.len() == old(g)@.len(),
            forall|i: int|
                0 <= i < old(g)@.len() && !(self.spec_start() + CHECKSUM_OFFSET <= i
                    < self.spec_start() + CHECKSUM_OFFSET + 2) ==> final(g)@[i] == old(g)@[i],
            ({
                let w_new = final(g)@.subrange(self.spec_start(), self.spec_start() + SECTION_SIZE);
                spec_sec_stored_checksum(w_new) == spec_sec_computed_checksum(w_new)
            }),
            final(g).spec_current_info() == old(g).spec_current_info(),
            final(g).spec_backup_info() == old(g).spec_backup_info(),
            final(g).spec_version() == old(g).spec_version(),
            final(g).spec_security_key() == old(g).spec_security_key(),
    {
        proof {
            use_type_invariant(&*g);
            let info = g.spec_current_info();
            let off = info.offset as int;
            let m = (self.spec_start() - off) / 4096;
            lemma_fundamental_div_mod(self.spec_start() - off, 4096);
            assert(self.spec_start() == off + 4096 * m);
            assert(0 <= m < 14);
            let cur = g@.subrange(off, off + SAVE_SLOT_SIZE);
            assert(spec_sec_id(spec_slot_section(cur, m)) <= 13);
            assert(spec_slot_section(cur, m) =~= g@.subrange(
                self.spec_start(),
                self.spec_start() + SECTION_SIZE,
            ));
        }
        let section = self.as_data(g);
        let checksum = section.calculate_checksum();
        let mut updated = vstd::slice::slice_to_vec(g.data.as_slice());
        le::write_half_word(&mut updated, self.start + CHECKSUM_OFFSET, checksum);
        proof {
            let s = self.spec_start();
            let w_old = old(g)@.subrange(s, s + SECTION_SIZE);
            let w_new = updated@.subrange(s, s + SECTION_SIZE);
            lemma_sec_fields_ignore_stored_checksum(w_old, w_new);
            assert(spec_sec_stored_checksum(w_new) == spec_sec_computed_checksum(w_new));

            // The write stays clear of every id field, so the slot's ids
            // stay recognized and the game's invariant is preserved.
            let info = old(g).spec_current_info();
            let off = info.offset as int;
            let m = (s - off) / 4096;
            lemma_fundamental_div_mod(s - off, 4096);
            let old_cur = old(g)@.subrange(off, off + SAVE_SLOT_SIZE);
            let new_cur = updated@.subrange(off, off + SAVE_SLOT_SIZE);
            assert forall|k: int| 0 <= k < 14 implies spec_sec_id(
                #[trigger] spec_slot_section(new_cur, k),
            ) <= 13 by {
                let wk_old = spec_slot_section(old_cur, k);
                let wk_new = spec_slot_section(new_cur, k);
                assert(spec_sec_id(wk_old) <= 13);
                if k == m {
                    lemma_sec_fields_ignore_stored_checksum(wk_old, wk_new);
                } else {
                    assert(wk_new =~= wk_old);
                    assert(spec_sec_id(wk_new) == spec_sec_id(wk_old));
                }
            }
        }
        g.data = updated;
    }
}

impl DataMut<TeamItemsSection> {
    /// XORs `value` with the security key this token carries and stores the
    /// result at the version's money offset; reading the money back with
    /// the same context yields exactly `value`. No other byte of the buffer
    /// changes, and the resolved offsets, version and security key of the
    /// game stay as they were.
    pub fn set_money(&self, g: &mut Game, value: u32)
        requires
            self.spec_start() == old(g).spec_current_info().team_items,
            self.ctx().version == old(g).spec_version(),
            self.ctx().security_key == old(g).spec_security_key(),
        ensures
            final(g)@.len() == old(g)@.len(),
            le::spec_word(final(g)@, self.spec_start() + self.ctx().version.spec_money_offset())
                == (self.ctx().security_key ^ value),
            spec_money(
                final(g)@.subrange(self.spec_start(), self.spec_start() + SECTION_SIZE),
                self.ctx(),
            ) == value,
            forall|i: int|
                0 <= i < old(g)@.len() && !(self.spec_start()
                    + self.ctx().version.spec_money_offset() <= i < self.spec_start()
                    + self.ctx().version.spec_money_offset() + 4) ==> final(g)@[i] == old(g)@[i],
            final(g).spec_current_info() == old(g).spec_current_info(),
            final(g).spec_backup_info() == old(g).spec_backup_info(),
            final(g).spec_version() == old(g).spec_version(),
            final(g).spec_security_key() == old(g).spec_security_key(),
    {
        proof {
            use_type_invariant(&*g);
        }
        let offset = self.view_context.version.money_offset();
        let stored = encrypt_word(self.view_context.security_key, value);
        let mut updated = vstd::slice::slice_to_vec(g.data.as_slice());
        le::write_word(&mut updated, self.start + offset, stored);
        proof {
            lemma_encrypt_decrypt_round_trip(self.view_context.security_key, value);
            let s = self.spec_start();
            let mo = self.ctx().version.spec_money_offset();
            assert(le::spec_word(updated@.subrange(s, s + SECTION_SIZE), mo) == le::spec_word(
                updated@,
                s + mo,
            ));

            // The write stays clear of every id field, so the slot's ids
            // stay recognized and the game's invariant is preserved.
            let info = old(g).spec_current_info();
            let off = info.offset as int;
            let m = (s - off) / 4096;
            lemma_fundamental_div_mod(s - off, 4096);
            assert(s == off + 4096 * m);
            assert(0 <= m < 14);
            let old_cur = old(g)@.subrange(off, off + SAVE_SLOT_SIZE);
            let new_cur = updated@.subrange(off, off + SAVE_SLOT_SIZE);
            assert forall|k: int| 0 <= k < 14 implies spec_sec_id(
                #[trigger] spec_slot_section(new_cur, k),
            ) <= 13 by {
                let wk_old = spec_slot_section(old_cur, k);
                let wk_new = spec_slot_section(new_cur, k);
                assert(spec_sec_id(wk_old) <= 13);
                assert(spec_sec_id(wk_new) == spec_sec_id(wk_old));
            }
        }
        g.data = updated;
    }
}

impl Game {
    /// A mutable token for the current slot.
    pub fn save_slot_mut(&self) -> (r: DataMut<SaveSlot>)
        ensures
            r.spec_start() == self.spec_current_info().offset,
            r.spec_start() <= SAVE_SLOT_B_OFFSET as int,
    {
        proof {
            use_type_invariant(self);
        }
        DataMut { start: self.current_save_slot_info.offset, view_context: SaveSlot }
    }

    /// A mutable token for the current slot's team/items section, carrying
    /// the version and security key as interpretation context.
    pub fn team_items_mut(&self) -> (r: DataMut<TeamItemsSection>)
        ensures
            r.spec_start() == self.spec_current_info().team_items,
            r.ctx() == (TeamItemsSection {
                version: self.spec_version(),
                security_key: self.spec_security_key(),
            }),
    {
        DataMut {
            start: self.current_save_slot_info.team_items,
            view_context: TeamItemsSection {
                version: self.version,
                security_key: self.security_key,
            },
        }
    }
}

/// Section `k` of the slot at `slot_off` carries a stored checksum equal to
/// the one freshly computed over its payload.
pub open spec fn spec_slot_section_checksum_fresh(data: Seq<u8>, slot_off: int, k: int) -> bool {
    let w = data.subrange(slot_off + 4096 * k, slot_off + 4096 * k + 4096);
    spec_sec_stored_checksum(w) == spec_sec_computed_checksum(w)
}

/// Byte `p` of the buffer lies in the stored-checksum field of one of the
/// first `n` sections of the slot that starts at `slot_off`.
pub open spec fn spec_is_checksum_byte_of_first(slot_off: int, n: int, p: int) -> bool {
    &&& slot_off <= p < slot_off + 4096 * n
    &&& CHECKSUM_OFFSET <= (p - slot_off) % 4096 < CHECKSUM_OFFSET + 2
}

/// Byte `p` of the buffer lies in the stored-checksum field of one of the
/// 14 sections of the slot that starts at `slot_off`.
pub open spec fn spec_is_slot_checksum_byte(slot_off: int, p: int) -> bool {
    spec_is_checksum_byte_of_first(slot_off, 14, p)
}

impl Game {
    /// Recomputes and stores the checksum of every section of the current
    /// slot; run before persisting any payload edit, or stored checksums go
    /// stale relative to the edited bytes. Only the stored-checksum fields
    /// of the current slot change, and afterwards every section of the
    /// current slot carries the checksum freshly computed over its payload.
    pub fn update_checksum(&mut self)
        ensures
            final(self)@.len() == old(self)@.len(),
            forall|p: int|
                0 <= p < old(self)@.len() && !spec_is_slot_checksum_byte(
                    old(self).spec_current_info().offset as int,
                    p,
                ) ==> final(self)@[p] == old(self)@[p],
            forall|k: int|
                0 <= k < 14 ==> spec_slot_section_checksum_fresh(
                    final(self)@,
                    old(self).spec_current_info().offset as int,
                    k,
                ),
            final(self).spec_current_info() == old(self).spec_current_info(),
            final(self).spec_backup_info() == old(self).spec_backup_info(),
            final(self).spec_version() == old(self).spec_version(),
            final(self).spec_security_key() == old(self).spec_security_key(),
    {
        proof {
            use_type_invariant(&*self);
        }
        let ghost data0 = self@;
        let ghost info0 = self.spec_current_info();
        let ghost backup0 = self.spec_backup_info();
        let ghost version0 = self.spec_version();
        let ghost key0 = self.spec_security_key();

        let slot = self.save_slot_mut();
        let sections = slot.sections_mut();

        let mut i: usize = 0;
        while i < SECTION_COUNT
            invariant
                i <= 14,
                sections@.len() == 14,
                forall|j: int|
                    0 <= j < 14 ==> (#[trigger] sections@[j]).spec_start() == info0.offset + 4096
                        * j,
                self.spec_current_info() == info0,
                self.spec_backup_info() == backup0,
                self.spec_version() == version0,
                self.spec_security_key() == key0,
                self@.len() == data0.len(),
                info0.offset + SAVE_SLOT_SIZE <= data0.len(),
                forall|p: int|
                    0 <= p < data0.len() && !spec_is_checksum_byte_of_first(
                        info0.offset as int,
                        i as int,
                        p,
                    ) ==> self@[p] == data0[p],
                forall|k: int|
                    0 <= k < i ==> spec_slot_section_checksum_fresh(
                        self@,
                        info0.offset as int,
                        k,
                    ),
            decreases 14 - i,
        {
            let tok = sections[i];
            proof {
                lemma_mod_multiples_basic(i as int, 4096);
                assert((tok.spec_start() - info0.offset) % 4096 == 0);
            }
            let ghost before = self@;
            tok.update_checksum(self);
            proof {
                let off = info0.offset as int;
                let s = off + 4096 * (i as int);
                lemma_mod_multiples_vanish(i as int, CHECKSUM_OFFSET as int, 4096);
                lemma_small_mod(CHECKSUM_OFFSET as nat, 4096);
                lemma_mod_multiples_vanish(i as int, CHECKSUM_OFFSET + 1, 4096);
                lemma_small_mod((CHECKSUM_OFFSET + 1) as nat, 4096);

                // frame: everything outside the checksum bytes of the first
                // i + 1 sections still matches the starting buffer
                assert forall|p: int|
                    0 <= p < data0.len() && !spec_is_checksum_byte_of_first(
                        off,
                        i + 1,
                        p,
                    ) implies self@[p] == data0[p] by {
                    if s + CHECKSUM_OFFSET <= p < s + CHECKSUM_OFFSET + 2 {
                        assert(((p - off) % 4096) == CHECKSUM_OFFSET + (p - s)) by {
                            lemma_mod_multiples_vanish(i as int, p - s + CHECKSUM_OFFSET, 4096);
                            lemma_small_mod((p - s + CHECKSUM_OFFSET) as nat, 4096);
                        }
                        assert(spec_is_checksum_byte_of_first(off, i + 1, p));
                    } else {
                        assert(self@[p] == before[p]);
                        assert(!spec_is_checksum_byte_of_first(off, i as int, p));
                        assert(before[p] == data0[p]);
                    }
                }

                // sections already processed keep their fresh checksums: the
                // write stayed outside their windows
                assert forall|k: int|
                    0 <= k < i + 1 implies spec_slot_section_checksum_fresh(
                    self@,
                    off,
                    k,
                ) by {
                    let w = self@.subrange(off + 4096 * k, off + 4096 * k + 4096);
                    if k < i {
                        let w_before = before.subrange(off + 4096 * k, off + 4096 * k + 4096);
                        assert(w =~= w_before);
                        assert(spec_slot_section_checksum_fresh(before, off, k));
                    } else {
                        assert(w == self@.subrange(s, s + SECTION_SIZE));
                    }
                }
            }
            i = i + 1;
        }
    }
}

// ---------------------------------------------------------------------------
// Laws
// ---------------------------------------------------------------------------

/// Law: a team/items window that stores `value` XOR-ed with a security key
/// reads back exactly `value` under the same key, for every value and every
/// key: the obfuscation is its own inverse.
pub proof fn lemma_money_round_trip(sec: Seq<u8>, ctx: TeamItemsSection, value: u32)
    requires
        le::spec_word(sec, ctx.version.spec_money_offset()) == ctx.security_key ^ value,
    ensures
        spec_money(sec, ctx) == value,
{
    lemma_encrypt_decrypt_round_trip(ctx.security_key, value);
}

/// Law: recomputing the stored checksums of a slot whose sections carry a
/// consistent save index, recognized ids and the magic signature makes the
/// whole slot pass validation, while its save index, ids and signatures
/// stay what they were.
pub proof fn lemma_checksum_update_revalidates_slot(old_slot: Seq<u8>, new_slot: Seq<u8>)
    requires
        old_slot.len() == SAVE_SLOT_SIZE,
        new_slot.len() == SAVE_SLOT_SIZE,
        forall|q: int|
            0 <= q < SAVE_SLOT_SIZE && !(CHECKSUM_OFFSET <= (q % 4096) < CHECKSUM_OFFSET + 2)
                ==> #[trigger] new_slot[q] == old_slot[q],
        forall|k: int| 0 <= k < 14 ==> spec_slot_section_checksum_fresh(new_slot, 0, k),
        forall|k: int|
            0 <= k < 14 ==> spec_sec_save_index(#[trigger] spec_slot_section(old_slot, k))
                == spec_slot_save_index(old_slot),
        forall|k: int| 0 <= k < 14 ==> spec_sec_id(#[trigger] spec_slot_section(old_slot, k)) <= 13,
        forall|k: int|
            0 <= k < 14 ==> spec_sec_signature(#[trigger] spec_slot_section(old_slot, k))
                == MAGIC_SIGNATURE,
    ensures
        spec_slot_ok(new_slot),
        spec_slot_save_index(new_slot) == spec_slot_save_index(old_slot),
        forall|k: int|
            0 <= k < 14 ==> spec_sec_id(#[trigger] spec_slot_section(new_slot, k)) == spec_sec_id(
                spec_slot_section(old_slot, k),
            ),
        forall|k: int|
            0 <= k < 14 ==> spec_sec_save_index(#[trigger] spec_slot_section(new_slot, k))
                == spec_sec_save_index(spec_slot_section(old_slot, k)),
        forall|k: int|
            0 <= k < 14 ==> spec_sec_signature(#[trigger] spec_slot_section(new_slot, k))
                == spec_sec_signature(spec_slot_section(old_slot, k)),
{
    assert forall|k: int| 0 <= k < 14 implies {
        &&& spec_sec_id(#[trigger] spec_slot_section(new_slot, k)) == spec_sec_id(
            spec_slot_section(old_slot, k),
        )
        &&& spec_sec_save_index(spec_slot_section(new_slot, k)) == spec_sec_save_index(
            spec_slot_section(old_slot, k),
        )
        &&& spec_sec_signature(spec_slot_section(new_slot, k)) == spec_sec_signature(
            spec_slot_section(old_slot, k),
        )
        &&& spec_sec_computed_checksum(spec_slot_section(new_slot, k))
            == spec_sec_computed_checksum(spec_slot_section(old_slot, k))
    } by {
        let w_old = spec_slot_section(old_slot, k);
        let w_new = spec_slot_section(new_slot, k);
        assert forall|j: int|
            0 <= j < SECTION_SIZE && !(CHECKSUM_OFFSET <= j < CHECKSUM_OFFSET + 2) implies w_old[j]
            == w_new[j] by {
            lemma_mod_multiples_vanish(k, j, 4096);
            lemma_small_mod(j as nat, 4096);
            assert(((4096 * k + j) % 4096) == j);
            assert(new_slot[4096 * k + j] == old_slot[4096 * k + j]);
        }
        lemma_sec_fields_ignore_stored_checksum(w_old, w_new);
    }

    assert(spec_slot_save_index(new_slot) == spec_slot_save_index(old_slot));

    assert forall|k: int| 0 <= k < 14 implies spec_slot_section_error(new_slot, k) is None by {
        let w_new = spec_slot_section(new_slot, k);
        assert(spec_slot_section_checksum_fresh(new_slot, 0, k));
        assert(w_new =~= new_slot.subrange(4096 * k, 4096 * k + 4096));
        assert(spec_sec_stored_checksum(w_new) == spec_sec_computed_checksum(w_new));
        assert(spec_sec_signature(w_new) == MAGIC_SIGNATURE);
        assert(spec_sec_save_index(w_new) == spec_slot_save_index(new_slot));
        assert(spec_sec_id(w_new) <= 13);
    }
}

/// Law: recompute the current slot's checksums on a loaded buffer whose
/// current slot validated, and the buffer reloads identically: both slots
/// keep their save indices, the same slot is selected as current, it passes
/// validation again, and every byte outside the rewritten stored-checksum
/// fields — in particular every decoded trainer and team/items field — is
/// unchanged.
pub proof fn lemma_update_checksum_round_trip(old_data: Seq<u8>, new_data: Seq<u8>)
    requires
        old_data.len() >= SAVE_FILE_MIN_SIZE,
        new_data.len() == old_data.len(),
        forall|p: int|
            0 <= p < old_data.len() && !spec_is_slot_checksum_byte(
                spec_current_slot_offset(old_data),
                p,
            ) ==> #[trigger] new_data[p] == old_data[p],
        forall|k: int|
            0 <= k < 14 ==> spec_slot_section_checksum_fresh(
                new_data,
                spec_current_slot_offset(old_data),
                k,
            ),
        spec_slot_ok(spec_current_slot(old_data)),
    ensures
        spec_slot_save_index(spec_slot_a(new_data)) == spec_slot_save_index(spec_slot_a(old_data)),
        spec_slot_save_index(spec_slot_b(new_data)) == spec_slot_save_index(spec_slot_b(old_data)),
        spec_current_slot_offset(new_data) == spec_current_slot_offset(old_data),
        spec_slot_ok(spec_current_slot(new_data)),
{
    let off = spec_current_slot_offset(old_data);
    let old_slot = old_data.subrange(off, off + SAVE_SLOT_SIZE);
    let new_slot = new_data.subrange(off, off + SAVE_SLOT_SIZE);
    assert(old_slot == spec_current_slot(old_data));

    // Bridge the buffer-level frame to the slot windows.
    assert forall|q: int|
        0 <= q < SAVE_SLOT_SIZE && !(CHECKSUM_OFFSET <= (q % 4096) < CHECKSUM_OFFSET + 2) implies (
    #[trigger] new_slot[q]) == old_slot[q] by {
        assert(((off + q) - off) % 4096 == q % 4096);
        assert(!spec_is_slot_checksum_byte(off, off + q));
        assert(new_data[off + q] == old_data[off + q]);
    }
    assert forall|k: int| 0 <= k < 14 implies spec_slot_section_checksum_fresh(
        new_slot,
        0,
        k,
    ) by {
        assert(spec_slot_section_checksum_fresh(new_data, off, k));
        assert(new_slot.subrange(4096 * k, 4096 * k + 4096) =~= new_data.subrange(
            off + 4096 * k,
            off + 4096 * k + 4096,
        ));
    }

    // A validated slot has consistent save indices, recognized ids and the
    // magic signature in every section.
    assert forall|k: int| 0 <= k < 14 implies {
        &&& spec_sec_save_index(#[trigger] spec_slot_section(old_slot, k)) == spec_slot_save_index(
            old_slot,
        )
        &&& spec_sec_id(spec_slot_section(old_slot, k)) <= 13
        &&& spec_sec_signature(spec_slot_section(old_slot, k)) == MAGIC_SIGNATURE
    } by {
        assert(spec_slot_section_error(old_slot, k) is None);
    }

    lemma_checksum_update_revalidates_slot(old_slot, new_slot);

    // The save-index words of both slots lie outside every stored-checksum
    // field, so both slots keep their indices and the selection is stable.
    let a_index_off = SAVE_SLOT_A_OFFSET + SAVE_INDEX_OFFSET as int;
    let b_index_off = SAVE_SLOT_B_OFFSET + SAVE_INDEX_OFFSET as int;
    assert forall|p: int| SAVE_INDEX_OFFSET <= (p - off) % 4096 < SAVE_INDEX_OFFSET + 4 && 0 <= p
        < old_data.len() implies (#[trigger] new_data[p]) == old_data[p] by {
        assert(!spec_is_slot_checksum_byte(off, p));
    }
    assert forall|j: int| 0 <= j < 4 implies (#[trigger] new_data[a_index_off + j])
        == old_data[a_index_off + j] by {
        if off == SAVE_SLOT_A_OFFSET as int {
            lemma_small_mod((SAVE_INDEX_OFFSET + j) as nat, 4096);
        } else {
            assert(!spec_is_slot_checksum_byte(off, a_index_off + j));
        }
        assert(new_data[a_index_off + j] == old_data[a_index_off + j]);
    }
    assert forall|j: int| 0 <= j < 4 implies (#[trigger] new_data[b_index_off + j])
        == old_data[b_index_off + j] by {
        if off == SAVE_SLOT_B_OFFSET as int {
            lemma_small_mod((SAVE_INDEX_OFFSET + j) as nat, 4096);
        } else {
            assert(!spec_is_slot_checksum_byte(off, b_index_off + j));
        }
        assert(new_data[b_index_off + j] == old_data[b_index_off + j]);
    }
    assert(spec_slot_save_index(spec_slot_a(new_data)) == spec_slot_save_index(
        spec_slot_a(old_data),
    ));
    assert(spec_slot_save_index(spec_slot_b(new_data)) == spec_slot_save_index(
        spec_slot_b(old_data),
    ));
    assert(spec_current_slot_offset(new_data) == off);
    assert(spec_current_slot(new_data) =~= new_slot);
}

} // verus!
