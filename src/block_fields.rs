use vstd::prelude::*;

verus! {

/// A block header field that processing may change.
#[derive(Debug, Clone, Copy, PartialEq, Eq, Structural)]
pub enum BlockField {
    Version,
    PrevBlockHash,
    MerkleRoot,
    Timestamp,
    Bits,
    Nonce,
    All,
}

/// Which header fields to change, and how.
#[derive(Debug, Clone)]
pub struct ProcessingConfig {
    pub fields_to_modify: Vec<BlockField>,
    pub version_override: Option<i32>,
    /// Seconds added to the timestamp; without it the timestamp becomes one
    /// year past the current time.
    pub timestamp_offset: Option<i64>,
    /// Fresh random hashes when set, all-zero hashes otherwise.
    pub randomize_hashes: bool,
}

impl Default for ProcessingConfig {
    fn default() -> (r: Self)
        ensures
            r.fields_to_modify@ == seq![BlockField::All],
            r.version_override is None,
            r.timestamp_offset is None,
            r.randomize_hashes,
    {
        let fields = vec![BlockField::All];
        ProcessingConfig {
            fields_to_modify: fields,
            version_override: None,
            timestamp_offset: None,
            randomize_hashes: true,
        }
    }
}

/// The fields of a block header, as plain values.
#[derive(Debug, Clone, Copy, PartialEq, Eq)]
pub struct HeaderFields {
    pub version: i32,
    pub prev_blockhash: [u8; 32],
    pub merkle_root: [u8; 32],
    pub time: u32,
    pub bits: u32,
    pub nonce: u32,
}

/// The version that processing leaves when no override is configured.
pub const DEFAULT_VERSION: i32 = 0x3FFFFFFF;

/// One year in seconds.
pub const ONE_YEAR: u32 = 31_536_000;

/// Changes the fields of block headers as a configuration says.
pub struct BlockProcessor {
    config: ProcessingConfig,
}

pub open spec fn selects(fields: Seq<BlockField>, f: BlockField) -> bool {
    fields.contains(BlockField::All) || fields.contains(f)
}

pub open spec fn processed_version(c: ProcessingConfig) -> i32 {
    match c.version_override {
        Some(v) => v,
        None => DEFAULT_VERSION,
    }
}

pub open spec fn processed_hash(c: ProcessingConfig, fresh: [u8; 32]) -> Seq<u8> {
    if c.randomize_hashes {
        fresh@
    } else {
        Seq::new(32, |i: int| 0u8)
    }
}

/// The timestamp after processing: shifted by the offset (negative results
/// become zero, and the sum is taken modulo 2^32), or one year past `now`,
/// saturating.
pub open spec fn processed_time(c: ProcessingConfig, time: u32, now: u32) -> u32 {
    match c.timestamp_offset {
        Some(off) => {
            let t = time + off;
            if t < 0 {
                0
            } else {
                (t % 0x1_0000_0000) as u32
            }
        },
        None => if now + ONE_YEAR > u32::MAX {
            u32::MAX
        } else {
            (now + ONE_YEAR) as u32
        },
    }
}

pub open spec fn processed_bits(bits: u32) -> u32 {
    bits ^ 0x00FF_FFFF
}

pub open spec fn processed_nonce(nonce: u32) -> u32 {
    !nonce
}

/// Every field of `r` is the processed value of the field in `h` where the
/// configuration selects it, and the field of `h` otherwise; the hashes that
/// randomizing would draw are `fresh_prev` and `fresh_merkle`.
pub open spec fn processed_header(
    c: ProcessingConfig,
    h: HeaderFields,
    now: u32,
    fresh_prev: [u8; 32],
    fresh_merkle: [u8; 32],
    r: HeaderFields,
) -> bool {
    let f = c.fields_to_modify@;
    &&& r.version == if selects(f, BlockField::Version) {
        processed_version(c)
    } else {
        h.version
    }
    &&& r.prev_blockhash@ == if selects(f, BlockField::PrevBlockHash) {
        processed_hash(c, fresh_prev)
    } else {
        h.prev_blockhash@
    }
    &&& r.merkle_root@ == if selects(f, BlockField::MerkleRoot) {
        processed_hash(c, fresh_merkle)
    } else {
        h.merkle_root@
    }
    &&& r.time == if selects(f, BlockField::Timestamp) {
        processed_time(c, h.time, now)
    } else {
        h.time
    }
    &&& r.bits == if selects(f, BlockField::Bits) {
        processed_bits(h.bits)
    } else {
        h.bits
    }
    &&& r.nonce == if selects(f, BlockField::Nonce) {
        processed_nonce(h.nonce)
    } else {
        h.nonce
    }
}

/// Relies on rand::random: 32 bytes from the thread-local generator. Nothing
/// is known of their values.
#[verifier::external_body]
fn random_hash() -> (r: [u8; 32]) {
    rand::random::<[u8; 32]>()
}

fn contains_field(fields: &Vec<BlockField>, f: BlockField) -> (r: bool)
    ensures
        r == fields@.contains(f),
{
    let mut k: usize = 0;
    while k < fields.len()
        invariant
            k <= fields@.len(),
            forall|j: int| 0 <= j < k ==> fields@[j] != f,
        decreases fields@.len() - k,
    {
        if fields[k] == f {
            return true;
        }
        k = k + 1;
    }
    false
}

impl BlockProcessor {
    pub closed spec fn config_spec(&self) -> ProcessingConfig {
        self.config
    }

    pub fn new(config: ProcessingConfig) -> (r: Self)
        ensures
            r.config_spec() == config,
    {
        Self { config }
    }

    pub fn with_default_config() -> (r: Self)
        ensures
            r.config_spec().fields_to_modify@ == seq![BlockField::All],
            r.config_spec().version_override is None,
            r.config_spec().timestamp_offset is None,
            r.config_spec().randomize_hashes,
    {
        Self { config: ProcessingConfig::default() }
    }

    /// Whether the configuration selects `field`, directly or through `All`.
    pub fn should_process_field(&self, field: &BlockField) -> (r: bool)
        ensures
            r == selects(self.config_spec().fields_to_modify@, *field),
    {
        contains_field(&self.config.fields_to_modify, BlockField::All) || contains_field(
            &self.config.fields_to_modify,
            *field,
        )
    }

    pub fn process_version(&self, version: i32) -> (r: i32)
        ensures
            r == processed_version(self.config_spec()),
    {
        match self.config.version_override {
            Some(v) => v,
            None => DEFAULT_VERSION,
        }
    }

    fn process_hash(&self, fresh: [u8; 32]) -> (r: [u8; 32])
        ensures
            r@ == processed_hash(self.config_spec(), fresh),
    {
        if self.config.randomize_hashes {
            fresh
        } else {
            let z = [0u8; 32];
            assert(z@ =~= Seq::new(32, |i: int| 0u8));
            z
        }
    }

    /// The new timestamp; `now` is the current time in seconds since the
    /// epoch, used when no offset is configured.
    pub fn process_timestamp(&self, timestamp: u32, now: u32) -> (r: u32)
        ensures
            r == processed_time(self.config_spec(), timestamp, now),
    {
        match self.config.timestamp_offset {
            Some(off) => {
                let t: i128 = timestamp as i128 + off as i128;
                if t < 0 {
                    0
                } else {
                    (t % 0x1_0000_0000) as u32
                }
            },
            None => now.saturating_add(ONE_YEAR),
        }
    }

    pub fn process_bits(&self, bits: u32) -> (r: u32)
        ensures
            r == processed_bits(bits),
    {
        bits ^ 0x00FF_FFFF
    }

    pub fn process_nonce(&self, nonce: u32) -> (r: u32)
        ensures
            r == processed_nonce(nonce),
    {
        !nonce
    }

    /// Processes a header given the hashes that randomizing uses.
    pub fn process_header_with(
        &self,
        header: &HeaderFields,
        now: u32,
        fresh_prev: [u8; 32],
        fresh_merkle: [u8; 32],
    ) -> (r: HeaderFields)
        ensures
            processed_header(self.config_spec(), *header, now, fresh_prev, fresh_merkle, r),
    {
        let mut h = *header;
        if self.should_process_field(&BlockField::Version) {
            h.version = self.process_version(header.version);
        }
        if self.should_process_field(&BlockField::PrevBlockHash) {
            h.prev_blockhash = self.process_hash(fresh_prev);
        }
        if self.should_process_field(&BlockField::MerkleRoot) {
            h.merkle_root = self.process_hash(fresh_merkle);
        }
        if self.should_process_field(&BlockField::Timestamp) {
            h.time = self.process_timestamp(header.time, now);
        }
        if self.should_process_field(&BlockField::Bits) {
            h.bits = self.process_bits(header.bits);
        }
        if self.should_process_field(&BlockField::Nonce) {
            h.nonce = self.process_nonce(header.nonce);
        }
        h
    }

    /// Processes a header, drawing fresh random hashes where the
    /// configuration asks for them.
    pub fn process_block_header(&self, header: &HeaderFields, now: u32) -> (r: HeaderFields)
        ensures
            exists|p: [u8; 32], m: [u8; 32]| processed_header(self.config_spec(), *header, now, p, m, r),
    {
        let (p, m) = if self.config.randomize_hashes {
            (random_hash(), random_hash())
        } else {
            ([0u8; 32], [0u8; 32])
        };
        self.process_header_with(header, now, p, m)
    }
}

/// The default configuration with another choice of fields.
pub open spec fn default_with_fields(fields: Vec<BlockField>) -> ProcessingConfig {
    ProcessingConfig {
        fields_to_modify: fields,
        version_override: None,
        timestamp_offset: None,
        randomize_hashes: true,
    }
}

/// Shortcuts for common processing configurations. A block's header goes in
/// as plain fields; its transactions are left as they are.
pub struct BlockBreaker;

impl BlockBreaker {
    /// Changes every field with the default configuration.
    pub fn break_all_fields(header: &HeaderFields, now: u32) -> (r: HeaderFields)
        ensures
            r.version == DEFAULT_VERSION,
            r.time == (if now + ONE_YEAR > u32::MAX {
                u32::MAX
            } else {
                (now + ONE_YEAR) as u32
            }),
            r.bits == processed_bits(header.bits),
            r.nonce == processed_nonce(header.nonce),
    {
        let processor = BlockProcessor::with_default_config();
        let r = processor.process_block_header(header, now);
        assert(processor.config_spec().fields_to_modify@[0] == BlockField::All);
        r
    }

    /// Changes only the given fields, otherwise as the default configuration.
    pub fn break_specific_fields(header: &HeaderFields, fields: Vec<BlockField>, now: u32) -> (r: HeaderFields)
        ensures
            exists|p: [u8; 32], m: [u8; 32]|
                processed_header(default_with_fields(fields), *header, now, p, m, r),
    {
        let config = ProcessingConfig {
            fields_to_modify: fields,
            version_override: None,
            timestamp_offset: None,
            randomize_hashes: true,
        };
        let processor = BlockProcessor::new(config);
        processor.process_block_header(header, now)
    }

    /// Changes fields as `config` says.
    pub fn break_with_config(header: &HeaderFields, config: ProcessingConfig, now: u32) -> (r: HeaderFields)
        ensures
            exists|p: [u8; 32], m: [u8; 32]| processed_header(config, *header, now, p, m, r),
    {
        let processor = BlockProcessor::new(config);
        processor.process_block_header(header, now)
    }

    /// Changes only the given header fields; the header of a block that holds
    /// no transactions.
    pub fn break_header_fields(header: &HeaderFields, fields: Vec<BlockField>, now: u32) -> (r: HeaderFields)
        ensures
            exists|p: [u8; 32], m: [u8; 32]|
                processed_header(default_with_fields(fields), *header, now, p, m, r),
    {
        Self::break_specific_fields(header, fields, now)
    }
}

} // verus!
