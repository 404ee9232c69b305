//! Chunk columns as the server keeps them: sixteen sections of 16 × 16 × 16
//! blocks, each block an id and a 4-bit metadata nibble, with the
//! serialisation that the 1.8 protocol's `ChunkData` packet carries.
use vstd::prelude::*;
use crate::world::{append_decimal_digits, decimal, ChunkKey};

verus! {

broadcast use vstd::array::group_array_axioms;

/// The metadata nibble of block `idx` in a section's packed `data`: the high
/// nibble of byte `idx / 2` for an even index, the low one for an odd index.
pub open spec fn nibble(data: Seq<u8>, idx: int) -> u8 {
    if idx % 2 == 0 {
        (data[idx / 2] / 16) as u8
    } else {
        (data[idx / 2] % 16) as u8
    }
}

/// Byte `old` of the packed metadata with the nibble of block `idx` set to
/// `meta` and the other nibble kept.
pub open spec fn with_nibble(old: u8, idx: int, meta: u8) -> u8 {
    if idx % 2 == 0 {
        (old % 16 + meta * 16) as u8
    } else {
        ((old / 16) * 16 + meta) as u8
    }
}

/// The index of block `(x, y, z)` inside its section.
pub open spec fn block_index(x: u8, y: u8, z: u8) -> int {
    (y % 16) * 256 + z * 16 + x
}

/// The section that holds height `y`.
pub open spec fn section_index(y: u8) -> int {
    y as int / 16
}

/// Sixteen layers of blocks: ids, packed metadata nibbles and light.
#[derive(Debug, Clone, Copy)]
pub struct Section {
    pub y: i8,
    pub blocks: [u8; 4096],
    pub data: [u8; 2048],
    pub sky_light: [u8; 2048],
    pub block_light: [u8; 2048],
}

/// Every byte of `s` is zero.
pub open spec fn all_zero(s: Seq<u8>) -> bool {
    forall|i: int| 0 <= i < s.len() ==> s[i] == 0
}

impl Section {
    /// No block of the section has a non-zero id.
    pub open spec fn spec_is_empty(&self) -> bool {
        all_zero(self.blocks@)
    }

    /// Whether every block of the section is air (id 0).
    pub fn is_empty(&self) -> (r: bool)
        ensures
            r == self.spec_is_empty(),
    {
        let mut i: usize = 0;
        while i < 4096
            invariant
                i <= 4096,
                forall|j: int| 0 <= j < i ==> self.blocks@[j] == 0,
            decreases 4096 - i,
        {
            if self.blocks[i] != 0 {
                return false;
            }
            i = i + 1;
        }
        true
    }
}

impl Default for Section {
    /// A section at height 0 with every byte zero.
    fn default() -> (s: Self)
        ensures
            s.y == 0,
            all_zero(s.blocks@),
            all_zero(s.data@),
            all_zero(s.sky_light@),
            all_zero(s.block_light@),
    {
        Section {
            y: 0,
            blocks: [0u8; 4096],
            data: [0u8; 2048],
            sky_light: [0u8; 2048],
            block_light: [0u8; 2048],
        }
    }
}

/// A chunk column: its coordinates, sixteen sections from the bottom up and
/// one biome byte per column of blocks.
#[derive(Debug, Clone)]
pub struct Chunk {
    pub x: i32,
    pub z: i32,
    pub sections: [Section; 16],
    pub biomes: [u8; 256],
    pub terrain_populated: bool,
}

impl Chunk {
    /// The block at `(x, y, z)`: its id and its metadata nibble.
    pub open spec fn spec_block(&self, x: u8, y: u8, z: u8) -> (u8, u8) {
        let s = self.sections@[section_index(y)];
        let idx = block_index(x, y, z);
        (s.blocks@[idx], nibble(s.data@, idx))
    }

    /// `after` is `before` with block `(x, y, z)` set to `(id, meta)`: the id
    /// written, the nibble written and its neighbour kept, nothing else moved.
    pub open spec fn is_block_set(before: Chunk, after: Chunk, x: u8, y: u8, z: u8, id: u8, meta: u8) -> bool {
        let si = section_index(y);
        let idx = block_index(x, y, z);
        let old_s = before.sections@[si];
        let new_s = after.sections@[si];
        &&& after.x == before.x
        &&& after.z == before.z
        &&& after.biomes == before.biomes
        &&& after.terrain_populated == before.terrain_populated
        &&& forall|t: int| 0 <= t < 16 && t != si ==> after.sections@[t] == before.sections@[t]
        &&& new_s.y == old_s.y
        &&& new_s.sky_light == old_s.sky_light
        &&& new_s.block_light == old_s.block_light
        &&& new_s.blocks@ == old_s.blocks@.update(idx, id)
        &&& new_s.data@ == old_s.data@.update(idx / 2, with_nibble(old_s.data@[idx / 2], idx, meta))
    }

    /// `c` is the empty chunk at `key`'s coordinates: every section the
    /// default one, every biome 0, terrain not populated.
    pub open spec fn is_empty_chunk_at(c: Chunk, key: ChunkKey) -> bool {
        &&& c.x == key.spec_x()
        &&& c.z == key.spec_z()
        &&& !c.terrain_populated
        &&& all_zero(c.biomes@)
        &&& forall|t: int| 0 <= t < 16 ==> section_is_default(#[trigger] c.sections@[t])
    }

    /// An empty chunk (every section air, every biome 0) at the key's
    /// coordinates.
    pub fn generate_empty(key: ChunkKey) -> (c: Chunk)
        ensures
            Chunk::is_empty_chunk_at(c, key),
    {
        let empty = Section::default();
        Chunk {
            x: key.x(),
            z: key.z(),
            sections: [empty; 16],
            biomes: [0u8; 256],
            terrain_populated: false,
        }
    }

    /// No section of the chunk holds a block other than air.
    pub open spec fn spec_is_empty(&self) -> bool {
        forall|t: int| 0 <= t < 16 ==> (#[trigger] self.sections@[t]).spec_is_empty()
    }

    /// Whether every section of the chunk is air.
    pub fn is_empty(&self) -> (r: bool)
        ensures
            r == self.spec_is_empty(),
    {
        let mut t: usize = 0;
        while t < 16
            invariant
                t <= 16,
                forall|u: int| 0 <= u < t ==> (#[trigger] self.sections@[u]).spec_is_empty(),
            decreases 16 - t,
        {
            if !self.sections[t].is_empty() {
                return false;
            }
            t = t + 1;
        }
        true
    }

    /// The block at `(x, y, z)` (with `x` and `z` in `0..16`): its id and
    /// its metadata.
    pub fn get_block(&self, x: u8, y: u8, z: u8) -> (r: (u8, u8))
        requires
            x < 16,
            z < 16,
        ensures
            r == self.spec_block(x, y, z),
    {
        let section_idx: usize = (y / 16) as usize;
        let local_y: u8 = y % 16;
        let block_idx: usize = (local_y as usize) * 256 + (z as usize) * 16 + (x as usize);
        let section = &self.sections[section_idx];
        let block_id: u8 = section.blocks[block_idx];
        let meta_byte: u8 = section.data[block_idx / 2];
        let metadata: u8 = if block_idx % 2 == 0 {
            meta_byte / 16
        } else {
            meta_byte % 16
        };
        (block_id, metadata)
    }

    /// Sets the block at `(x, y, z)` (with `x` and `z` in `0..16`) to id
    /// `block_id` and metadata `metadata` (in `0..16`).
    pub fn set_block(&mut self, x: u8, y: u8, z: u8, block_id: u8, metadata: u8)
        requires
            x < 16,
            z < 16,
            metadata < 16,
        ensures
            Chunk::is_block_set(*old(self), *final(self), x, y, z, block_id, metadata),
    {
        let section_idx: usize = (y / 16) as usize;
        let local_y: u8 = y % 16;
        let block_idx: usize = (local_y as usize) * 256 + (z as usize) * 16 + (x as usize);
        let mut section: Section = self.sections[section_idx];
        section.blocks[block_idx] = block_id;
        let meta_idx: usize = block_idx / 2;
        let old_byte: u8 = section.data[meta_idx];
        if block_idx % 2 == 0 {
            section.data[meta_idx] = old_byte % 16 + metadata * 16;
        } else {
            section.data[meta_idx] = (old_byte / 16) * 16 + metadata;
        }
        self.sections[section_idx] = section;
    }
}

/// Setting a block and reading it back gives what was written, and every
/// other block reads as before.
pub proof fn law_get_after_set(
    before: Chunk,
    after: Chunk,
    x: u8,
    y: u8,
    z: u8,
    id: u8,
    meta: u8,
    x2: u8,
    y2: u8,
    z2: u8,
)
    requires
        x < 16,
        z < 16,
        meta < 16,
        x2 < 16,
        z2 < 16,
        Chunk::is_block_set(before, after, x, y, z, id, meta),
    ensures
        after.spec_block(x, y, z) == (id, meta),
        (x2, y2, z2) != (x, y, z) ==> after.spec_block(x2, y2, z2) == before.spec_block(x2, y2, z2),
{
    let idx = block_index(x, y, z);
    let si = section_index(y);
    let old_s = before.sections@[si];
    let b = old_s.data@[idx / 2];
    assert(0 <= idx < 4096);
    assert(nibble(after.sections@[si].data@, idx) == meta) by {
        if idx % 2 == 0 {
            assert((b % 16 + meta * 16) / 16 == meta);
        } else {
            assert(((b / 16) * 16 + meta) % 16 == meta);
        }
    }
    if (x2, y2, z2) != (x, y, z) {
        let idx2 = block_index(x2, y2, z2);
        let si2 = section_index(y2);
        assert(0 <= idx2 < 4096);
        if si2 == si {
            assert(idx2 != idx);
            if idx2 / 2 == idx / 2 {
                let nb = with_nibble(b, idx, meta);
                if idx % 2 == 0 {
                    assert(idx2 % 2 == 1);
                    assert(nb % 16 == b % 16);
                } else {
                    assert(idx2 % 2 == 0);
                    assert(nb / 16 == b / 16);
                }
            }
        }
    }
}

/// `2^n`.
pub open spec fn two_to(n: nat) -> nat
    decreases n,
{
    if n == 0 {
        1
    } else {
        2 * two_to((n - 1) as nat)
    }
}

/// The bitmask with bit `t` set for each of the first `n` flags that holds.
pub open spec fn mask_of(flags: Seq<bool>, n: nat) -> nat
    decreases n,
{
    if n == 0 {
        0
    } else {
        mask_of(flags, (n - 1) as nat) + if flags[n - 1] { two_to((n - 1) as nat) } else { 0 }
    }
}

proof fn lemma_mask_bound(flags: Seq<bool>, n: nat)
    ensures
        mask_of(flags, n) < two_to(n),
    decreases n,
{
    if n > 0 {
        lemma_mask_bound(flags, (n - 1) as nat);
    }
}

/// The 16-bit word of block `idx` of a section: its id times 16 plus its
/// metadata nibble.
pub open spec fn block_word(s: Section, idx: int) -> int {
    s.blocks@[idx] * 16 + nibble(s.data@, idx)
}

/// A section's blocks as the protocol sends them: each block's word in two
/// bytes, low byte first.
pub open spec fn section_block_bytes(s: Section) -> Seq<u8> {
    Seq::new(
        8192,
        |j: int|
            if j % 2 == 0 {
                (block_word(s, j / 2) % 256) as u8
            } else {
                (block_word(s, j / 2) / 256) as u8
            },
    )
}

/// One layer of a section: 0 its blocks, 1 its block light, 2 its sky light.
pub open spec fn layer_bytes(s: Section, layer: int) -> Seq<u8> {
    if layer == 0 {
        section_block_bytes(s)
    } else if layer == 1 {
        s.block_light@
    } else {
        s.sky_light@
    }
}

impl Chunk {
    /// Whether section `t` is sent: it holds a block other than air, or the
    /// chunk is sent whole, holds nothing but air, and `t` is the bottom one.
    pub open spec fn spec_section_sent(&self, full_chunk: bool, t: int) -> bool {
        !self.sections@[t].spec_is_empty() || (full_chunk && self.spec_is_empty() && t == 0)
    }

    /// The sent flags of the sixteen sections.
    pub open spec fn spec_sent_flags(&self, full_chunk: bool) -> Seq<bool> {
        Seq::new(16, |t: int| self.spec_section_sent(full_chunk, t))
    }

    /// The primary bitmask: bit `t` set for each section that is sent.
    pub open spec fn spec_bitmask(&self, full_chunk: bool) -> nat {
        mask_of(self.spec_sent_flags(full_chunk), 16)
    }

    /// One layer of each of the first `n` sections that are sent, bottom up.
    pub open spec fn spec_sent_layer(&self, full_chunk: bool, layer: int, n: nat) -> Seq<u8>
        decreases n,
    {
        if n == 0 {
            seq![]
        } else {
            self.spec_sent_layer(full_chunk, layer, (n - 1) as nat) + if self.spec_section_sent(
                full_chunk,
                n - 1,
            ) {
                layer_bytes(self.sections@[n - 1], layer)
            } else {
                seq![]
            }
        }
    }

    /// The first `n` of the layers that are sent: blocks, block light, and
    /// (in the overworld) sky light.
    pub open spec fn spec_layers_upto(&self, is_overworld: bool, full_chunk: bool, n: int) -> Seq<u8> {
        (if n >= 1 {
            self.spec_sent_layer(full_chunk, 0, 16)
        } else {
            seq![]
        }) + (if n >= 2 {
            self.spec_sent_layer(full_chunk, 1, 16)
        } else {
            seq![]
        }) + (if n >= 3 && is_overworld {
            self.spec_sent_layer(full_chunk, 2, 16)
        } else {
            seq![]
        })
    }

    /// The chunk's data as a `ChunkData` packet carries it: the blocks of
    /// every sent section, then their block light, then (in the overworld)
    /// their sky light, then (for a whole chunk) the biomes.
    pub open spec fn spec_payload(&self, is_overworld: bool, full_chunk: bool) -> Seq<u8> {
        self.spec_sent_layer(full_chunk, 0, 16) + self.spec_sent_layer(full_chunk, 1, 16) + (if is_overworld {
            self.spec_sent_layer(full_chunk, 2, 16)
        } else {
            seq![]
        }) + (if full_chunk {
            self.biomes@
        } else {
            seq![]
        })
    }

    /// The chunk as the 1.8 protocol sends it: the primary bitmask and the
    /// payload.
    #[verifier::rlimit(40)]
    pub fn serialize_payload(&self, is_overworld: bool, full_chunk: bool) -> (r: (u16, Vec<u8>))
        ensures
            r.0 == self.spec_bitmask(full_chunk),
            r.1@ == self.spec_payload(is_overworld, full_chunk),
    {
        let mut present: Vec<bool> = Vec::new();
        let mut any: bool = false;
        let mut t: usize = 0;
        while t < 16
            invariant
                t <= 16,
                present@.len() == t,
                forall|u: int| 0 <= u < t ==> present@[u] == !(#[trigger] self.sections@[u]).spec_is_empty(),
                any == exists|u: int| 0 <= u < t && !(#[trigger] self.sections@[u]).spec_is_empty(),
            decreases 16 - t,
        {
            let ne = !self.sections[t].is_empty();
            present.push(ne);
            any = any || ne;
            t = t + 1;
        }
        if full_chunk && !any {
            present.set(0, true);
        }
        assert(present@ =~= self.spec_sent_flags(full_chunk));
        let mut bitmask: u32 = 0;
        let mut bit: u32 = 1;
        let mut t: usize = 0;
        while t < 16
            invariant
                t <= 16,
                present@ == self.spec_sent_flags(full_chunk),
                bitmask == mask_of(present@, t as nat),
                bit == two_to(t as nat),
                bit <= 65536,
            decreases 16 - t,
        {
            proof {
                lemma_mask_bound(present@, (t + 1) as nat);
                reveal_with_fuel(two_to, 17);
            }
            if present[t] {
                bitmask = bitmask + bit;
            }
            bit = bit * 2;
            t = t + 1;
        }
        proof {
            lemma_mask_bound(present@, 16);
            reveal_with_fuel(two_to, 17);
        }
        let mut data: Vec<u8> = Vec::new();
        let mut layer: u8 = 0;
        while layer < 3
            invariant
                layer <= 3,
                present@ == self.spec_sent_flags(full_chunk),
                data@ == self.spec_layers_upto(is_overworld, full_chunk, layer as int),
            decreases 3 - layer,
        {
            if layer < 2 || is_overworld {
                let ghost start = data@;
                let mut t: usize = 0;
                while t < 16
                    invariant
                        t <= 16,
                        layer < 3,
                        present@ == self.spec_sent_flags(full_chunk),
                        data@ == start + self.spec_sent_layer(full_chunk, layer as int, t as nat),
                    decreases 16 - t,
                {
                    if present[t] {
                        let s = &self.sections[t];
                        if layer == 0 {
                            append_section_blocks(&mut data, s);
                        } else if layer == 1 {
                            append_layer(&mut data, &s.block_light);
                        } else {
                            append_layer(&mut data, &s.sky_light);
                        }
                    }
                    proof {
                        assert(data@ =~= start + self.spec_sent_layer(full_chunk, layer as int, (t + 1) as nat));
                    }
                    t = t + 1;
                }
            }
            proof {
                assert(data@ =~= self.spec_layers_upto(is_overworld, full_chunk, layer + 1));
            }
            layer = layer + 1;
        }
        if full_chunk {
            let mut i: usize = 0;
            let ghost start = data@;
            while i < 256
                invariant
                    i <= 256,
                    data@ == start + self.biomes@.subrange(0, i as int),
                decreases 256 - i,
            {
                data.push(self.biomes[i]);
                proof {
                    assert(data@ =~= start + self.biomes@.subrange(0, (i + 1) as int));
                }
                i = i + 1;
            }
            assert(self.biomes@.subrange(0, 256) =~= self.biomes@);
        }
        assert(data@ =~= self.spec_payload(is_overworld, full_chunk));
        (bitmask as u16, data)
    }
}

/// Appends a section's blocks as the protocol sends them.
#[verifier::rlimit(40)]
fn append_section_blocks(out: &mut Vec<u8>, s: &Section)
    ensures
        final(out)@ == old(out)@ + section_block_bytes(*s),
{
    let ghost start = out@;
    let mut idx: usize = 0;
    while idx < 4096
        invariant
            idx <= 4096,
            out@.len() == start.len() + 2 * idx,
            out@.subrange(0, start.len() as int) == start,
            forall|j: int| 0 <= j < 2 * idx ==> out@[start.len() + j] == #[trigger] section_block_bytes(*s)[j],
        decreases 4096 - idx,
    {
        let block_id: u16 = s.blocks[idx] as u16;
        let meta_byte: u8 = s.data[idx / 2];
        let metadata: u8 = if idx % 2 == 0 {
            meta_byte / 16
        } else {
            meta_byte % 16
        };
        let combined: u16 = block_id * 16 + metadata as u16;
        assert(combined == block_word(*s, idx as int));
        out.push((combined % 256) as u8);
        out.push((combined / 256) as u8);
        proof {
            assert forall|j: int| 0 <= j < 2 * (idx + 1) implies out@[start.len() + j]
                == #[trigger] section_block_bytes(*s)[j] by {
                if j >= 2 * idx {
                    assert(j / 2 == idx);
                }
            }
            assert(out@.subrange(0, start.len() as int) =~= start);
        }
        idx = idx + 1;
    }
    assert(out@ =~= start + section_block_bytes(*s));
}

/// Appends one 2048-byte layer of a section.
fn append_layer(out: &mut Vec<u8>, layer: &[u8; 2048])
    ensures
        final(out)@ == old(out)@ + layer@,
{
    let ghost start = out@;
    let mut i: usize = 0;
    while i < 2048
        invariant
            i <= 2048,
            out@ == start + layer@.subrange(0, i as int),
        decreases 2048 - i,
    {
        out.push(layer[i]);
        proof {
            assert(out@ =~= start + layer@.subrange(0, (i + 1) as int));
        }
        i = i + 1;
    }
    assert(layer@.subrange(0, 2048) =~= layer@);
}

/// A chunk as the region file's NBT holds it, under its `Level` tag.
#[derive(Debug)]
pub struct RawChunkNbt {
    pub data: RawChunkData,
}

/// The `Level` compound of a stored chunk. Byte arrays are NBT's signed
/// bytes.
#[derive(Debug)]
pub struct RawChunkData {
    pub x: i32,
    pub z: i32,
    pub last_update: i64,
    pub terrain_populated: bool,
    pub biomes: Vec<i8>,
    pub sections: Vec<RawSection>,
}

/// One stored section, with its height `y` and its byte arrays.
#[derive(Debug)]
pub struct RawSection {
    pub y: i8,
    pub blocks: Vec<i8>,
    pub data: Vec<i8>,
    pub sky_light: Vec<i8>,
    pub block_light: Vec<i8>,
}

/// NBT's signed bytes read as unsigned ones, bit for bit.
pub open spec fn unsigned_bytes(v: Seq<i8>) -> Seq<u8> {
    Seq::new(v.len(), |i: int| v[i] as u8)
}

/// The message of a byte array of the wrong length: `Got <len>, expected <n>`.
pub open spec fn length_mismatch(got: nat, expected: nat) -> Seq<char> {
    "Got "@ + decimal(got as int) + ", expected "@ + decimal(expected as int)
}

/// The message of a byte array of the wrong length, built.
fn length_mismatch_text(got: usize, expected: usize) -> (r: String)
    ensures
        r@ == length_mismatch(got as nat, expected as nat),
{
    let mut text = String::from_str("Got ");
    append_decimal_digits(&mut text, got as u64);
    text.append(", expected ");
    append_decimal_digits(&mut text, expected as u64);
    text
}

/// The bytes of `vec` as an array of exactly `N` unsigned bytes, or the
/// length mismatch.
pub fn cast_byte_array<const N: usize>(vec: Vec<i8>) -> (r: Result<[u8; N], String>)
    ensures
        match r {
            Ok(a) => vec@.len() == N && a@ == unsigned_bytes(vec@),
            Err(e) => vec@.len() != N && e@ == length_mismatch(vec@.len(), N as nat),
        },
{
    if vec.len() != N {
        return Err(length_mismatch_text(vec.len(), N));
    }
    let mut a: [u8; N] = [0u8; N];
    let mut i: usize = 0;
    while i < N
        invariant
            i <= N,
            vec@.len() == N,
            a@.len() == N,
            forall|j: int| 0 <= j < i ==> a@[j] == #[trigger] unsigned_bytes(vec@)[j],
        decreases N - i,
    {
        a[i] = vec[i] as u8;
        i = i + 1;
    }
    assert(a@ =~= unsigned_bytes(vec@));
    Ok(a)
}

/// A stored section lies inside the column: its height is in `0..16`.
pub open spec fn raw_section_in_column(r: RawSection) -> bool {
    0 <= r.y < 16
}

/// The first length mismatch of a stored section, checking its blocks, data,
/// sky light and block light in that order.
pub open spec fn raw_section_error(r: RawSection) -> Option<Seq<char>> {
    if r.blocks@.len() != 4096 {
        Some(length_mismatch(r.blocks@.len(), 4096))
    } else if r.data@.len() != 2048 {
        Some(length_mismatch(r.data@.len(), 2048))
    } else if r.sky_light@.len() != 2048 {
        Some(length_mismatch(r.sky_light@.len(), 2048))
    } else if r.block_light@.len() != 2048 {
        Some(length_mismatch(r.block_light@.len(), 2048))
    } else {
        None
    }
}

/// The first error among the first `n` stored sections that lie inside the
/// column.
pub open spec fn raw_sections_error(secs: Seq<RawSection>, n: nat) -> Option<Seq<char>>
    decreases n,
{
    if n == 0 {
        None
    } else {
        match raw_sections_error(secs, (n - 1) as nat) {
            Some(e) => Some(e),
            None => if raw_section_in_column(secs[n - 1]) {
                raw_section_error(secs[n - 1])
            } else {
                None
            },
        }
    }
}

/// The error of a stored chunk: a biome array of the wrong length, else the
/// first stored section in the column with an array of the wrong length.
pub open spec fn raw_chunk_error(raw: RawChunkNbt) -> Option<Seq<char>> {
    if raw.data.biomes@.len() != 256 {
        Some(length_mismatch(raw.data.biomes@.len(), 256))
    } else {
        raw_sections_error(raw.data.sections@, raw.data.sections@.len())
    }
}

/// The index of the last of the first `n` stored sections at height `t`.
pub open spec fn last_raw_section(secs: Seq<RawSection>, t: int, n: nat) -> Option<int>
    decreases n,
{
    if n == 0 {
        None
    } else if secs[n - 1].y == t {
        Some(n - 1)
    } else {
        last_raw_section(secs, t, (n - 1) as nat)
    }
}

/// Section `s` holds what stored section `r` holds.
pub open spec fn section_from_raw(s: Section, r: RawSection) -> bool {
    &&& s.y == r.y
    &&& s.blocks@ == unsigned_bytes(r.blocks@)
    &&& s.data@ == unsigned_bytes(r.data@)
    &&& s.sky_light@ == unsigned_bytes(r.sky_light@)
    &&& s.block_light@ == unsigned_bytes(r.block_light@)
}

/// Section `s` is the default one: height 0, every byte zero.
pub open spec fn section_is_default(s: Section) -> bool {
    &&& s.y == 0
    &&& all_zero(s.blocks@)
    &&& all_zero(s.data@)
    &&& all_zero(s.sky_light@)
    &&& all_zero(s.block_light@)
}

/// Section `s` at height `t` of a chunk read from stored sections `secs`:
/// the last stored section at that height, or the default one.
pub open spec fn section_at_height(s: Section, secs: Seq<RawSection>, t: int, n: nat) -> bool {
    match last_raw_section(secs, t, n) {
        Some(i) => section_from_raw(s, secs[i]),
        None => section_is_default(s),
    }
}

proof fn lemma_raw_error_persists(secs: Seq<RawSection>, k: nat, n: nat)
    requires
        k <= n,
    ensures
        raw_sections_error(secs, k) is Some ==> raw_sections_error(secs, n) == raw_sections_error(secs, k),
    decreases n - k,
{
    if k < n {
        lemma_raw_error_persists(secs, k, (n - 1) as nat);
    }
}

impl Chunk {
    /// The chunk that a stored chunk describes. Sections stored outside the
    /// column are skipped; of two stored at one height the later wins; a
    /// height with none is the default section. Fails with the first length
    /// mismatch (see `raw_chunk_error`).
    #[verifier::rlimit(40)]
    pub fn from_raw_nbt(raw: RawChunkNbt) -> (r: Result<Chunk, String>)
        ensures
            match r {
                Ok(c) => {
                    &&& raw_chunk_error(raw) is None
                    &&& c.x == raw.data.x
                    &&& c.z == raw.data.z
                    &&& c.terrain_populated == raw.data.terrain_populated
                    &&& c.biomes@ == unsigned_bytes(raw.data.biomes@)
                    &&& forall|t: int| 0 <= t < 16 ==> section_at_height(
                        #[trigger] c.sections@[t],
                        raw.data.sections@,
                        t,
                        raw.data.sections@.len(),
                    )
                },
                Err(e) => raw_chunk_error(raw) == Some(e@),
            },
    {
        let ghost raw_copy = raw;
        let data = raw.data;
        let biomes: [u8; 256] = match cast_byte_array::<256>(data.biomes) {
            Ok(b) => b,
            Err(e) => return Err(e),
        };
        let empty = Section::default();
        let mut sections: [Section; 16] = [empty; 16];
        let secs = data.sections;
        let ghost gsecs = secs@;
        let mut k: usize = 0;
        while k < secs.len()
            invariant
                k <= secs@.len(),
                secs@ == gsecs,
                gsecs == raw_copy.data.sections@,
                raw_copy == raw,
                raw_copy.data.biomes@.len() == 256,
                raw_sections_error(gsecs, k as nat) is None,
                forall|t: int| 0 <= t < 16 ==> section_at_height(#[trigger] sections@[t], gsecs, t, k as nat),
            decreases secs@.len() - k,
        {
            let raw_sec = &secs[k];
            if 0 <= raw_sec.y && raw_sec.y < 16 {
                let y: usize = raw_sec.y as usize;
                let blocks_v: Vec<i8> = raw_sec.blocks.clone();
                assert(blocks_v@ =~= raw_sec.blocks@);
                let blocks: [u8; 4096] = match cast_byte_array::<4096>(blocks_v) {
                    Ok(b) => b,
                    Err(e) => {
                        proof {
                            lemma_raw_error_persists(gsecs, (k + 1) as nat, gsecs.len());
                        }
                        return Err(e);
                    },
                };
                let data_v: Vec<i8> = raw_sec.data.clone();
                assert(data_v@ =~= raw_sec.data@);
                let data_arr: [u8; 2048] = match cast_byte_array::<2048>(data_v) {
                    Ok(b) => b,
                    Err(e) => {
                        proof { lemma_raw_error_persists(gsecs, (k + 1) as nat, gsecs.len()); }
                        return Err(e);
                    },
                };
                let sky_light_v: Vec<i8> = raw_sec.sky_light.clone();
                assert(sky_light_v@ =~= raw_sec.sky_light@);
                let sky: [u8; 2048] = match cast_byte_array::<2048>(sky_light_v) {
                    Ok(b) => b,
                    Err(e) => {
                        proof { lemma_raw_error_persists(gsecs, (k + 1) as nat, gsecs.len()); }
                        return Err(e);
                    },
                };
                let block_light_v: Vec<i8> = raw_sec.block_light.clone();
                assert(block_light_v@ =~= raw_sec.block_light@);
                let block: [u8; 2048] = match cast_byte_array::<2048>(block_light_v) {
                    Ok(b) => b,
                    Err(e) => {
                        proof { lemma_raw_error_persists(gsecs, (k + 1) as nat, gsecs.len()); }
                        return Err(e);
                    },
                };
                sections[y] = Section { y: raw_sec.y, blocks, data: data_arr, sky_light: sky, block_light: block };
            }
            k = k + 1;
        }
        Ok(Chunk { x: data.x, z: data.z, sections, biomes, terrain_populated: data.terrain_populated })
    }
}

/// Makes the chunks that no region file holds.
#[derive(Debug)]
pub struct ChunkGenerator {}

impl Default for ChunkGenerator {
    fn default() -> (g: Self)
        ensures
            g == (ChunkGenerator {}),
    {
        ChunkGenerator {}
    }
}

impl ChunkGenerator {
    /// The chunk at `key`: an empty one.
    pub fn generate_chunk(&self, key: ChunkKey) -> (c: std::sync::Arc<Chunk>)
        ensures
            Chunk::is_empty_chunk_at(*c, key),
    {
        std::sync::Arc::new(Chunk::generate_empty(key))
    }
}

/// The payload of a chunk is at most 16 sections of 8192 block bytes and two
/// 2048-byte light layers, and 256 biome bytes.
pub proof fn lemma_payload_len(c: Chunk, is_overworld: bool, full_chunk: bool)
    ensures
        c.spec_payload(is_overworld, full_chunk).len() <= 16 * 8192 + 2 * 16 * 2048 + 256,
{
    lemma_sent_layer_len(c, full_chunk, 0, 16);
    lemma_sent_layer_len(c, full_chunk, 1, 16);
    lemma_sent_layer_len(c, full_chunk, 2, 16);
}

proof fn lemma_sent_layer_len(c: Chunk, full_chunk: bool, layer: int, n: nat)
    requires
        n <= 16,
    ensures
        c.spec_sent_layer(full_chunk, layer, n).len() <= n * (if layer == 0 { 8192nat } else { 2048nat }),
    decreases n,
{
    if n > 0 {
        lemma_sent_layer_len(c, full_chunk, layer, (n - 1) as nat);
        let s = c.sections@[n - 1];
        assert(s.block_light@.len() == 2048 && s.sky_light@.len() == 2048);
    }
}

proof fn lemma_two_to_add(a: nat, b: nat)
    ensures
        two_to(a + b) == two_to(a) * two_to(b),
    decreases b,
{
    if b > 0 {
        lemma_two_to_add(a, (b - 1) as nat);
        assert((a + b - 1) as nat == a + (b - 1) as nat);
        assert(two_to(a + b) == 2 * two_to((a + b - 1) as nat));
        assert(two_to(b) == 2 * two_to((b - 1) as nat));
        assert(two_to(a) * (2 * two_to((b - 1) as nat)) == 2 * (two_to(a) * two_to((b - 1) as nat))) by (nonlinear_arith);
    } else {
        assert(two_to(0) == 1);
        assert(a + b == a);
    }
}

proof fn lemma_two_to_pos(n: nat)
    ensures
        two_to(n) >= 1,
    decreases n,
{
    if n > 0 {
        lemma_two_to_pos((n - 1) as nat);
    }
}

proof fn lemma_mask_split(flags: Seq<bool>, t: nat, n: nat) -> (h: nat)
    requires
        t < n,
    ensures
        mask_of(flags, n) == mask_of(flags, t) + (if flags[t as int] { two_to(t) } else { 0 }) + two_to(t + 1) * h,
    decreases n,
{
    if n == t + 1 {
        0
    } else {
        let h0 = lemma_mask_split(flags, t, (n - 1) as nat);
        let d = (n - 1 - (t + 1)) as nat;
        lemma_two_to_add(t + 1, d);
        assert((t + 1 + d) as nat == (n - 1) as nat);
        let extra: nat = if flags[n - 1] { two_to(d) } else { 0 };
        let p = two_to(t + 1);
        assert(p * h0 + (if flags[n - 1] { p * two_to(d) } else { 0 }) == p * (h0 + extra)) by (nonlinear_arith)
            requires
                extra == (if flags[n - 1] { two_to(d) } else { 0nat }),
        ;
        h0 + extra
    }
}

/// Bit `t` of the primary bitmask is set exactly where section `t` is in
/// the payload.
#[verifier::rlimit(40)]
pub proof fn law_bitmask_bits(c: Chunk, full_chunk: bool, t: nat)
    requires
        t < 16,
    ensures
        (c.spec_bitmask(full_chunk) / two_to(t)) % 2 == 1 <==> c.spec_section_sent(full_chunk, t as int),
{
    let flags = c.spec_sent_flags(full_chunk);
    let h = lemma_mask_split(flags, t, 16);
    lemma_mask_bound(flags, t);
    lemma_two_to_pos(t);
    let p = two_to(t);
    let f: int = if flags[t as int] { 1 } else { 0 };
    let x = mask_of(flags, 16) as int;
    let low = mask_of(flags, t) as int;
    assert(two_to(t + 1) == 2 * p);
    assert(x == (f + 2 * h) * p + low) by (nonlinear_arith)
        requires
            x == low + f * p + (2 * p) * h,
    ;
    vstd::arithmetic::div_mod::lemma_fundamental_div_mod_converse(x, p as int, f + 2 * h, low);
    vstd::arithmetic::div_mod::lemma_fundamental_div_mod_converse(f + 2 * h, 2, h as int, f);
}

/// The number of the first `n` flags that hold.
pub open spec fn count_set(flags: Seq<bool>, n: nat) -> nat
    decreases n,
{
    if n == 0 {
        0
    } else {
        count_set(flags, (n - 1) as nat) + if flags[n - 1] { 1nat } else { 0nat }
    }
}

proof fn lemma_sent_layer_exact_len(c: Chunk, full_chunk: bool, layer: int, n: nat)
    requires
        n <= 16,
    ensures
        c.spec_sent_layer(full_chunk, layer, n).len() == count_set(c.spec_sent_flags(full_chunk), n) * (if layer
            == 0 {
            8192nat
        } else {
            2048nat
        }),
    decreases n,
{
    if n > 0 {
        lemma_sent_layer_exact_len(c, full_chunk, layer, (n - 1) as nat);
        let s = c.sections@[n - 1];
        assert(s.block_light@.len() == 2048 && s.sky_light@.len() == 2048);
        let k = count_set(c.spec_sent_flags(full_chunk), (n - 1) as nat);
        let w: nat = if layer == 0 { 8192 } else { 2048 };
        assert((k + 1) * w == k * w + w) by (nonlinear_arith);
    }
}

/// The payload holds, for each section that is sent, its 8192 block bytes,
/// its 2048 bytes of block light and (in the overworld) its 2048 bytes of
/// sky light, then 256 biome bytes for a whole chunk.
pub proof fn law_payload_length(c: Chunk, is_overworld: bool, full_chunk: bool)
    ensures
        c.spec_payload(is_overworld, full_chunk).len() == count_set(c.spec_sent_flags(full_chunk), 16) * (8192 + 2048
            + if is_overworld {
            2048nat
        } else {
            0nat
        }) + if full_chunk {
            256nat
        } else {
            0nat
        },
{
    lemma_sent_layer_exact_len(c, full_chunk, 0, 16);
    lemma_sent_layer_exact_len(c, full_chunk, 1, 16);
    lemma_sent_layer_exact_len(c, full_chunk, 2, 16);
    let k = count_set(c.spec_sent_flags(full_chunk), 16);
    assert(k * (8192 + 2048 + 2048) == k * 8192 + k * 2048 + k * 2048) by (nonlinear_arith);
    assert(k * (8192 + 2048 + 0) == k * 8192 + k * 2048) by (nonlinear_arith);
}

} // verus!
