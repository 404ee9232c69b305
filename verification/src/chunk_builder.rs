//! A flat test world, built straight into the bytes of a `ChunkData`
//! payload.
use vstd::prelude::*;

verus! {

/// Builds the payload of a chunk of the flat world: bedrock at height 0,
/// stone from 1 to 4, dirt at 5, grass at 6, air above, plains everywhere.
pub struct ChunkBuilder {
    pub chunk_x: i32,
    pub chunk_z: i32,
    pub primary_bitmask: u16,
    pub include_sky_light: bool,
}

/// Whether bit `t` of a primary bitmask is set.
pub open spec fn mask_bit(mask: u16, t: u16) -> bool {
    (mask >> t) & 1u16 == 1u16
}

/// The block id of the flat world at height `y`.
pub open spec fn flat_block_id(y: int) -> u8 {
    if y == 0 {
        7
    } else if 1 <= y <= 4 {
        1
    } else if y == 5 {
        3
    } else if y == 6 {
        2
    } else {
        0
    }
}

/// The blocks of section `s` of the flat world, two bytes per block, low
/// byte first: the id times 16 (metadata 0), then 0.
pub open spec fn flat_section_blocks(s: int) -> Seq<u8> {
    Seq::new(
        8192,
        |j: int|
            if j % 2 == 0 {
                (flat_block_id(s * 16 + j / 512) * 16) as u8
            } else {
                0u8
            },
    )
}

/// One layer of a flat section: 0 its blocks, 1 its block light (all 0),
/// 2 its sky light (all 15, two nibbles a byte).
pub open spec fn flat_layer_bytes(s: int, layer: int) -> Seq<u8> {
    if layer == 0 {
        flat_section_blocks(s)
    } else if layer == 1 {
        Seq::new(2048, |i: int| 0u8)
    } else {
        Seq::new(2048, |i: int| 0xFFu8)
    }
}

/// One layer of each of the first `n` sections whose bit is set, bottom up.
pub open spec fn flat_layer(mask: u16, layer: int, n: nat) -> Seq<u8>
    decreases n,
{
    if n == 0 {
        seq![]
    } else {
        flat_layer(mask, layer, (n - 1) as nat) + if mask_bit(mask, (n - 1) as u16) {
            flat_layer_bytes(n - 1, layer)
        } else {
            seq![]
        }
    }
}

/// Appends `count` copies of `byte`.
fn append_repeat(out: &mut Vec<u8>, byte: u8, count: usize)
    ensures
        final(out)@ == old(out)@ + Seq::new(count as nat, |i: int| byte),
{
    let ghost start = out@;
    let mut i: usize = 0;
    while i < count
        invariant
            i <= count,
            out@ == start + Seq::new(i as nat, |k: int| byte),
        decreases count - i,
    {
        out.push(byte);
        proof {
            assert(out@ =~= start + Seq::new((i + 1) as nat, |k: int| byte));
        }
        i = i + 1;
    }
}

/// Appends the blocks of section `s` of the flat world.
#[verifier::rlimit(40)]
fn append_flat_blocks(out: &mut Vec<u8>, s: usize)
    requires
        s < 16,
    ensures
        final(out)@ == old(out)@ + flat_section_blocks(s as int),
{
    let ghost start = out@;
    let mut y: usize = 0;
    while y < 16
        invariant
            y <= 16,
            s < 16,
            out@.len() == start.len() + 512 * y,
            out@.subrange(0, start.len() as int) == start,
            forall|j: int| 0 <= j < 512 * y ==> out@[start.len() + j] == #[trigger] flat_section_blocks(s as int)[j],
        decreases 16 - y,
    {
        let global_y: usize = s * 16 + y;
        let id: u16 = if global_y == 0 {
            7
        } else if 1 <= global_y && global_y <= 4 {
            1
        } else if global_y == 5 {
            3
        } else if global_y == 6 {
            2
        } else {
            0
        };
        let block_data: u16 = id * 16;
        let mut k: usize = 0;
        while k < 256
            invariant
                k <= 256,
                y < 16,
                s < 16,
                block_data == flat_block_id(s * 16 + y) * 16,
                out@.len() == start.len() + 512 * y + 2 * k,
                out@.subrange(0, start.len() as int) == start,
                forall|j: int| 0 <= j < 512 * y + 2 * k ==> out@[start.len() + j] == #[trigger] flat_section_blocks(s as int)[j],
            decreases 256 - k,
        {
            out.push((block_data % 256) as u8);
            out.push((block_data / 256) as u8);
            proof {
                assert forall|j: int| 0 <= j < 512 * y + 2 * (k + 1) implies out@[start.len() + j]
                    == #[trigger] flat_section_blocks(s as int)[j] by {
                    if j >= 512 * y + 2 * k {
                        assert(j / 512 == y);
                    }
                }
                assert(out@.subrange(0, start.len() as int) =~= start);
            }
            k = k + 1;
        }
        y = y + 1;
    }
    assert(out@ =~= start + flat_section_blocks(s as int));
}

impl ChunkBuilder {
    /// The payload of a flat-world chunk: the blocks of every section whose
    /// bit is set in the primary bitmask, then their block light, then (if
    /// asked) their sky light, then 256 biome bytes of plains (1).
    pub open spec fn spec_flat_world(&self) -> Seq<u8> {
        flat_layer(self.primary_bitmask, 0, 16) + flat_layer(self.primary_bitmask, 1, 16) + (if self.include_sky_light {
            flat_layer(self.primary_bitmask, 2, 16)
        } else {
            seq![]
        }) + Seq::new(256, |i: int| 1u8)
    }

    /// Builds the payload of a flat-world chunk.
    #[verifier::rlimit(40)]
    pub fn build_flat_world(&self) -> (raw: Vec<u8>)
        ensures
            raw@ == self.spec_flat_world(),
    {
        let mut all_blocks: Vec<u8> = Vec::new();
        let mut all_block_light: Vec<u8> = Vec::new();
        let mut all_sky_light: Vec<u8> = Vec::new();
        let mut section_idx: u16 = 0;
        while section_idx < 16
            invariant
                section_idx <= 16,
                all_blocks@ == flat_layer(self.primary_bitmask, 0, section_idx as nat),
                all_block_light@ == flat_layer(self.primary_bitmask, 1, section_idx as nat),
                all_sky_light@ == flat_layer(self.primary_bitmask, 2, section_idx as nat),
            decreases 16 - section_idx,
        {
            if (self.primary_bitmask >> section_idx) & 1u16 == 1u16 {
                append_flat_blocks(&mut all_blocks, section_idx as usize);
                append_repeat(&mut all_block_light, 0x00u8, 2048);
                append_repeat(&mut all_sky_light, 0xFFu8, 2048);
            }
            proof {
                let n = (section_idx + 1) as nat;
                assert((n - 1) as u16 == section_idx);
                assert(all_blocks@ =~= flat_layer(self.primary_bitmask, 0, n));
                assert(all_block_light@ =~= flat_layer(self.primary_bitmask, 1, n));
                assert(all_sky_light@ =~= flat_layer(self.primary_bitmask, 2, n));
            }
            section_idx = section_idx + 1;
        }
        let mut raw: Vec<u8> = Vec::new();
        raw.append(&mut all_blocks);
        raw.append(&mut all_block_light);
        if self.include_sky_light {
            raw.append(&mut all_sky_light);
        }
        append_repeat(&mut raw, 1u8, 256);
        assert(raw@ =~= self.spec_flat_world());
        raw
    }
}

/// How many of the first `n` bits of `mask` are set.
pub open spec fn set_bits_below(mask: u16, n: nat) -> nat
    decreases n,
{
    if n == 0 {
        0
    } else {
        set_bits_below(mask, (n - 1) as nat) + if mask_bit(mask, (n - 1) as u16) {
            1nat
        } else {
            0nat
        }
    }
}

/// The length of one layer of one section.
pub open spec fn layer_len(layer: int) -> nat {
    if layer == 0 {
        8192
    } else {
        2048
    }
}

/// One layer of the first `n` sections takes that layer's length once for
/// each of their bits that is set.
proof fn lemma_flat_layer_len(mask: u16, layer: int, n: nat)
    ensures
        flat_layer(mask, layer, n).len() == set_bits_below(mask, n) * layer_len(layer),
    decreases n,
{
    if n > 0 {
        lemma_flat_layer_len(mask, layer, (n - 1) as nat);
        let k = set_bits_below(mask, (n - 1) as nat);
        let l = layer_len(layer);
        assert((k + 1) * l == k * l + l) by (nonlinear_arith);
    }
}

/// The flat-world payload takes, for each section whose bit is set, 8192
/// bytes of blocks, 2048 of block light and, with sky light, 2048 more;
/// then 256 biome bytes, all plains (1).
pub proof fn law_flat_world_len(b: ChunkBuilder)
    ensures
        b.spec_flat_world().len() == set_bits_below(b.primary_bitmask, 16) * (10240 + if b.include_sky_light {
            2048nat
        } else {
            0nat
        }) + 256,
        forall|i: int|
            b.spec_flat_world().len() - 256 <= i < b.spec_flat_world().len() ==> #[trigger] b.spec_flat_world()[i] == 1u8,
{
    let m = b.primary_bitmask;
    let n = set_bits_below(m, 16);
    lemma_flat_layer_len(m, 0, 16);
    lemma_flat_layer_len(m, 1, 16);
    lemma_flat_layer_len(m, 2, 16);
    assert(n * 8192 + n * 2048 == n * 10240) by (nonlinear_arith);
    assert(n * 8192 + n * 2048 + n * 2048 == n * 12288) by (nonlinear_arith);
    let body = flat_layer(m, 0, 16) + flat_layer(m, 1, 16) + (if b.include_sky_light {
        flat_layer(m, 2, 16)
    } else {
        seq![]
    });
    assert(b.spec_flat_world() =~= body + Seq::new(256, |i: int| 1u8));
}

/// The flat-world payload does not depend on the chunk's position: two
/// builders with the same bitmask and sky-light setting build the same bytes.
pub proof fn law_flat_world_ignores_position(a: ChunkBuilder, b: ChunkBuilder)
    requires
        a.primary_bitmask == b.primary_bitmask,
        a.include_sky_light == b.include_sky_light,
    ensures
        a.spec_flat_world() == b.spec_flat_world(),
{
}

/// The blocks layer of the sections above the lowest hold only zeros: one
/// layer of the first `n` sections begins with that of the lowest, and is
/// zero beyond it.
proof fn lemma_flat_blocks_above_lowest(mask: u16, n: nat)
    requires
        n >= 1,
    ensures
        flat_layer(mask, 0, 1).len() <= flat_layer(mask, 0, n).len(),
        flat_layer(mask, 0, n).take(flat_layer(mask, 0, 1).len() as int) == flat_layer(mask, 0, 1),
        forall|j: int|
            flat_layer(mask, 0, 1).len() <= j < flat_layer(mask, 0, n).len() ==> #[trigger] flat_layer(mask, 0, n)[j]
                == 0u8,
    decreases n,
{
    if n > 1 {
        lemma_flat_blocks_above_lowest(mask, (n - 1) as nat);
        let prev = flat_layer(mask, 0, (n - 1) as nat);
        let cur = flat_layer(mask, 0, n);
        let l1 = flat_layer(mask, 0, 1).len() as int;
        assert(cur.take(l1) =~= prev.take(l1));
        if mask_bit(mask, (n - 1) as u16) {
            let sec = flat_section_blocks(n - 1);
            assert(cur == prev + sec);
            assert forall|j: int| l1 <= j < cur.len() implies #[trigger] cur[j] == 0u8 by {
                if j >= prev.len() {
                    let k = j - prev.len();
                    assert(cur[j] == sec[k]);
                    assert((n - 1) * 16 + k / 512 >= 16);
                }
            }
        } else {
            assert(cur =~= prev);
        }
    } else {
        assert(flat_layer(mask, 0, 1).take(flat_layer(mask, 0, 1).len() as int) =~= flat_layer(mask, 0, 1));
    }
}

/// The layers of the flat world, stated on the payload: where the lowest
/// section is present, its blocks open the payload, two bytes a block
/// (`id * 16`, then 0) with 256 blocks a layer: bedrock (7) at height 0,
/// stone (1) at heights 1 to 4, dirt (3) at 5, grass (2) at 6, air above.
/// The blocks of every higher section are air.
pub proof fn law_flat_world_layers(b: ChunkBuilder)
    ensures
        b.primary_bitmask & 1u16 == 1u16 ==> forall|j: int|
            0 <= j < 8192 ==> #[trigger] b.spec_flat_world()[j] == (if j % 2 == 1 {
                0x00u8
            } else if j < 512 {
                0x70u8
            } else if j < 5 * 512 {
                0x10u8
            } else if j < 6 * 512 {
                0x30u8
            } else if j < 7 * 512 {
                0x20u8
            } else {
                0x00u8
            }),
        forall|j: int|
            (if b.primary_bitmask & 1u16 == 1u16 {
                8192int
            } else {
                0int
            }) <= j < set_bits_below(b.primary_bitmask, 16) * 8192 ==> #[trigger] b.spec_flat_world()[j] == 0u8,
{
    let m = b.primary_bitmask;
    let blocks = flat_layer(m, 0, 16);
    lemma_flat_layer_len(m, 0, 16);
    lemma_flat_layer_len(m, 0, 1);
    lemma_flat_blocks_above_lowest(m, 16);
    let w = b.spec_flat_world();
    assert(w == blocks + (flat_layer(m, 1, 16) + (if b.include_sky_light {
        flat_layer(m, 2, 16)
    } else {
        seq![]
    }) + Seq::new(256, |i: int| 1u8))) by {
        assert(w =~= blocks + (flat_layer(m, 1, 16) + (if b.include_sky_light {
            flat_layer(m, 2, 16)
        } else {
            seq![]
        }) + Seq::new(256, |i: int| 1u8)));
    }
    assert(forall|j: int| 0 <= j < blocks.len() ==> w[j] == blocks[j]);
    assert((m & 1u16 == 1u16) == (((m >> 0u16) & 1u16) == 1u16)) by (bit_vector);
    assert(flat_layer(m, 0, 0) =~= Seq::<u8>::empty());
    let first = flat_layer(m, 0, 1);
    if m & 1u16 == 1u16 {
        assert(first =~= flat_section_blocks(0));
        assert(set_bits_below(m, 1) == 1);
        assert forall|j: int| 0 <= j < 8192 implies #[trigger] w[j] == (if j % 2 == 1 {
            0x00u8
        } else if j < 512 {
            0x70u8
        } else if j < 5 * 512 {
            0x10u8
        } else if j < 6 * 512 {
            0x30u8
        } else if j < 7 * 512 {
            0x20u8
        } else {
            0x00u8
        }) by {
            assert(blocks.take(8192)[j] == first[j]);
            assert(w[j] == first[j]);
        }
    } else {
        assert(first =~= Seq::<u8>::empty());
    }
}

} // verus!
