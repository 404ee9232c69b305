//! The world's geometry: chunk keys, regions of 32 × 32 chunks, and the
//! anvil region files' offset tables.
use vstd::prelude::*;
use crate::error::IoError;
use crate::packet::{zlib_decompress, zlib_decompressed};

verus! {

/// The decimal digits of `n`.
pub open spec fn decimal_digits(n: nat) -> Seq<char>
    decreases n,
{
    if n < 10 {
        seq![(48 + n) as char]
    } else {
        decimal_digits(n / 10).push((48 + n % 10) as char)
    }
}

/// `x` in decimal, with a minus sign where it is negative.
pub open spec fn decimal(x: int) -> Seq<char> {
    if x < 0 {
        seq!['-'] + decimal_digits((-x) as nat)
    } else {
        decimal_digits(x as nat)
    }
}

/// The name of the file of region `(x, z)`: `r.<x>.<z>.mca`.
pub open spec fn region_file_name(x: i32, z: i32) -> Seq<char> {
    seq!['r', '.'] + decimal(x as int) + seq!['.'] + decimal(z as int) + seq!['.', 'm', 'c', 'a']
}

/// Appends the decimal digit `d` to `out`.
fn append_digit(out: &mut String, d: u64)
    requires
        d < 10,
    ensures
        final(out)@ == old(out)@.push((48 + d) as char),
{
    let ghost before = out@;
    proof {
        reveal_strlit("0");
        reveal_strlit("1");
        reveal_strlit("2");
        reveal_strlit("3");
        reveal_strlit("4");
        reveal_strlit("5");
        reveal_strlit("6");
        reveal_strlit("7");
        reveal_strlit("8");
        reveal_strlit("9");
    }
    let digit: &str = if d == 0 {
        "0"
    } else if d == 1 {
        "1"
    } else if d == 2 {
        "2"
    } else if d == 3 {
        "3"
    } else if d == 4 {
        "4"
    } else if d == 5 {
        "5"
    } else if d == 6 {
        "6"
    } else if d == 7 {
        "7"
    } else if d == 8 {
        "8"
    } else {
        "9"
    };
    assert(digit@ =~= seq![(48 + d) as char]);
    out.append(digit);
    assert(out@ =~= before.push((48 + d) as char));
}

/// Appends the decimal digits of `n` to `out`, most significant first.
pub fn append_decimal_digits(out: &mut String, n: u64)
    ensures
        final(out)@ == old(out)@ + decimal_digits(n as nat),
    decreases n,
{
    let ghost before = out@;
    if n >= 10 {
        append_decimal_digits(out, n / 10);
    }
    append_digit(out, n % 10);
    if n >= 10 {
        assert(out@ =~= before + decimal_digits(n as nat));
    } else {
        assert(out@ =~= before + decimal_digits(n as nat));
    }
}

/// Appends `x` in decimal to `out`, with a minus sign where it is negative.
pub fn append_decimal(out: &mut String, x: i64)
    ensures
        final(out)@ == old(out)@ + decimal(x as int),
{
    let ghost before = out@;
    if x < 0 {
        proof { reveal_strlit("-"); }
        out.append("-");
        let magnitude: u64 = if x == i64::MIN { 0x8000_0000_0000_0000u64 } else { (-x) as u64 };
        append_decimal_digits(out, magnitude);
        assert(out@ =~= before + decimal(x as int));
    } else {
        append_decimal_digits(out, x as u64);
    }
}

/// A region: 32 × 32 chunks, stored in one file.
#[derive(Debug, Clone, Copy, PartialEq, Eq, Structural, Hash)]
pub struct RegionKey(pub i32, pub i32);

impl RegionKey {
    /// The region with the given coordinates.
    pub fn new(x: i32, z: i32) -> (k: Self)
        ensures
            k == RegionKey(x, z),
    {
        RegionKey(x, z)
    }

    /// The name of the region's file.
    pub fn get_file_name(&self) -> (s: String)
        ensures
            s@ == region_file_name(self.0, self.1),
    {
        let mut name = String::from_str("r.");
        proof {
            reveal_strlit("r.");
            reveal_strlit(".");
            reveal_strlit(".mca");
        }
        append_decimal(&mut name, self.0 as i64);
        name.append(".");
        append_decimal(&mut name, self.1 as i64);
        name.append(".mca");
        assert(name@ =~= region_file_name(self.0, self.1));
        name
    }
}

/// The 64-bit key of the chunk at `(x, z)`: `x` in the high half, `z` in the
/// low half.
pub open spec fn chunk_key_value(x: i32, z: i32) -> i64 {
    ((x as i64) << 32u64) | ((z as i64) & 0xFFFF_FFFFi64)
}

/// A chunk column's coordinates packed in one integer.
#[derive(Debug, Clone, Copy, PartialEq, Eq, Structural, Hash)]
pub struct ChunkKey(pub i64);

impl ChunkKey {
    /// The key of the chunk at `(x, z)`.
    pub fn new(x: i32, z: i32) -> (k: Self)
        ensures
            k.0 == chunk_key_value(x, z),
            k.spec_x() == x,
            k.spec_z() == z,
    {
        let v: i64 = ((x as i64) << 32u64) | ((z as i64) & 0xFFFF_FFFFi64);
        assert((((x as i64) << 32u64) | ((z as i64) & 0xFFFF_FFFFi64)) >> 32u64 == x as i64) by (bit_vector);
        assert(((((x as i64) << 32u64) | ((z as i64) & 0xFFFF_FFFFi64)) as i32) == z) by (bit_vector);
        ChunkKey(v)
    }

    /// The chunk's x coordinate: the high half of the key.
    pub open spec fn spec_x(&self) -> i32 {
        (self.0 >> 32u64) as i32
    }

    /// The chunk's z coordinate: the low half of the key.
    pub open spec fn spec_z(&self) -> i32 {
        self.0 as i32
    }

    /// The chunk's x coordinate.
    pub fn x(&self) -> (x: i32)
        ensures
            x == self.spec_x(),
    {
        let v: i64 = self.0;
        assert(v >> 32u64 <= i32::MAX && v >> 32u64 >= i32::MIN) by (bit_vector);
        (v >> 32u64) as i32
    }

    /// The chunk's z coordinate.
    pub fn z(&self) -> (z: i32)
        ensures
            z == self.spec_z(),
    {
        self.0 as i32
    }

    /// The region that holds the chunk: its coordinates divided by 32,
    /// rounded down.
    pub fn region_key(&self) -> (k: RegionKey)
        ensures
            k == RegionKey((self.spec_x() as int / 32) as i32, (self.spec_z() as int / 32) as i32),
    {
        RegionKey::new(floor_div32(self.x()), floor_div32(self.z()))
    }

    /// The chunk's place within its region: its coordinates modulo 32.
    pub fn region_local(&self) -> (l: (usize, usize))
        ensures
            l == ((self.spec_x() as int % 32) as usize, (self.spec_z() as int % 32) as usize),
    {
        (mod32(self.x()), mod32(self.z()))
    }
}

/// `v` divided by 32, rounded down (Euclidean division, as `div_euclid`).
pub fn floor_div32(v: i32) -> (q: i32)
    ensures
        q == v as int / 32,
{
    let shifted: u64 = (v as i64 + 0x8000_0000i64) as u64;
    let q: i64 = (shifted / 32) as i64 - 0x400_0000i64;
    q as i32
}

/// `v` modulo 32, in `0..32` (Euclidean remainder, as `rem_euclid`).
pub fn mod32(v: i32) -> (r: usize)
    ensures
        r == v as int % 32,
        r < 32,
{
    let shifted: u64 = (v as i64 + 0x8000_0000i64) as u64;
    (shifted % 32) as usize
}

/// The world coordinates of the chunk at `(local_x, local_z)` of region
/// `(region_x, region_z)`.
pub fn local_to_world(region_x: i32, region_z: i32, local_x: usize, local_z: usize) -> (w: (i32, i32))
    requires
        i32::MIN <= region_x * 32 + local_x <= i32::MAX,
        i32::MIN <= region_z * 32 + local_z <= i32::MAX,
    ensures
        w == ((region_x * 32 + local_x) as i32, (region_z * 32 + local_z) as i32),
{
    ((region_x as i64 * 32 + local_x as i64) as i32, (region_z as i64 * 32 + local_z as i64) as i32)
}

/// A chunk's region and its place in it give back the chunk's coordinates.
pub proof fn law_region_of_chunk(key: ChunkKey)
    ensures
        ({
            let r = RegionKey((key.spec_x() as int / 32) as i32, (key.spec_z() as int / 32) as i32);
            let lx = key.spec_x() as int % 32;
            let lz = key.spec_z() as int % 32;
            &&& r.0 * 32 + lx == key.spec_x()
            &&& r.1 * 32 + lz == key.spec_z()
            &&& 0 <= lx < 32 && 0 <= lz < 32
        }),
{
}

/// The key of the chunk at `(x, z)` gives back `x` and `z`.
pub proof fn law_chunk_key_roundtrip(x: i32, z: i32)
    ensures
        ChunkKey(chunk_key_value(x, z)).spec_x() == x,
        ChunkKey(chunk_key_value(x, z)).spec_z() == z,
{
    assert((((x as i64) << 32u64) | ((z as i64) & 0xFFFF_FFFFi64)) >> 32u64 == x as i64) by (bit_vector);
    assert(((((x as i64) << 32u64) | ((z as i64) & 0xFFFF_FFFFi64)) as i32) == z) by (bit_vector);
}

/// std's owned path, carried through as it is: nothing inside it is read.
#[verifier::external_type_specification]
#[verifier::external_body]
pub struct ExPathBuf(std::path::PathBuf);

/// Entry `i` of a region file's offset table, read as a big-endian `u32`:
/// the chunk's first sector in the high 24 bits, its sector count in the low 8.
pub open spec fn offset_entry(table: Seq<u8>, i: int) -> int {
    table[4 * i] * 0x100_0000 + table[4 * i + 1] * 0x1_0000 + table[4 * i + 2] * 0x100 + table[4 * i + 3]
}

/// The first sector of entry `i`: its three high bytes.
pub open spec fn entry_sector(table: Seq<u8>, i: int) -> int {
    table[4 * i] * 0x1_0000 + table[4 * i + 1] * 0x100 + table[4 * i + 2]
}

/// A region file, known by its path and its table of 1024 chunk locations.
#[derive(Debug)]
pub struct Region {
    offsets: [u32; 1024],
    path: std::path::PathBuf,
}

impl Region {
    /// The offset table: entry `z * 32 + x` locates chunk `(x, z)`.
    pub closed spec fn spec_offsets(&self) -> Seq<u32> {
        self.offsets@
    }

    /// The path of the region's file.
    pub closed spec fn spec_path(&self) -> std::path::PathBuf {
        self.path
    }

    /// The region whose file at `path` starts with the offset table `table`
    /// (its first 4096 bytes).
    pub fn from_offset_table(table: &[u8], path: std::path::PathBuf) -> (r: Region)
        requires
            table@.len() >= 4096,
        ensures
            r.spec_offsets().len() == 1024,
            forall|i: int| 0 <= i < 1024 ==> #[trigger] r.spec_offsets()[i] == offset_entry(table@, i),
            r.spec_path() == path,
    {
        let mut offsets: [u32; 1024] = [0u32; 1024];
        let mut i: usize = 0;
        while i < 1024
            invariant
                i <= 1024,
                table@.len() >= 4096,
                forall|j: int| 0 <= j < i ==> #[trigger] offsets@[j] == offset_entry(table@, j),
            decreases 1024 - i,
        {
            let v: u32 = (table[4 * i] as u32) * 0x100_0000 + (table[4 * i + 1] as u32) * 0x1_0000
                + (table[4 * i + 2] as u32) * 0x100 + (table[4 * i + 3] as u32);
            offsets[i] = v;
            i = i + 1;
        }
        Region { offsets, path }
    }

    /// The path of the region's file.
    pub fn path(&self) -> (p: &std::path::PathBuf)
        ensures
            *p == self.spec_path(),
    {
        &self.path
    }

    /// Where chunk `(local_x, local_z)` is stored: its first sector and its
    /// sector count, or `None` where its entry is zero (never generated).
    pub fn get_offset(&self, local_x: usize, local_z: usize) -> (r: Option<(u32, u8)>)
        requires
            local_z * 32 + local_x < 1024,
        ensures
            ({
                let e = self.spec_offsets()[local_z * 32 + local_x];
                if e == 0 {
                    r is None
                } else {
                    r == Some(((e / 256) as u32, (e % 256) as u8))
                }
            }),
    {
        let idx: usize = local_z * 32 + local_x;
        let entry: u32 = self.offsets[idx];
        if entry == 0 {
            return None;
        }
        Some((entry / 256, (entry % 256) as u8))
    }
}

/// The message of a chunk header that is refused.
pub open spec fn invalid_header_message(compression: u8, len: u32) -> Seq<char> {
    "Invalid header: comp="@ + decimal(compression as int) + ", len="@ + decimal(len as int)
}

/// The message of a chunk header that is refused, built.
fn invalid_header_text(compression: u8, len: u32) -> (r: String)
    ensures
        r@ == invalid_header_message(compression, len),
{
    let mut text = String::from_str("Invalid header: comp=");
    append_decimal(&mut text, compression as i64);
    text.append(", len=");
    append_decimal(&mut text, len as i64);
    text
}

/// The number of compressed bytes that follow a chunk's five-byte header
/// (its big-endian length, counting the compression byte, then the
/// compression byte). Only zlib (`2`) with a length of at least 10 is
/// accepted.
pub fn chunk_payload_len(header: &[u8]) -> (r: Result<usize, String>)
    requires
        header@.len() >= 5,
    ensures
        ({
            let len = header@[0] * 0x100_0000 + header@[1] * 0x1_0000 + header@[2] * 0x100 + header@[3];
            let comp = header@[4];
            if comp != 2 || len < 10 {
                r matches Err(e) && e@ == invalid_header_message(comp, len as u32)
            } else {
                r == Ok::<usize, String>((len - 1) as usize)
            }
        }),
{
    let payload_len: u32 = (header[0] as u32) * 0x100_0000 + (header[1] as u32) * 0x1_0000
        + (header[2] as u32) * 0x100 + (header[3] as u32);
    let compression: u8 = header[4];
    if compression != 2 || payload_len < 10 {
        return Err(invalid_header_text(compression, payload_len));
    }
    Ok((payload_len - 1) as usize)
}

/// The NBT bytes of a stored chunk: its zlib payload decompressed, as the
/// name `zlib_decompressed` gives them.
pub fn decompress_chunk(compressed: &[u8]) -> (r: Result<Vec<u8>, IoError>)
    ensures
        r matches Ok(v) ==> zlib_decompressed(compressed@) == Ok::<Seq<u8>, IoError>(v@),
        r matches Err(e) ==> zlib_decompressed(compressed@) == Err::<Seq<u8>, IoError>(e),
{
    zlib_decompress(compressed)
}

/// The local coordinates of the chunks present among the first `n` entries
/// of an offset table: those whose first sector is not zero, in table order.
pub open spec fn existing_upto(table: Seq<u8>, n: nat) -> Seq<(usize, usize)>
    decreases n,
{
    if n == 0 {
        seq![]
    } else {
        let i = n - 1;
        existing_upto(table, (n - 1) as nat) + if entry_sector(table, i) != 0 {
            seq![((i % 32) as usize, (i / 32) as usize)]
        } else {
            seq![]
        }
    }
}

/// The local coordinates `(x, z)` of every chunk present in a region file,
/// given its offset table (its first 4096 bytes), in table order.
pub fn existing_chunks(table: &[u8]) -> (r: Vec<(usize, usize)>)
    requires
        table@.len() >= 4096,
    ensures
        r@ == existing_upto(table@, 1024),
{
    let mut existing: Vec<(usize, usize)> = Vec::new();
    let mut entry: usize = 0;
    while entry < 1024
        invariant
            entry <= 1024,
            table@.len() >= 4096,
            existing@ == existing_upto(table@, entry as nat),
        decreases 1024 - entry,
    {
        let sector: u32 = (table[4 * entry] as u32) * 0x1_0000 + (table[4 * entry + 1] as u32) * 0x100
            + (table[4 * entry + 2] as u32);
        if sector != 0 {
            existing.push((entry % 32, entry / 32));
        }
        proof {
            assert(existing@ =~= existing_upto(table@, (entry + 1) as nat));
        }
        entry = entry + 1;
    }
    existing
}

proof fn lemma_existing_have_sectors(table: Seq<u8>, n: nat, k: int)
    requires
        n <= 1024,
        0 <= k < existing_upto(table, n).len(),
    ensures
        exists|i: int|
            0 <= i < n && entry_sector(table, i) != 0 && #[trigger] existing_upto(table, n)[k] == ((i % 32) as usize, (
            i / 32) as usize),
    decreases n,
{
    let prev = existing_upto(table, (n - 1) as nat);
    if k < prev.len() {
        lemma_existing_have_sectors(table, (n - 1) as nat, k);
        let i = choose|i: int|
            0 <= i < n - 1 && entry_sector(table, i) != 0 && #[trigger] existing_upto(table, (n - 1) as nat)[k] == (
            (i % 32) as usize, (i / 32) as usize);
        assert(existing_upto(table, n)[k] == prev[k]);
        assert(existing_upto(table, n)[k] == ((i % 32) as usize, (i / 32) as usize));
    } else {
        let i = n - 1;
        assert(existing_upto(table, n)[k] == ((i % 32) as usize, (i / 32) as usize));
    }
}

/// Every chunk that `existing_chunks` lists for an offset table is located
/// by the region read from that table: its entry is not zero, so
/// `get_offset` gives `Some`, and the sector it gives is the one the listing
/// saw.
pub proof fn law_listed_chunks_are_located(table: Seq<u8>, k: int)
    requires
        table.len() >= 4096,
        0 <= k < existing_upto(table, 1024).len(),
    ensures
        ({
            let (x, z) = existing_upto(table, 1024)[k];
            let i = z * 32 + x;
            &&& x < 32 && z < 32
            &&& offset_entry(table, i) != 0
            &&& offset_entry(table, i) / 256 == entry_sector(table, i)
            &&& entry_sector(table, i) != 0
        }),
{
    lemma_existing_have_sectors(table, 1024, k);
    let i = choose|i: int|
        0 <= i < 1024 && entry_sector(table, i) != 0 && #[trigger] existing_upto(table, 1024)[k] == ((i % 32) as usize, (
        i / 32) as usize);
    assert(i == (i / 32) * 32 + i % 32);
}

} // verus!
