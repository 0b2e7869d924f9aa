//! Filesystem payloads written into freshly formatted sectors: IBM PC FAT12
//! boot sector and FAT markers, Atari ST TOS boot sector with its 0x1234 word
//! checksum, AmigaDOS OFS boot, root and bitmap blocks with their checksums,
//! and the blank 0xE5 fill.
use vstd::prelude::*;
use crate::protocol::PresetProfile;

verus! {

/// Filesystem initialisation mode during formatting.
#[derive(Debug, Clone, Copy, PartialEq, Eq, Structural)]
pub enum FsInitMode {
    /// Raw sectors filled with 0xE5.
    Blank,
    /// Boot sector, allocation structures and empty root directory.
    OsReady,
}

impl Default for FsInitMode {
    fn default() -> (r: Self)
        ensures
            r == FsInitMode::Blank,
    {
        FsInitMode::Blank
    }
}

impl FsInitMode {
    /// Label for toggles and badges.
    pub fn label(self) -> (r: &'static str)
        ensures
            r@ == (match self {
                FsInitMode::Blank => "Blank (Raw 0xE5)"@,
                FsInitMode::OsReady => "OS-Ready (Boot & Root FS)"@,
            }),
    {
        match self {
            FsInitMode::Blank => "Blank (Raw 0xE5)",
            FsInitMode::OsReady => "OS-Ready (Boot & Root FS)",
        }
    }

    /// Short status label.
    pub fn short_label(self) -> (r: &'static str)
        ensures
            r@ == (match self {
                FsInitMode::Blank => "Blank"@,
                FsInitMode::OsReady => "OS-Ready"@,
            }),
    {
        match self {
            FsInitMode::Blank => "Blank",
            FsInitMode::OsReady => "OS-Ready",
        }
    }

    pub open spec fn spec_toggle(self) -> Self {
        match self {
            FsInitMode::Blank => FsInitMode::OsReady,
            FsInitMode::OsReady => FsInitMode::Blank,
        }
    }

    /// Toggles between Blank and OsReady.
    pub fn toggle(self) -> (r: Self)
        ensures
            r == self.spec_toggle(),
    {
        match self {
            FsInitMode::Blank => FsInitMode::OsReady,
            FsInitMode::OsReady => FsInitMode::Blank,
        }
    }

    /// Filesystem generated for a preset.
    pub fn os_desc(preset: PresetProfile) -> (r: &'static str)
        ensures
            r@ == (match preset {
                PresetProfile::Atari35Dd => "Atari TOS"@,
                PresetProfile::Amiga35Dd => "AmigaDOS OFS"@,
                PresetProfile::Cpc30Data => "CP/M Data"@,
                _ => "DOS FAT12"@,
            }),
    {
        match preset {
            PresetProfile::Pc35Hd | PresetProfile::Pc35Dd | PresetProfile::Pc525Hd
            | PresetProfile::Pc525DdOnHd | PresetProfile::Pc525Dd => "DOS FAT12",
            PresetProfile::Atari35Dd => "Atari TOS",
            PresetProfile::Amiga35Dd => "AmigaDOS OFS",
            PresetProfile::Cpc30Data => "CP/M Data",
        }
    }
}

/// `n` copies of a byte.
pub open spec fn fill_seq(n: nat, b: u8) -> Seq<u8> {
    Seq::new(n, |i: int| b)
}

/// `base` with `data` written at `off`.
pub open spec fn overlay(base: Seq<u8>, off: int, data: Seq<u8>) -> Seq<u8> {
    base.subrange(0, off) + data + base.subrange(off + data.len(), base.len() as int)
}

/// Little-endian bytes of a 16-bit value.
pub open spec fn le16(v: u16) -> Seq<u8> {
    seq![(v % 256) as u8, (v / 256) as u8]
}

/// Big-endian bytes of a 16-bit value.
pub open spec fn be16(v: u16) -> Seq<u8> {
    seq![(v / 256) as u8, (v % 256) as u8]
}

/// Big-endian bytes of a 32-bit value.
pub open spec fn be32(v: u32) -> Seq<u8> {
    seq![(v / 0x100_0000) as u8, ((v / 0x1_0000) % 256) as u8, ((v / 256) % 256) as u8, (v % 256) as u8]
}

/// FAT12 geometry of a PC preset.
pub struct DosGeometry {
    pub bytes_per_sec: u16,
    pub secs_per_cluster: u8,
    pub reserved_secs: u16,
    pub num_fats: u8,
    pub root_entries: u16,
    pub total_secs: u16,
    pub media_desc: u8,
    pub secs_per_fat: u16,
    pub secs_per_track: u16,
    pub num_heads: u16,
}

pub open spec fn dos_geometry(p: PresetProfile) -> DosGeometry {
    match p {
        PresetProfile::Pc35Dd => DosGeometry {
            bytes_per_sec: 512,
            secs_per_cluster: 2,
            reserved_secs: 1,
            num_fats: 2,
            root_entries: 112,
            total_secs: 1440,
            media_desc: 0xF9,
            secs_per_fat: 3,
            secs_per_track: 9,
            num_heads: 2,
        },
        PresetProfile::Pc525Hd => DosGeometry {
            bytes_per_sec: 512,
            secs_per_cluster: 1,
            reserved_secs: 1,
            num_fats: 2,
            root_entries: 224,
            total_secs: 2400,
            media_desc: 0xF9,
            secs_per_fat: 7,
            secs_per_track: 15,
            num_heads: 2,
        },
        PresetProfile::Pc525DdOnHd | PresetProfile::Pc525Dd => DosGeometry {
            bytes_per_sec: 512,
            secs_per_cluster: 2,
            reserved_secs: 1,
            num_fats: 2,
            root_entries: 112,
            total_secs: 720,
            media_desc: 0xFD,
            secs_per_fat: 2,
            secs_per_track: 9,
            num_heads: 2,
        },
        _ => DosGeometry {
            bytes_per_sec: 512,
            secs_per_cluster: 1,
            reserved_secs: 1,
            num_fats: 2,
            root_entries: 224,
            total_secs: 2880,
            media_desc: 0xF0,
            secs_per_fat: 9,
            secs_per_track: 18,
            num_heads: 2,
        },
    }
}

impl DosGeometry {
    /// Geometry of a preset (the 1.44M layout for non-PC presets).
    pub fn for_preset(preset: PresetProfile) -> (g: Self)
        ensures
            g == dos_geometry(preset),
    {
        match preset {
            PresetProfile::Pc35Hd => DosGeometry {
                bytes_per_sec: 512,
                secs_per_cluster: 1,
                reserved_secs: 1,
                num_fats: 2,
                root_entries: 224,
                total_secs: 2880,
                media_desc: 0xF0,
                secs_per_fat: 9,
                secs_per_track: 18,
                num_heads: 2,
            },
            PresetProfile::Pc35Dd => DosGeometry {
                bytes_per_sec: 512,
                secs_per_cluster: 2,
                reserved_secs: 1,
                num_fats: 2,
                root_entries: 112,
                total_secs: 1440,
                media_desc: 0xF9,
                secs_per_fat: 3,
                secs_per_track: 9,
                num_heads: 2,
            },
            PresetProfile::Pc525Hd => DosGeometry {
                bytes_per_sec: 512,
                secs_per_cluster: 1,
                reserved_secs: 1,
                num_fats: 2,
                root_entries: 224,
                total_secs: 2400,
                media_desc: 0xF9,
                secs_per_fat: 7,
                secs_per_track: 15,
                num_heads: 2,
            },
            PresetProfile::Pc525DdOnHd | PresetProfile::Pc525Dd => DosGeometry {
                bytes_per_sec: 512,
                secs_per_cluster: 2,
                reserved_secs: 1,
                num_fats: 2,
                root_entries: 112,
                total_secs: 720,
                media_desc: 0xFD,
                secs_per_fat: 2,
                secs_per_track: 9,
                num_heads: 2,
            },
            _ => DosGeometry {
                bytes_per_sec: 512,
                secs_per_cluster: 1,
                reserved_secs: 1,
                num_fats: 2,
                root_entries: 224,
                total_secs: 2880,
                media_desc: 0xF0,
                secs_per_fat: 9,
                secs_per_track: 18,
                num_heads: 2,
            },
        }
    }

    /// Sectors occupied by the root directory (32 bytes per entry, rounded up).
    pub fn root_dir_sectors(&self) -> (r: u16)
        requires
            self.bytes_per_sec > 0,
            self.root_entries <= 2047,
        ensures
            r as int == (if (self.root_entries * 32) % (self.bytes_per_sec as int) == 0 {
                (self.root_entries * 32) / (self.bytes_per_sec as int)
            } else {
                (self.root_entries * 32) / (self.bytes_per_sec as int) + 1
            }),
    {
        let bytes: u16 = self.root_entries * 32;
        let q = bytes / self.bytes_per_sec;
        if bytes % self.bytes_per_sec != 0 {
            q + 1
        } else {
            q
        }
    }
}

/// Logical block address of a (cylinder, head, 1-based sector) triple.
pub open spec fn chs_lba(cyl: u8, head: u8, sec_id: u8, spt: u16, heads: u16) -> int {
    (cyl * heads + head) * spt + (if sec_id >= 1 { sec_id - 1 } else { 0 })
}

fn chs_to_lba(cyl: u8, head: u8, sec_id: u8, secs_per_track: u16, num_heads: u16) -> (r: u16)
    requires
        secs_per_track <= 18,
        num_heads <= 2,
    ensures
        r as int == chs_lba(cyl, head, sec_id, secs_per_track, num_heads),
{
    let c = cyl as u16;
    let h = head as u16;
    let s: u16 = if sec_id >= 1 {
        (sec_id - 1) as u16
    } else {
        0
    };
    assert((c * num_heads + h) * secs_per_track + s <= 65535) by (nonlinear_arith)
        requires
            c <= 255,
            h <= 255,
            s <= 254,
            num_heads <= 2,
            secs_per_track <= 18,
    ;
    (c * num_heads + h) * secs_per_track + s
}

/// First 132 bytes of the DOS boot sector: jump, OEM name, BIOS parameter
/// block, extended boot record, volume label, filesystem type and message.
pub open spec fn dos_header(g: DosGeometry) -> Seq<u8> {
    seq![0xEBu8, 0x3C, 0x90, 77, 83, 68, 79, 83, 53, 46, 48]
        + le16(g.bytes_per_sec) + seq![g.secs_per_cluster] + le16(g.reserved_secs) + seq![g.num_fats]
        + le16(g.root_entries) + le16(g.total_secs) + seq![g.media_desc] + le16(g.secs_per_fat)
        + le16(g.secs_per_track) + le16(g.num_heads) + fill_seq(8, 0) + seq![0x00u8, 0x00, 0x29]
        + seq![0x85u8, 0x19, 0x11, 0x24] + seq![78u8, 79, 32, 78, 65, 77, 69, 32, 32, 32, 32]
        + seq![70u8, 65, 84, 49, 50, 32, 32, 32] + dos_boot_message()
}

/// "Non-system disk or disk error\r\nReplace and strike any key when ready\r\n"
pub open spec fn dos_boot_message() -> Seq<u8> {
    seq![
        78u8, 111, 110, 45, 115, 121, 115, 116, 101, 109, 32, 100, 105, 115, 107, 32, 111, 114, 32,
        100, 105, 115, 107, 32, 101, 114, 114, 111, 114, 13, 10, 82, 101, 112, 108, 97, 99, 101,
        32, 97, 110, 100, 32, 115, 116, 114, 105, 107, 101, 32, 97, 110, 121, 32, 107, 101, 121,
        32, 119, 104, 101, 110, 32, 114, 101, 97, 100, 121, 13, 10,
    ]
}

/// DOS boot sector: header, zero padding, signature 0x55 0xAA.
pub open spec fn dos_boot_sector(g: DosGeometry) -> Seq<u8> {
    overlay(overlay(fill_seq(512, 0), 0, dos_header(g)), 510, seq![0x55u8, 0xAA])
}

/// First sector of a FAT: media descriptor and two 0xFF bytes, then zeros.
pub open spec fn fat_first_sector(media: u8) -> Seq<u8> {
    overlay(fill_seq(512, 0), 0, seq![media, 0xFFu8, 0xFF])
}

/// PC DOS payload of a sector.
pub open spec fn pc_dos_payload(p: PresetProfile, cyl: u8, head: u8, sec_id: u8) -> Seq<u8> {
    let g = dos_geometry(p);
    let lba = chs_lba(cyl, head, sec_id, g.secs_per_track, g.num_heads);
    if lba == 0 {
        dos_boot_sector(g)
    } else if lba == g.reserved_secs || lba == g.reserved_secs + g.secs_per_fat {
        fat_first_sector(g.media_desc)
    } else {
        fill_seq(512, 0)
    }
}

/// Big-endian 16-bit word `i` of a byte sequence.
pub open spec fn be_word16(s: Seq<u8>, i: int) -> int {
    s[2 * i] * 256 + s[2 * i + 1]
}

/// Sum of the first `n` big-endian 16-bit words.
pub open spec fn word16_sum(s: Seq<u8>, n: nat) -> int
    decreases n,
{
    if n == 0 {
        0
    } else {
        word16_sum(s, (n - 1) as nat) + be_word16(s, n - 1)
    }
}

/// Atari TOS BIOS parameter block (bytes 0..30).
pub open spec fn atari_header() -> Seq<u8> {
    seq![0x60u8, 0x38, 65, 76, 73, 71, 78, 68, 0x12, 0x34, 0x56] + le16(512) + seq![2u8] + le16(1)
        + seq![2u8] + le16(112) + le16(1440) + seq![0xF9u8] + le16(5) + le16(9) + le16(2) + le16(0)
}

/// Atari boot sector before the checksum word.
pub open spec fn atari_boot_base() -> Seq<u8> {
    overlay(fill_seq(512, 0), 0, atari_header())
}

/// The checksum word making the 256-word sum equal 0x1234.
pub open spec fn atari_checksum_word(base: Seq<u8>) -> u16 {
    ((0x1234 - word16_sum(base, 255)) % 0x10000) as u16
}

/// Atari boot sector with its checksum word.
pub open spec fn atari_boot_sector() -> Seq<u8> {
    overlay(atari_boot_base(), 510, be16(atari_checksum_word(atari_boot_base())))
}

/// Atari TOS payload of a sector.
pub open spec fn atari_payload(cyl: u8, head: u8, sec_id: u8) -> Seq<u8> {
    let lba = chs_lba(cyl, head, sec_id, 9, 2);
    if lba == 0 {
        atari_boot_sector()
    } else if lba == 1 || lba == 6 {
        fat_first_sector(0xF9)
    } else {
        fill_seq(512, 0)
    }
}

/// Big-endian 32-bit longword `i` of a byte sequence.
pub open spec fn be_word32(s: Seq<u8>, i: int) -> int {
    s[4 * i] * 0x100_0000 + s[4 * i + 1] * 0x1_0000 + s[4 * i + 2] * 0x100 + s[4 * i + 3]
}

/// Sum of the first `n` longwords, leaving out longword `skip`.
pub open spec fn word32_sum_except(s: Seq<u8>, n: nat, skip: int) -> int
    decreases n,
{
    if n == 0 {
        0
    } else {
        word32_sum_except(s, (n - 1) as nat, skip) + if n - 1 == skip {
            0
        } else {
            be_word32(s, n - 1)
        }
    }
}

/// Amiga block checksum: makes the 128-longword sum zero modulo 2^32.
pub open spec fn amiga_block_checksum_spec(block: Seq<u8>, skip: int) -> u32 {
    ((0x1_0000_0000 - word32_sum_except(block, 128, skip) % 0x1_0000_0000) % 0x1_0000_0000) as u32
}

/// Addition with end-around carry (ones' complement).
pub open spec fn ea_add(a: int, b: int) -> int {
    if a + b >= 0x1_0000_0000 {
        a + b - 0x1_0000_0000 + 1
    } else {
        a + b
    }
}

/// End-around-carry sum of the first `n` longwords, leaving out `skip`.
pub open spec fn ea_sum_except(s: Seq<u8>, n: nat, skip: int) -> int
    decreases n,
{
    if n == 0 {
        0
    } else if n - 1 == skip {
        ea_sum_except(s, (n - 1) as nat, skip)
    } else {
        ea_add(ea_sum_except(s, (n - 1) as nat, skip), be_word32(s, n - 1))
    }
}

/// Amiga boot block checksum: ones' complement of the end-around-carry sum
/// of the 256 longwords other than longword 1.
pub open spec fn amiga_boot_checksum_spec(blocks: Seq<u8>) -> u32 {
    (0xFFFF_FFFF - ea_sum_except(blocks, 256, 1)) as u32
}

fn be_word_at(b: &[u8], i: usize) -> (w: u32)
    requires
        4 * i + 3 < b@.len(),
    ensures
        w as int == be_word32(b@, i as int),
{
    let n = b.len();
    let o = i * 4;
    (b[o] as u32) * 0x100_0000 + (b[o + 1] as u32) * 0x1_0000 + (b[o + 2] as u32) * 0x100 + (b[o
        + 3] as u32)
}

/// Amiga boot block checksum over 256 longwords (blocks 0 and 1).
pub fn compute_amiga_boot_checksum(boot_blocks: &[u8; 1024]) -> (r: u32)
    ensures
        r == amiga_boot_checksum_spec(boot_blocks@),
{
    let mut sum: u32 = 0;
    let mut i: usize = 0;
    while i < 256
        invariant
            i <= 256,
            boot_blocks@.len() == 1024,
            sum as int == ea_sum_except(boot_blocks@, i as nat, 1),
        decreases 256 - i,
    {
        if i != 1 {
            let lw = be_word_at(boot_blocks, i);
            let s: u64 = sum as u64 + lw as u64;
            if s >= 0x1_0000_0000 {
                sum = (s - 0x1_0000_0000 + 1) as u32;
            } else {
                sum = s as u32;
            }
        }
        i = i + 1;
    }
    0xFFFF_FFFFu32 - sum
}

/// Amiga block checksum: the value that makes the sum of all 128 longwords
/// zero (modulo 2^32) when stored at longword `chk_offset_lw`.
pub fn compute_amiga_block_checksum(block: &[u8; 512], chk_offset_lw: usize) -> (r: u32)
    ensures
        r == amiga_block_checksum_spec(block@, chk_offset_lw as int),
{
    let mut sum: u64 = 0;
    let mut i: usize = 0;
    while i < 128
        invariant
            i <= 128,
            block@.len() == 512,
            sum as int == word32_sum_except(block@, i as nat, chk_offset_lw as int),
            sum <= i * 0x1_0000_0000,
        decreases 128 - i,
    {
        if i != chk_offset_lw {
            let lw = be_word_at(block, i);
            sum = sum + lw as u64;
        }
        i = i + 1;
    }
    let m: u64 = sum % 0x1_0000_0000;
    ((0x1_0000_0000 - m) % 0x1_0000_0000) as u32
}

/// AmigaDOS boot block 0 before its checksum: "DOS\0" and root block 880.
pub open spec fn amiga_boot_base() -> Seq<u8> {
    overlay(overlay(fill_seq(512, 0), 0, seq![68u8, 79, 83, 0]), 8, be32(880))
}

/// AmigaDOS boot block 0 with its checksum (computed over blocks 0 and 1,
/// block 1 being all zeros).
pub open spec fn amiga_boot_block() -> Seq<u8> {
    overlay(amiga_boot_base(), 4, be32(amiga_boot_checksum_spec(amiga_boot_base() + fill_seq(512, 0))))
}

/// AmigaDOS root block (880) before its checksum.
pub open spec fn amiga_root_base() -> Seq<u8> {
    let z = fill_seq(512, 0);
    let a = overlay(z, 0, be32(2));
    let b = overlay(a, 4, be32(0));
    let c = overlay(b, 12, be32(72));
    let d = overlay(c, 312, be32(0xFFFF_FFFF));
    let e = overlay(d, 316, be32(881));
    let f = overlay(e, 444, be32(17700));
    let g = overlay(f, 448, be32(720));
    let h = overlay(g, 452, be32(0));
    let i = overlay(h, 456, seq![5u8, 69, 109, 112, 116, 121]);
    overlay(i, 508, be32(1))
}

/// AmigaDOS root block with its checksum at longword 5.
pub open spec fn amiga_root_block() -> Seq<u8> {
    overlay(amiga_root_base(), 20, be32(amiga_block_checksum_spec(amiga_root_base(), 5)))
}

/// Bitmap longword `lw` (1..=55): all blocks free except 0, 1, 880 and 881.
pub open spec fn amiga_bitmap_word(lw: int) -> u32 {
    if lw == 1 {
        0xFFFF_FFFCu32
    } else if lw == 28 {
        0xFFFC_FFFFu32
    } else {
        0xFFFF_FFFFu32
    }
}

/// Bitmap block with longwords 1..=n written.
pub open spec fn amiga_bitmap_upto(n: nat) -> Seq<u8>
    decreases n,
{
    if n == 0 {
        fill_seq(512, 0)
    } else {
        overlay(amiga_bitmap_upto((n - 1) as nat), (4 * n) as int, be32(amiga_bitmap_word(n as int)))
    }
}

/// AmigaDOS bitmap block (881) with its checksum at longword 0.
pub open spec fn amiga_bitmap_block() -> Seq<u8> {
    overlay(amiga_bitmap_upto(55), 0, be32(amiga_block_checksum_spec(amiga_bitmap_upto(55), 0)))
}

/// Block number of a sector on an 880K Amiga disk.
pub open spec fn amiga_block_num(cyl: u8, head: u8, sec_id: u8) -> int {
    (cyl * 2 + head) * 11 + sec_id
}

/// AmigaDOS OFS payload of a sector.
pub open spec fn amiga_payload(cyl: u8, head: u8, sec_id: u8) -> Seq<u8> {
    let bn = amiga_block_num(cyl, head, sec_id);
    if bn == 0 {
        amiga_boot_block()
    } else if bn == 880 {
        amiga_root_block()
    } else if bn == 881 {
        amiga_bitmap_block()
    } else {
        fill_seq(512, 0)
    }
}

/// The 512 bytes written into a sector when formatting.
pub open spec fn sector_payload_spec(p: PresetProfile, cyl: u8, head: u8, sec_id: u8, mode: FsInitMode) -> Seq<u8> {
    if mode == FsInitMode::Blank {
        fill_seq(512, 0xE5)
    } else {
        match p {
            PresetProfile::Atari35Dd => atari_payload(cyl, head, sec_id),
            PresetProfile::Amiga35Dd => amiga_payload(cyl, head, sec_id),
            PresetProfile::Cpc30Data => fill_seq(512, 0xE5),
            _ => pc_dos_payload(p, cyl, head, sec_id),
        }
    }
}

fn fill_block(out: &mut [u8; 512], b: u8)
    ensures
        final(out)@ == fill_seq(512, b),
{
    let mut i: usize = 0;
    while i < 512
        invariant
            i <= 512,
            out@.len() == 512,
            forall|k: int| 0 <= k < i ==> #[trigger] out@[k] == b,
        decreases 512 - i,
    {
        out[i] = b;
        i = i + 1;
    }
    assert(out@ =~= fill_seq(512, b));
}

fn put_bytes(out: &mut [u8; 512], off: usize, data: &[u8])
    requires
        off + data@.len() <= 512,
    ensures
        final(out)@ == overlay(old(out)@, off as int, data@),
{
    let mut k: usize = 0;
    let n = data.len();
    while k < n
        invariant
            k <= n,
            n == data@.len(),
            off + n <= 512,
            out@.len() == 512,
            forall|j: int| 0 <= j < off ==> #[trigger] out@[j] == old(out)@[j],
            forall|j: int| off + n <= j < 512 ==> #[trigger] out@[j] == old(out)@[j],
            forall|j: int| off + k <= j < off + n ==> #[trigger] out@[j] == old(out)@[j],
            forall|j: int| 0 <= j < k ==> #[trigger] out@[off + j] == data@[j],
        decreases n - k,
    {
        out[off + k] = data[k];
        k = k + 1;
    }
    assert forall|j: int| off <= j < off + n implies out@[j] == data@[j - off] by {
        assert(out@[off + (j - off)] == data@[j - off]);
    }
    assert(out@ =~= overlay(old(out)@, off as int, data@));
}

fn put_be32(out: &mut [u8; 512], off: usize, v: u32)
    requires
        off + 4 <= 512,
    ensures
        final(out)@ == overlay(old(out)@, off as int, be32(v)),
{
    let bytes = vec![(v / 0x100_0000) as u8, ((v / 0x1_0000) % 256) as u8, ((v / 256) % 256) as u8, (v % 256) as u8];
    assert(bytes@ =~= be32(v));
    put_bytes(out, off, bytes.as_slice());
}

fn generate_pc_dos_payload(preset: PresetProfile, cyl: u8, head: u8, sector_id: u8, out: &mut [u8; 512])
    ensures
        final(out)@ == pc_dos_payload(preset, cyl, head, sector_id),
{
    let geom = DosGeometry::for_preset(preset);
    let lba = chs_to_lba(cyl, head, sector_id, geom.secs_per_track, geom.num_heads);
    let fat1_start = geom.reserved_secs;
    let fat1_end = fat1_start + geom.secs_per_fat;
    let fat2_start = fat1_end;
    let fat2_end = fat2_start + geom.secs_per_fat;
    fill_block(out, 0x00);
    if lba == 0 {
        let g = &geom;
        let mut header: Vec<u8> = vec![0xEBu8, 0x3C, 0x90, 77, 83, 68, 79, 83, 53, 46, 48,
            (g.bytes_per_sec % 256) as u8, (g.bytes_per_sec / 256) as u8, g.secs_per_cluster,
            (g.reserved_secs % 256) as u8, (g.reserved_secs / 256) as u8, g.num_fats,
            (g.root_entries % 256) as u8, (g.root_entries / 256) as u8,
            (g.total_secs % 256) as u8, (g.total_secs / 256) as u8, g.media_desc,
            (g.secs_per_fat % 256) as u8, (g.secs_per_fat / 256) as u8,
            (g.secs_per_track % 256) as u8, (g.secs_per_track / 256) as u8,
            (g.num_heads % 256) as u8, (g.num_heads / 256) as u8,
            0, 0, 0, 0, 0, 0, 0, 0, 0x00, 0x00, 0x29, 0x85, 0x19, 0x11, 0x24,
            78, 79, 32, 78, 65, 77, 69, 32, 32, 32, 32, 70, 65, 84, 49, 50, 32, 32, 32,
            78, 111, 110, 45, 115, 121, 115, 116, 101, 109, 32, 100, 105, 115, 107, 32, 111, 114, 32,
            100, 105, 115, 107, 32, 101, 114, 114, 111, 114, 13, 10, 82, 101, 112, 108, 97, 99, 101,
            32, 97, 110, 100, 32, 115, 116, 114, 105, 107, 101, 32, 97, 110, 121, 32, 107, 101, 121,
            32, 119, 104, 101, 110, 32, 114, 101, 97, 100, 121, 13, 10];
        assert(header@ =~= dos_header(geom));
        put_bytes(out, 0, header.as_slice());
        let sig = vec![0x55u8, 0xAA];
        put_bytes(out, 510, sig.as_slice());
        assert(sig@ =~= seq![0x55u8, 0xAA]);
    } else if lba >= fat1_start && lba < fat1_end {
        if lba == fat1_start {
            let m = vec![geom.media_desc, 0xFF, 0xFF];
            put_bytes(out, 0, m.as_slice());
            assert(m@ =~= seq![geom.media_desc, 0xFFu8, 0xFF]);
        }
    } else if lba >= fat2_start && lba < fat2_end {
        if lba == fat2_start {
            let m = vec![geom.media_desc, 0xFF, 0xFF];
            put_bytes(out, 0, m.as_slice());
            assert(m@ =~= seq![geom.media_desc, 0xFFu8, 0xFF]);
        }
    }
}

proof fn lemma_word16_sum_prefix(a: Seq<u8>, b: Seq<u8>, n: nat)
    requires
        2 * n <= a.len(),
        2 * n <= b.len(),
        a.subrange(0, (2 * n) as int) == b.subrange(0, (2 * n) as int),
    ensures
        word16_sum(a, n) == word16_sum(b, n),
    decreases n,
{
    if n > 0 {
        let m: int = (2 * n) as int;
        let k: int = 2 * (n - 1);
        assert(a.subrange(0, k) =~= a.subrange(0, m).subrange(0, k));
        assert(b.subrange(0, k) =~= b.subrange(0, m).subrange(0, k));
        lemma_word16_sum_prefix(a, b, (n - 1) as nat);
        assert(a[k] == a.subrange(0, m)[k]);
        assert(b[k] == b.subrange(0, m)[k]);
        assert(a[k + 1] == a.subrange(0, m)[k + 1]);
        assert(b[k + 1] == b.subrange(0, m)[k + 1]);
    }
}

fn generate_atari_tos_payload(cyl: u8, head: u8, sector_id: u8, out: &mut [u8; 512])
    ensures
        final(out)@ == atari_payload(cyl, head, sector_id),
{
    let secs_per_track: u16 = 9;
    let num_heads: u16 = 2;
    let lba = chs_to_lba(cyl, head, sector_id, secs_per_track, num_heads);
    let reserved_secs: u16 = 1;
    let secs_per_fat: u16 = 5;
    let fat1_start = reserved_secs;
    let fat1_end = fat1_start + secs_per_fat;
    let fat2_start = fat1_end;
    let fat2_end = fat2_start + secs_per_fat;
    fill_block(out, 0x00);
    if lba == 0 {
        let header: Vec<u8> = vec![0x60u8, 0x38, 65, 76, 73, 71, 78, 68, 0x12, 0x34, 0x56,
            0x00, 0x02, 2, 0x01, 0x00, 2, 112, 0x00, 0xA0, 0x05, 0xF9, 0x05, 0x00, 0x09, 0x00,
            0x02, 0x00, 0x00, 0x00];
        assert(header@ =~= atari_header());
        put_bytes(out, 0, header.as_slice());
        assert(out@ == atari_boot_base());
        let mut sum: u32 = 0;
        let mut i: usize = 0;
        while i < 255
            invariant
                i <= 255,
                out@ == atari_boot_base(),
                out@.len() == 512,
                sum as int == word16_sum(out@, i as nat),
                sum <= i * 65535,
            decreases 255 - i,
        {
            let offset = i * 2;
            let word: u32 = (out[offset] as u32) * 256 + (out[offset + 1] as u32);
            sum = sum + word;
            i = i + 1;
        }
        let chk_word: u16 = ((0x1234u32 + 0x10000u32 * 256 - sum) % 0x10000u32) as u16;
        proof {
            let x = 0x1234int - sum as int;
            assert((x + 0x10000 * 256) % 0x10000 == x % 0x10000) by (nonlinear_arith);
        }
        assert(chk_word == atari_checksum_word(atari_boot_base()));
        let tail = vec![(chk_word / 256) as u8, (chk_word % 256) as u8];
        assert(tail@ =~= be16(chk_word));
        put_bytes(out, 510, tail.as_slice());
    } else if lba >= fat1_start && lba < fat1_end {
        if lba == fat1_start {
            let m = vec![0xF9u8, 0xFF, 0xFF];
            put_bytes(out, 0, m.as_slice());
            assert(m@ =~= seq![0xF9u8, 0xFF, 0xFF]);
        }
    } else if lba >= fat2_start && lba < fat2_end {
        if lba == fat2_start {
            let m = vec![0xF9u8, 0xFF, 0xFF];
            put_bytes(out, 0, m.as_slice());
            assert(m@ =~= seq![0xF9u8, 0xFF, 0xFF]);
        }
    }
}

fn generate_amiga_payload(cyl: u8, head: u8, sector_id: u8, out: &mut [u8; 512])
    ensures
        final(out)@ == amiga_payload(cyl, head, sector_id),
{
    let block_num: u32 = ((cyl as u32) * 2 + (head as u32)) * 11 + (sector_id as u32);
    fill_block(out, 0x00);
    if block_num == 0 {
        let dos = vec![68u8, 79, 83, 0];
        put_bytes(out, 0, dos.as_slice());
        assert(dos@ =~= seq![68u8, 79, 83, 0]);
        put_be32(out, 8, 880);
        assert(out@ == amiga_boot_base());
        let mut two_blocks = [0u8; 1024];
        let mut i: usize = 0;
        while i < 512
            invariant
                i <= 512,
                out@.len() == 512,
                two_blocks@.len() == 1024,
                forall|k: int| 0 <= k < i ==> #[trigger] two_blocks@[k] == out@[k],
                forall|k: int| 512 <= k < 1024 ==> #[trigger] two_blocks@[k] == 0u8,
            decreases 512 - i,
        {
            two_blocks[i] = out[i];
            i = i + 1;
        }
        assert(two_blocks@ =~= amiga_boot_base() + fill_seq(512, 0));
        let chk = compute_amiga_boot_checksum(&two_blocks);
        put_be32(out, 4, chk);
    } else if block_num == 1 {
    } else if block_num == 880 {
        put_be32(out, 0, 2);
        put_be32(out, 4, 0);
        put_be32(out, 12, 72);
        put_be32(out, 312, 0xFFFF_FFFF);
        put_be32(out, 316, 881);
        put_be32(out, 444, 17700);
        put_be32(out, 448, 720);
        put_be32(out, 452, 0);
        let name = vec![5u8, 69, 109, 112, 116, 121];
        put_bytes(out, 456, name.as_slice());
        assert(name@ =~= seq![5u8, 69, 109, 112, 116, 121]);
        put_be32(out, 508, 1);
        assert(out@ == amiga_root_base());
        let chk = compute_amiga_block_checksum(out, 5);
        put_be32(out, 20, chk);
    } else if block_num == 881 {
        let mut lw_idx: usize = 1;
        while lw_idx <= 55
            invariant
                1 <= lw_idx <= 56,
                out@ == amiga_bitmap_upto((lw_idx - 1) as nat),
            decreases 56 - lw_idx,
        {
            let val: u32 = if lw_idx == 1 {
                0xFFFF_FFFCu32
            } else if lw_idx == 28 {
                0xFFFC_FFFFu32
            } else {
                0xFFFF_FFFFu32
            };
            put_be32(out, lw_idx * 4, val);
            lw_idx = lw_idx + 1;
        }
        let chk = compute_amiga_block_checksum(out, 0);
        put_be32(out, 0, chk);
    }
}

/// Generates the 512-byte payload of a sector: 0xE5 fill in Blank mode,
/// otherwise the filesystem structures of the preset.
pub fn generate_sector_payload(
    preset: PresetProfile,
    cyl: u8,
    head: u8,
    sector_id: u8,
    fs_mode: FsInitMode,
    out: &mut [u8; 512],
)
    ensures
        final(out)@ == sector_payload_spec(preset, cyl, head, sector_id, fs_mode),
{
    fill_block(out, 0xE5);
    if fs_mode == FsInitMode::Blank {
        return;
    }
    match preset {
        PresetProfile::Pc35Hd => generate_pc_dos_payload(preset, cyl, head, sector_id, out),
        PresetProfile::Pc35Dd => generate_pc_dos_payload(preset, cyl, head, sector_id, out),
        PresetProfile::Pc525Hd => generate_pc_dos_payload(preset, cyl, head, sector_id, out),
        PresetProfile::Pc525DdOnHd | PresetProfile::Pc525Dd => {
            generate_pc_dos_payload(preset, cyl, head, sector_id, out)
        },
        PresetProfile::Atari35Dd => generate_atari_tos_payload(cyl, head, sector_id, out),
        PresetProfile::Amiga35Dd => generate_amiga_payload(cyl, head, sector_id, out),
        PresetProfile::Cpc30Data => {
            fill_block(out, 0xE5);
        },
    }
}


proof fn lemma_be32_roundtrip(v: u32)
    ensures
        be_word32(be32(v), 0) == v,
{
    let a: u32 = v / 0x100_0000;
    let b: u32 = (v / 0x1_0000) % 256;
    let c: u32 = (v / 256) % 256;
    let d: u32 = v % 256;
    assert(a * 0x100_0000 + b * 0x1_0000 + c * 0x100 + d == v) by (bit_vector)
        requires
            a == v / 0x100_0000,
            b == (v / 0x1_0000) % 256,
            c == (v / 256) % 256,
            d == v % 256,
    ;
    assert(a < 256 && b < 256 && c < 256 && d < 256);
}

proof fn lemma_be16_roundtrip(v: u16)
    ensures
        be_word16(be16(v), 0) == v,
{
}

/// Writing a longword at longword index `skip` changes that longword to `v`
/// and no other.
proof fn lemma_overlay_word32(s: Seq<u8>, skip: int, v: u32)
    requires
        0 <= skip,
        4 * skip + 4 <= s.len(),
    ensures
        overlay(s, 4 * skip, be32(v)).len() == s.len(),
        be_word32(overlay(s, 4 * skip, be32(v)), skip) == v,
        forall|i: int|
            0 <= i && 4 * i + 4 <= s.len() && i != skip ==> #[trigger] be_word32(
                overlay(s, 4 * skip, be32(v)),
                i,
            ) == be_word32(s, i),
{
    let t = overlay(s, 4 * skip, be32(v));
    assert(t.len() == s.len());
    assert forall|j: int| 0 <= j < s.len() implies #[trigger] t[j] == (if 4 * skip <= j < 4 * skip
        + 4 {
        be32(v)[j - 4 * skip]
    } else {
        s[j]
    }) by {
        if j < 4 * skip {
        } else if j < 4 * skip + 4 {
        } else {
        }
    }
    lemma_be32_roundtrip(v);
    assert(be_word32(t, skip) == be_word32(be32(v), 0));
    assert forall|i: int| 0 <= i && 4 * i + 4 <= s.len() && i != skip implies #[trigger] be_word32(
        t,
        i,
    ) == be_word32(s, i) by {
        assert(t[4 * i] == s[4 * i]);
        assert(t[4 * i + 1] == s[4 * i + 1]);
        assert(t[4 * i + 2] == s[4 * i + 2]);
        assert(t[4 * i + 3] == s[4 * i + 3]);
    }
}

/// Summing all longwords of a block whose longwords equal those of `s` except
/// at `skip` gives the sum of `s` without `skip`, plus the new longword.
proof fn lemma_word32_sum_replace(s: Seq<u8>, t: Seq<u8>, n: nat, skip: int)
    requires
        0 <= skip < n,
        forall|i: int| 0 <= i < n && i != skip ==> #[trigger] be_word32(t, i) == be_word32(s, i),
    ensures
        word32_sum_except(t, n, -1) == word32_sum_except(s, n, skip) + be_word32(t, skip),
    decreases n,
{
    if n - 1 == skip {
        lemma_word32_sum_same(s, t, (n - 1) as nat, skip);
    } else {
        lemma_word32_sum_replace(s, t, (n - 1) as nat, skip);
    }
}

proof fn lemma_word32_sum_same(s: Seq<u8>, t: Seq<u8>, n: nat, skip: int)
    requires
        skip >= n,
        forall|i: int| 0 <= i < n ==> #[trigger] be_word32(t, i) == be_word32(s, i),
    ensures
        word32_sum_except(t, n, -1) == word32_sum_except(s, n, skip),
    decreases n,
{
    if n > 0 {
        lemma_word32_sum_same(s, t, (n - 1) as nat, skip);
    }
}

/// Storing the Amiga block checksum at its longword makes the sum of all
/// 128 longwords of the block zero modulo 2^32.
pub proof fn lemma_amiga_block_checksum_zeroes_sum(block: Seq<u8>, skip: int)
    requires
        block.len() == 512,
        0 <= skip < 128,
    ensures
        word32_sum_except(
            overlay(block, 4 * skip, be32(amiga_block_checksum_spec(block, skip))),
            128,
            -1,
        ) % 0x1_0000_0000 == 0,
{
    let c = amiga_block_checksum_spec(block, skip);
    let t = overlay(block, 4 * skip, be32(c));
    lemma_overlay_word32(block, skip, c);
    lemma_word32_sum_replace(block, t, 128, skip);
    let w = word32_sum_except(block, 128, skip);
    lemma_word32_sum_nonneg(block, 128, skip);
    let m = w % 0x1_0000_0000;
    assert(c == (0x1_0000_0000 - m) % 0x1_0000_0000);
    assert((w + c) % 0x1_0000_0000 == 0) by (nonlinear_arith)
        requires
            w >= 0,
            m == w % 0x1_0000_0000,
            c == (0x1_0000_0000 - m) % 0x1_0000_0000,
    ;
}

proof fn lemma_word32_sum_nonneg(s: Seq<u8>, n: nat, skip: int)
    ensures
        word32_sum_except(s, n, skip) >= 0,
    decreases n,
{
    if n > 0 {
        lemma_word32_sum_nonneg(s, (n - 1) as nat, skip);
    }
}

/// The end-around-carry sum stays within 32 bits, differs from the plain sum
/// by a multiple of 2^32 - 1, and is zero exactly when the plain sum is.
proof fn lemma_ea_sum_tracks_sum(s: Seq<u8>, n: nat, skip: int)
    ensures
        0 <= ea_sum_except(s, n, skip) <= 0xFFFF_FFFF,
        ea_sum_except(s, n, skip) <= word32_sum_except(s, n, skip),
        (word32_sum_except(s, n, skip) - ea_sum_except(s, n, skip)) % 0xFFFF_FFFF == 0,
        ea_sum_except(s, n, skip) == 0 <==> word32_sum_except(s, n, skip) == 0,
    decreases n,
{
    if n > 0 {
        lemma_ea_sum_tracks_sum(s, (n - 1) as nat, skip);
        lemma_word32_sum_nonneg(s, (n - 1) as nat, skip);
        if n - 1 != skip {
            let e = ea_sum_except(s, (n - 1) as nat, skip);
            let w = word32_sum_except(s, (n - 1) as nat, skip);
            let x = be_word32(s, n - 1);
            assert(0 <= x <= 0xFFFF_FFFF) by {
                assert(0 <= s[4 * (n - 1)] < 256);
                assert(0 <= s[4 * (n - 1) + 1] < 256);
                assert(0 <= s[4 * (n - 1) + 2] < 256);
                assert(0 <= s[4 * (n - 1) + 3] < 256);
            }
            if e + x >= 0x1_0000_0000 {
                vstd::arithmetic::div_mod::lemma_mod_add_multiples_vanish(w - e, 0xFFFF_FFFF);
                assert((w + x) - (e + x - 0x1_0000_0000 + 1) == 0xFFFF_FFFF + (w - e));
            } else {
                assert((w + x) - (e + x) == w - e);
            }
        }
    }
}

/// Storing the Amiga boot block checksum at longword 1 makes the
/// end-around-carry sum of all 256 longwords of blocks 0 and 1 equal
/// 0xFFFFFFFF.
pub proof fn lemma_amiga_boot_checksum_sums_to_all_ones(blocks: Seq<u8>)
    requires
        blocks.len() == 1024,
    ensures
        ea_sum_except(overlay(blocks, 4, be32(amiga_boot_checksum_spec(blocks))), 256, -1)
            == 0xFFFF_FFFF,
{
    let c = amiga_boot_checksum_spec(blocks);
    let t = overlay(blocks, 4, be32(c));
    lemma_overlay_word32(blocks, 1, c);
    assert(overlay(blocks, 4 * 1int, be32(c)) == t);
    lemma_word32_sum_replace(blocks, t, 256, 1);
    lemma_ea_sum_tracks_sum(blocks, 256, 1);
    lemma_ea_sum_tracks_sum(t, 256, -1);
    let big_s = ea_sum_except(blocks, 256, 1);
    let big_t = word32_sum_except(blocks, 256, 1);
    let f = ea_sum_except(t, 256, -1);
    let wf = word32_sum_except(t, 256, -1);
    assert(wf == big_t + c);
    assert(c == 0xFFFF_FFFF - big_s);
    let m: int = 0xFFFF_FFFF;
    vstd::arithmetic::div_mod::lemma_fundamental_div_mod(wf - f, m);
    vstd::arithmetic::div_mod::lemma_fundamental_div_mod(big_t - big_s, m);
    let q1 = (wf - f) / m;
    let q2 = (big_t - big_s) / m;
    assert(f == m * (q2 + 1 - q1)) by (nonlinear_arith)
        requires
            wf - f == m * q1,
            big_t - big_s == m * q2,
            wf == big_t + c,
            c == m - big_s,
    ;
    assert(f == 0 || f == m) by (nonlinear_arith)
        requires
            f == m * (q2 + 1 - q1),
            0 <= f <= m,
            m == 0xFFFF_FFFF,
    ;
    if f == 0 {
        lemma_word32_sum_nonneg(blocks, 256, 1);
        assert(wf == 0);
        assert(big_t == 0 && c == 0);
        assert(big_s == 0);
        assert(false);
    }
}

/// Storing the Atari checksum word at bytes 510..512 makes the 16-bit sum of
/// all 256 big-endian words of the boot sector equal 0x1234.
pub proof fn lemma_atari_checksum_sums_to_1234(base: Seq<u8>)
    requires
        base.len() == 512,
    ensures
        word16_sum(overlay(base, 510, be16(atari_checksum_word(base))), 256) % 0x10000 == 0x1234,
{
    let c = atari_checksum_word(base);
    let t = overlay(base, 510, be16(c));
    assert(t.subrange(0, 510) =~= base.subrange(0, 510));
    lemma_word16_sum_prefix(t, base, 255);
    lemma_be16_roundtrip(c);
    assert(t[510] == be16(c)[0]);
    assert(t[511] == be16(c)[1]);
    assert(be_word16(t, 255) == be_word16(be16(c), 0));
    let w = word16_sum(base, 255);
    assert(c == (0x1234 - w) % 0x10000);
    assert((w + c) % 0x10000 == 0x1234) by (nonlinear_arith)
        requires
            c == (0x1234 - w) % 0x10000,
    ;
}

/// Every OS-ready Atari boot sector (logical sector 0) carries a valid TOS
/// boot checksum.
pub proof fn lemma_atari_boot_sector_checksum(cyl: u8, head: u8, sec_id: u8)
    requires
        chs_lba(cyl, head, sec_id, 9, 2) == 0,
    ensures
        word16_sum(
            sector_payload_spec(PresetProfile::Atari35Dd, cyl, head, sec_id, FsInitMode::OsReady),
            256,
        ) % 0x10000 == 0x1234,
{
    assert(atari_boot_base().len() == 512);
    lemma_atari_checksum_sums_to_1234(atari_boot_base());
}

/// The OS-ready AmigaDOS root block (880) and bitmap block (881) both have a
/// longword sum of zero modulo 2^32.
pub proof fn lemma_amiga_root_and_bitmap_checksums(cyl: u8, head: u8, sec_id: u8)
    requires
        amiga_block_num(cyl, head, sec_id) == 880 || amiga_block_num(cyl, head, sec_id) == 881,
    ensures
        word32_sum_except(
            sector_payload_spec(PresetProfile::Amiga35Dd, cyl, head, sec_id, FsInitMode::OsReady),
            128,
            -1,
        ) % 0x1_0000_0000 == 0,
{
    if amiga_block_num(cyl, head, sec_id) == 880 {
        assert(amiga_root_base().len() == 512);
        lemma_amiga_block_checksum_zeroes_sum(amiga_root_base(), 5);
        assert(overlay(amiga_root_base(), 4 * 5int, be32(amiga_block_checksum_spec(amiga_root_base(), 5)))
            == amiga_root_block());
    } else {
        lemma_amiga_bitmap_len(55);
        lemma_amiga_block_checksum_zeroes_sum(amiga_bitmap_upto(55), 0);
        assert(overlay(amiga_bitmap_upto(55), 4 * 0int, be32(amiga_block_checksum_spec(amiga_bitmap_upto(55), 0)))
            == amiga_bitmap_block());
    }
}

proof fn lemma_amiga_bitmap_len(n: nat)
    requires
        n <= 127,
    ensures
        amiga_bitmap_upto(n).len() == 512,
    decreases n,
{
    if n > 0 {
        lemma_amiga_bitmap_len((n - 1) as nat);
    }
}

/// The OS-ready AmigaDOS boot blocks 0 and 1, taken together, have an
/// end-around-carry longword sum of 0xFFFFFFFF.
pub proof fn lemma_amiga_boot_blocks_checksum()
    ensures
        ea_sum_except(
            sector_payload_spec(PresetProfile::Amiga35Dd, 0, 0, 0, FsInitMode::OsReady)
                + sector_payload_spec(PresetProfile::Amiga35Dd, 0, 0, 1, FsInitMode::OsReady),
            256,
            -1,
        ) == 0xFFFF_FFFF,
{
    let base = amiga_boot_base() + fill_seq(512, 0);
    assert(amiga_boot_base().len() == 512);
    lemma_amiga_boot_checksum_sums_to_all_ones(base);
    let c = amiga_boot_checksum_spec(base);
    assert(overlay(base, 4, be32(c)) =~= amiga_boot_block() + fill_seq(512, 0));
}

} // verus!
