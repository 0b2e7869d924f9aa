use aligntester_diag::fs::{compute_amiga_block_checksum, compute_amiga_boot_checksum, generate_sector_payload, FsInitMode};
use aligntester_diag::protocol::PresetProfile;

#[test]
fn test_dos_bpb_and_fat12_generation_pc35hd() {
    let mut buf = [0u8; 512];
    generate_sector_payload(PresetProfile::Pc35Hd, 0, 0, 1, FsInitMode::OsReady, &mut buf);

    assert_eq!(&buf[0..3], &[0xEB, 0x3C, 0x90]);
    assert_eq!(&buf[3..11], b"MSDOS5.0");
    assert_eq!(u16::from_le_bytes([buf[11], buf[12]]), 512);
    assert_eq!(buf[13], 1);
    assert_eq!(u16::from_le_bytes([buf[14], buf[15]]), 1);
    assert_eq!(buf[16], 2);
    assert_eq!(u16::from_le_bytes([buf[17], buf[18]]), 224);
    assert_eq!(u16::from_le_bytes([buf[19], buf[20]]), 2880);
    assert_eq!(buf[21], 0xF0);
    assert_eq!(u16::from_le_bytes([buf[22], buf[23]]), 9);
    assert_eq!(buf[510], 0x55);
    assert_eq!(buf[511], 0xAA);

    let mut fat_buf = [0u8; 512];
    generate_sector_payload(PresetProfile::Pc35Hd, 0, 0, 2, FsInitMode::OsReady, &mut fat_buf);
    assert_eq!(fat_buf[0], 0xF0);
    assert_eq!(fat_buf[1], 0xFF);
    assert_eq!(fat_buf[2], 0xFF);
    assert_eq!(fat_buf[3], 0x00);
}

#[test]
fn test_atari_tos_bpb_and_checksum_verification() {
    let mut buf = [0u8; 512];
    generate_sector_payload(PresetProfile::Atari35Dd, 0, 0, 1, FsInitMode::OsReady, &mut buf);

    assert_eq!(buf[21], 0xF9);
    assert_eq!(u16::from_le_bytes([buf[22], buf[23]]), 5);

    let mut sum = 0u16;
    for i in 0..256 {
        let offset = i * 2;
        let word = u16::from_be_bytes([buf[offset], buf[offset + 1]]);
        sum = sum.wrapping_add(word);
    }
    assert_eq!(sum, 0x1234, "Atari ST TOS boot checksum must sum to 0x1234");
}

#[test]
fn test_amiga_bootblock_checksum_verification() {
    let mut b0 = [0u8; 512];
    let mut b1 = [0u8; 512];
    generate_sector_payload(PresetProfile::Amiga35Dd, 0, 0, 0, FsInitMode::OsReady, &mut b0);
    generate_sector_payload(PresetProfile::Amiga35Dd, 0, 0, 1, FsInitMode::OsReady, &mut b1);

    assert_eq!(&b0[0..4], b"DOS\0");

    let mut two_blocks = [0u8; 1024];
    two_blocks[0..512].copy_from_slice(&b0);
    two_blocks[512..1024].copy_from_slice(&b1);

    let mut sum: u32 = 0;
    for i in 0..256 {
        let offset = i * 4;
        let lw = u32::from_be_bytes([
            two_blocks[offset],
            two_blocks[offset + 1],
            two_blocks[offset + 2],
            two_blocks[offset + 3],
        ]);
        let (new_sum, carry) = sum.overflowing_add(lw);
        sum = new_sum.wrapping_add(if carry { 1 } else { 0 });
    }
    assert_eq!(sum, 0xFFFF_FFFF, "Amiga boot checksum must sum to 0xFFFFFFFF");
}

#[test]
fn test_amiga_rootblock_and_bitmap_block_checksums() {
    let mut root_buf = [0u8; 512];
    generate_sector_payload(PresetProfile::Amiga35Dd, 40, 0, 0, FsInitMode::OsReady, &mut root_buf);

    let primary_type = u32::from_be_bytes([root_buf[0], root_buf[1], root_buf[2], root_buf[3]]);
    assert_eq!(primary_type, 2);
    let sec_type = u32::from_be_bytes([root_buf[508], root_buf[509], root_buf[510], root_buf[511]]);
    assert_eq!(sec_type, 1);

    let mut root_sum = 0u32;
    for i in 0..128 {
        let offset = i * 4;
        let lw = u32::from_be_bytes([
            root_buf[offset],
            root_buf[offset + 1],
            root_buf[offset + 2],
            root_buf[offset + 3],
        ]);
        root_sum = root_sum.wrapping_add(lw);
    }
    assert_eq!(root_sum, 0, "Amiga RootBlock longwords sum must be 0");

    let mut bmp_buf = [0u8; 512];
    generate_sector_payload(PresetProfile::Amiga35Dd, 40, 0, 1, FsInitMode::OsReady, &mut bmp_buf);

    let mut bmp_sum = 0u32;
    for i in 0..128 {
        let offset = i * 4;
        let lw = u32::from_be_bytes([
            bmp_buf[offset],
            bmp_buf[offset + 1],
            bmp_buf[offset + 2],
            bmp_buf[offset + 3],
        ]);
        bmp_sum = bmp_sum.wrapping_add(lw);
    }
    assert_eq!(bmp_sum, 0, "Amiga BitmapBlock longwords sum must be 0");
}

#[test]
fn test_blank_mode_returns_0xe5() {
    let mut buf = [0u8; 512];
    generate_sector_payload(PresetProfile::Pc35Hd, 0, 0, 1, FsInitMode::Blank, &mut buf);
    assert!(buf.iter().all(|&b| b == 0xE5));

    generate_sector_payload(PresetProfile::Amiga35Dd, 0, 0, 0, FsInitMode::Blank, &mut buf);
    assert!(buf.iter().all(|&b| b == 0xE5));
}

#[test]
fn block_checksum_of_a_known_block() {
    let mut block = [0u8; 512];
    block[3] = 1;
    block[7] = 2;
    // Longwords 0 and 1 are 1 and 2; leaving out longword 5 the sum is 3.
    assert_eq!(compute_amiga_block_checksum(&block, 5), 0u32.wrapping_sub(3));
    // Leaving out longword 1 only longword 0 counts.
    assert_eq!(compute_amiga_block_checksum(&block, 1), 0u32.wrapping_sub(1));
}

#[test]
fn boot_checksum_with_end_around_carry() {
    let mut blocks = [0u8; 1024];
    for b in blocks[0..4].iter_mut() {
        *b = 0xFF;
    }
    blocks[11] = 2;
    // 0xFFFFFFFF + 2 carries out once: 1 + 1 = 2; the checksum is !2.
    assert_eq!(compute_amiga_boot_checksum(&blocks), !2u32);
}

#[test]
fn fs_mode_labels_and_other_presets() {
    assert_eq!(FsInitMode::Blank.toggle(), FsInitMode::OsReady);
    assert_eq!(FsInitMode::OsReady.short_label(), "OS-Ready");
    assert_eq!(FsInitMode::Blank.label(), "Blank (Raw 0xE5)");
    assert_eq!(FsInitMode::os_desc(PresetProfile::Cpc30Data), "CP/M Data");
    let mut buf = [0u8; 512];
    generate_sector_payload(PresetProfile::Cpc30Data, 0, 0, 0xC1, FsInitMode::OsReady, &mut buf);
    assert!(buf.iter().all(|&b| b == 0xE5));
    generate_sector_payload(PresetProfile::Pc35Dd, 0, 0, 5, FsInitMode::OsReady, &mut buf);
    assert_eq!(buf[0], 0xF9);
    generate_sector_payload(PresetProfile::Pc35Dd, 0, 0, 9, FsInitMode::OsReady, &mut buf);
    assert!(buf.iter().all(|&b| b == 0x00));
}
