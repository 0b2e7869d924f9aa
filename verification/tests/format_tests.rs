use aligntester_diag::crc::{compute_crc16, crc16_ccitt, crc16_update, generate_crc16_table};
use aligntester_diag::flux::{decode_gw_flux, FluxSynthesizer, WRITE_PRECOMP_TICKS};
use aligntester_diag::mfm::{decode_byte_word, generate_mfm_encode_table, mfm_encode_byte, mfm_word_to_byte};
use aligntester_diag::protocol::PresetProfile;
use aligntester_diag::ibm::decode_idam_sectors_from_bits;
use aligntester_diag::sectors::{decode_amiga_sectors_from_bits, SectorStatus};
use aligntester_diag::synth::{MfmTrackBuffer, MfmTrackEncoder, MFM_SYNC_A1_DROPPED};

#[test]
fn test_crc16_lookup_table_matches_reference() {
    let test_data = [
        vec![0x00u8; 10],
        vec![0xFFu8; 10],
        vec![0xA1, 0xA1, 0xA1, 0xFE, 0, 0, 1, 2],
        vec![0x12, 0x34, 0x56, 0x78, 0x9A, 0xBC, 0xDE, 0xF0],
    ];

    for data in test_data {
        let mut crc_table = 0xFFFFu16;
        for &b in &data {
            crc_table = crc16_update(crc_table, b);
        }

        let mut crc_ref = 0xFFFFu16;
        for &b in &data {
            crc_ref ^= (b as u16) << 8;
            for _ in 0..8 {
                if (crc_ref & 0x8000) != 0 {
                    crc_ref = (crc_ref << 1) ^ 0x1021;
                } else {
                    crc_ref <<= 1;
                }
            }
        }

        assert_eq!(crc_table, crc_ref, "CRC mismatch for {:?}", data);

        let mut full = data.clone();
        full.push((crc_table >> 8) as u8);
        full.push((crc_table & 0xFF) as u8);
        assert_eq!(compute_crc16(&full), 0, "CRC self-verification failed");
    }
}

#[test]
fn test_mfm_encode_table_rule_verification() {
    let table = generate_mfm_encode_table();
    assert_eq!(table[0][0x00], 0xAAAA);
    assert_eq!(table[1][0x00], 0x2AAA);
    assert_eq!(table[0][0xFF], 0x5555);
    assert_eq!(table[1][0xFF], 0x5555);
}

#[test]
fn test_altered_sync_a1_drop_clock_word() {
    assert_eq!(MFM_SYNC_A1_DROPPED, 0x4489);
}

#[test]
fn test_flux_synthesizer_timings_250k_300k_500k() {
    assert_eq!(FluxSynthesizer::base_tick_clock(500), 72);
    assert_eq!(FluxSynthesizer::base_tick_clock(300), 120);
    assert_eq!(FluxSynthesizer::base_tick_clock(250), 144);
}

#[test]
fn test_write_precompensation_outer_vs_inner_track() {
    let bits = vec![true, false, true, false, false, false, true];
    let mut flux_outer = Vec::new();
    let mut flux_inner = Vec::new();

    FluxSynthesizer::bits_to_flux_ticks(&bits, 500, 10, &mut flux_outer);
    FluxSynthesizer::bits_to_flux_ticks(&bits, 500, 60, &mut flux_inner);

    assert_eq!(flux_outer[0], 144);
    assert_eq!(flux_outer[1], 288);

    assert_eq!(flux_inner[0], 144 - WRITE_PRECOMP_TICKS);
    assert_eq!(flux_inner[1], 288 + WRITE_PRECOMP_TICKS);
}

#[test]
fn test_gw_flux_rle_roundtrip_decoding() {
    let sample_ticks = vec![72, 144, 216, 288, 360, 432, 576, 1200];
    let mut gw_bytes = Vec::new();
    FluxSynthesizer::flux_ticks_to_gw_bytes(&sample_ticks, &mut gw_bytes);

    let decoded = decode_gw_flux(&gw_bytes);
    assert_eq!(decoded, sample_ticks);
}

#[test]
fn test_amiga_track_encoding_and_decoder_roundtrip() {
    let mut buffer = MfmTrackBuffer::new();
    MfmTrackEncoder::encode_track_into(PresetProfile::Amiga35Dd, 12, 1, &mut buffer);

    let sectors = decode_amiga_sectors_from_bits(&buffer.bits);
    assert_eq!(sectors.len(), 11, "Should decode exactly 11 Amiga sectors");

    for (i, sec) in sectors.iter().enumerate() {
        assert_eq!(sec.cyl, 12);
        assert_eq!(sec.head, 1);
        assert_eq!(sec.sec_id, i as u8);
        assert!(sec.crc_ok, "Amiga sector {} checksum should be valid", i);
    }
}

#[test]
fn test_ibm_pc_hd_144m_track_synthesis_and_lengths() {
    let mut buffer = MfmTrackBuffer::new();
    FluxSynthesizer::synthesize_track(PresetProfile::Pc35Hd, 20, 0, &mut buffer);

    assert!(buffer.bits.len() >= 100_000, "Bitstream must be at least 100k bits, got {}", buffer.bits.len());
    assert!(!buffer.flux_ticks.is_empty());
    assert!(!buffer.gw_flux_bytes.is_empty());
    assert_eq!(&buffer.gw_flux_bytes[buffer.gw_flux_bytes.len() - 2..], &[0x00, 0x00]);
}

#[test]
fn test_ibm_pc_dd_720k_track_synthesis_and_lengths() {
    let mut buffer = MfmTrackBuffer::new();
    FluxSynthesizer::synthesize_track(PresetProfile::Pc35Dd, 40, 1, &mut buffer);

    assert!(buffer.bits.len() >= 50_000, "Bitstream must be at least 50k bits, got {}", buffer.bits.len());
    assert!(!buffer.flux_ticks.is_empty());
    assert_eq!(&buffer.gw_flux_bytes[buffer.gw_flux_bytes.len() - 2..], &[0x00, 0x00]);
}

#[test]
fn test_pc_525_hd_12m_track_synthesis() {
    let mut buffer = MfmTrackBuffer::new();
    FluxSynthesizer::synthesize_track(PresetProfile::Pc525Hd, 10, 0, &mut buffer);

    assert!(buffer.bits.len() >= 83_333, "Bitstream must be at least 83.3k bits, got {}", buffer.bits.len());
    assert_eq!(&buffer.gw_flux_bytes[buffer.gw_flux_bytes.len() - 2..], &[0x00, 0x00]);
}

#[test]
fn test_pc_525_dd_on_hd_300k_track_synthesis() {
    let mut buffer = MfmTrackBuffer::new();
    FluxSynthesizer::synthesize_track(PresetProfile::Pc525DdOnHd, 20, 1, &mut buffer);

    assert!(buffer.bits.len() >= 50_000, "Bitstream must be at least 50k bits, got {}", buffer.bits.len());
    assert_eq!(&buffer.gw_flux_bytes[buffer.gw_flux_bytes.len() - 2..], &[0x00, 0x00]);
}

#[test]
fn test_atari_and_cpc_track_synthesis() {
    let mut buffer = MfmTrackBuffer::new();
    FluxSynthesizer::synthesize_track(PresetProfile::Atari35Dd, 0, 0, &mut buffer);
    assert!(buffer.bits.len() >= 50_000);

    FluxSynthesizer::synthesize_track(PresetProfile::Cpc30Data, 0, 0, &mut buffer);
    assert!(buffer.bits.len() >= 50_000);
}

#[test]
fn crc_table_entries_match_bitwise_update() {
    let table = generate_crc16_table();
    assert_eq!(table[0], 0x0000);
    assert_eq!(table[1], 0x1021);
    assert_eq!(table[0xFF], 0x1EF0);
    assert_eq!(crc16_ccitt(&[0xA1, 0xA1, 0xA1]), 0xCDB4);
    assert_eq!(crc16_ccitt(b"123456789"), 0x29B1);
}

#[test]
fn mfm_encode_then_decode_gives_byte_back() {
    for b in 0..=255u8 {
        for prev in [false, true] {
            let w = mfm_encode_byte(prev, b);
            assert_eq!(decode_byte_word(w), b);
        }
    }
    let bits = [false, true, false, false, false, true, false, false, true, false, false, false, true, false, false, true];
    assert_eq!(mfm_word_to_byte(&bits), 0xA1);
}

#[test]
fn amiga_track_length_is_fixed() {
    let mut buffer = MfmTrackBuffer::new();
    MfmTrackEncoder::encode_track_into(PresetProfile::Amiga35Dd, 0, 0, &mut buffer);
    assert_eq!(buffer.bits.len(), 95_424);
}

#[test]
fn formatted_ibm_tracks_read_back_as_good_sectors() {
    let cases = [
        (PresetProfile::Pc35Hd, 18u8, 1u8),
        (PresetProfile::Pc35Dd, 9, 1),
        (PresetProfile::Pc525Hd, 15, 1),
        (PresetProfile::Atari35Dd, 9, 1),
        (PresetProfile::Cpc30Data, 9, 0xC1),
    ];
    for (preset, count, first) in cases {
        let mut buffer = MfmTrackBuffer::new();
        FluxSynthesizer::synthesize_track(preset, 37, 1, &mut buffer);
        let sectors = decode_idam_sectors_from_bits(&buffer.bits);
        assert_eq!(sectors.len(), count as usize);
        for (i, sec) in sectors.iter().enumerate() {
            assert_eq!(sec.cyl, 37);
            assert_eq!(sec.head, 1);
            assert_eq!(sec.sec_id, first + i as u8);
            assert_eq!(sec.size_code, 2);
            assert!(sec.crc_ok);
            assert_eq!(sec.status, SectorStatus::Good);
        }
    }
}

#[test]
fn formatted_amiga_track_reads_back_on_every_head() {
    for (cyl, head) in [(0u8, 0u8), (79, 1), (127, 1)] {
        let mut buffer = MfmTrackBuffer::new();
        FluxSynthesizer::synthesize_track(PresetProfile::Amiga35Dd, cyl, head, &mut buffer);
        let sectors = decode_amiga_sectors_from_bits(&buffer.bits);
        assert_eq!(sectors.len(), 11);
        for (i, sec) in sectors.iter().enumerate() {
            assert_eq!(sec.cyl, cyl);
            assert_eq!(sec.head, head);
            assert_eq!(sec.sec_id, i as u8);
            assert_eq!(sec.status, SectorStatus::Good);
        }
    }
}
