//! ACPI table parsing and the ELF loader's header decoding.

use cofflos::elf::{parse_header, parse_program_header, ELF_MAGIC};
use cofflos::pcie::{
    checksum_ok, decode_config_space, decode_rsdp, decode_sdt_header, find_rsdp_signature,
    sdt_signature_matches, RSDP,
};

#[test]
fn rsdp_signature_scan_finds_the_first() {
    let mut region = vec![0u8; 256];
    region[32..40].copy_from_slice(b"RSD PTR ");
    region[96..104].copy_from_slice(b"RSD PTR ");
    assert_eq!(find_rsdp_signature(&region), Some(32));
    let empty = vec![0u8; 64];
    assert_eq!(find_rsdp_signature(&empty), None);
    assert_eq!(find_rsdp_signature(&vec![0u8; 3]), None);
}

#[test]
fn acpi_checksum() {
    // Bytes summing to a multiple of 256 pass.
    let good = vec![1u8, 255];
    assert!(checksum_ok(&good));
    let bad = vec![1u8, 2, 3];
    assert!(!checksum_ok(&bad));
    assert!(checksum_ok(&Vec::new()));
}

#[test]
fn rsdp_descriptor_decodes() {
    let mut b = vec![0u8; 20];
    b[0..8].copy_from_slice(b"RSD PTR ");
    b[8] = 0x42; // checksum byte
    b[9..15].copy_from_slice(b"COFFLO");
    b[15] = 0; // revision one layout
    b[16..20].copy_from_slice(&0x000E_4000u32.to_le_bytes());
    let d = decode_rsdp(&b);
    assert_eq!(&d.signature, b"RSD PTR ");
    assert_eq!(d.checksum, 0x42);
    assert_eq!(&d.oem_id, b"COFFLO");
    assert_eq!(d.revision, 0);
    assert_eq!(d.rsdt_address, 0x000E_4000);
    // The revision picks the pointer flavour.
    let rsdp = if d.revision == 0 {
        RSDP::V1(d.rsdt_address)
    } else {
        RSDP::V2(d.rsdt_address as u64)
    };
    assert!(matches!(rsdp, RSDP::V1(0x000E_4000)));
}

#[test]
fn sdt_header_decodes_and_matches_signatures() {
    let mut b = vec![0u8; 36];
    b[0..4].copy_from_slice(b"MCFG");
    b[4..8].copy_from_slice(&60u32.to_le_bytes());
    b[8] = 1;
    b[9] = 0x77;
    b[10..16].copy_from_slice(b"COFFLO");
    b[16..24].copy_from_slice(b"COFFLOS ");
    b[24..28].copy_from_slice(&7u32.to_le_bytes());
    let h = decode_sdt_header(&b);
    assert_eq!(&h.signature, b"MCFG");
    assert_eq!(h.length, 60);
    assert_eq!(h.revision, 1);
    assert_eq!(h.checksum, 0x77);
    assert_eq!(h.oem_revision, 7);
    assert!(sdt_signature_matches(&h, &b"MCFG".to_vec()));
    assert!(!sdt_signature_matches(&h, &b"RSDT".to_vec()));
}

#[test]
fn config_space_decodes() {
    let mut b = vec![0u8; 16];
    b[0..4].copy_from_slice(&0xC000_0000u32.to_le_bytes());
    b[4..8].copy_from_slice(&0x1u32.to_le_bytes());
    b[8..10].copy_from_slice(&3u16.to_le_bytes());
    b[10] = 0;
    b[11] = 255;
    let c = decode_config_space(&b);
    assert_eq!(c.base_addr, 0x1_C000_0000);
    assert_eq!(c.group_no, 3);
    assert_eq!(c.bus_start, 0);
    assert_eq!(c.bus_end, 255);
}

#[test]
fn elf_header_magic_gates_parsing() {
    let mut image = vec![0u8; 64];
    image[0..4].copy_from_slice(&ELF_MAGIC.to_le_bytes());
    image[16..18].copy_from_slice(&2u16.to_le_bytes()); // executable
    image[24..28].copy_from_slice(&0x1000u32.to_le_bytes()); // entry
    image[28..32].copy_from_slice(&52u32.to_le_bytes()); // phoff
    image[44..46].copy_from_slice(&1u16.to_le_bytes()); // phnum
    let h = parse_header(&image).unwrap();
    assert_eq!(h.magic, ELF_MAGIC);
    assert_eq!(h.etype, 2);
    assert_eq!(h.entry, 0x1000);
    assert_eq!(h.phoff, 52);
    assert_eq!(h.phnum, 1);

    let mut junk = vec![0u8; 64];
    junk[0] = 0x7F;
    assert!(parse_header(&junk).is_none());
}

#[test]
fn program_headers_decode_at_their_offset() {
    let mut image = vec![0u8; 96];
    let off = 52;
    image[off..off + 4].copy_from_slice(&1u32.to_le_bytes()); // LOAD
    image[off + 8..off + 12].copy_from_slice(&0x8010_0000u32.to_le_bytes());
    image[off + 16..off + 20].copy_from_slice(&1234u32.to_le_bytes());
    image[off + 20..off + 24].copy_from_slice(&4096u32.to_le_bytes());
    let ph = parse_program_header(&image, off);
    assert_eq!(ph.ptype, 1);
    assert_eq!(ph.vaddr, 0x8010_0000);
    assert_eq!(ph.filesz, 1234);
    assert_eq!(ph.memsz, 4096);
}
