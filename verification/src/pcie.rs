//! ACPI tables for memory-mapped PCI configuration.
//!
//! The tables live in firmware memory; reading that memory is the boot
//! code's business. What stands here is their layout: finding the root
//! pointer's signature in a byte region, the table checksum, and the
//! unmarshalling of each descriptor, all proved exact. Addresses stored
//! in the tables are carried as plain numbers.

use vstd::prelude::*;
use crate::fs::{get_u16, get_u32, spec_u16_le, spec_u32_le};

verus! {

/// Bytes of a version-1 root descriptor.
pub const RSDP_V1_SIZE: usize = 20;

/// Bytes of a table header.
pub const SDT_HEADER_SIZE: usize = 36;

/// The root system description pointer, as firmware lays it out.
pub struct RSDPDescriptor {
    pub signature: Vec<u8>,
    pub checksum: u8,
    pub oem_id: Vec<u8>,
    pub revision: u8,
    pub rsdt_address: u32,
}

/// The extended root pointer of revision two and later.
pub struct RSDPDescriptor20 {
    pub first: RSDPDescriptor,
    pub length: u32,
    pub xsdt_address: u64,
    pub extended_checksum: u8,
    pub reserved: Vec<u8>,
}

/// The header every system description table starts with.
pub struct ACPISDTHeader {
    pub signature: Vec<u8>,
    pub length: u32,
    pub revision: u8,
    pub checksum: u8,
    pub oemid: Vec<u8>,
    pub oem_table_id: Vec<u8>,
    pub oem_revision: u32,
    pub creator_id: u32,
    pub creator_revision: u32,
}

/// The root table: its header and the address of its entry list.
pub struct RSDT {
    pub header: ACPISDTHeader,
    pub other_sdts: u32,
}

/// The table describing memory-mapped configuration space.
pub struct MCFG {
    pub header: ACPISDTHeader,
    pub reserved: Vec<u8>,
    pub config_space: u64,
}

/// One memory-mapped configuration window.
pub struct ConfigSpace {
    pub base_addr: u64,
    pub group_no: u16,
    pub bus_start: u8,
    pub bus_end: u8,
    pub reserved: Vec<u8>,
}

/// The root pointer, whichever revision firmware offers, by address.
pub enum RSDP {
    V1(u32),
    V2(u64),
}

/// Whether the root pointer's signature starts at `i` of the region:
/// the bytes of "RSD PTR ".
pub open spec fn spec_rsdp_sig_at(b: Seq<u8>, i: int) -> bool {
    &&& i + 8 <= b.len()
    &&& b[i] == 0x52
    &&& b[i + 1] == 0x53
    &&& b[i + 2] == 0x44
    &&& b[i + 3] == 0x20
    &&& b[i + 4] == 0x50
    &&& b[i + 5] == 0x54
    &&& b[i + 6] == 0x52
    &&& b[i + 7] == 0x20
}

/// Whether the root pointer's signature starts at `i`.
pub fn rsdp_sig_at(b: &Vec<u8>, i: usize) -> (r: bool)
    requires
        i + 8 <= b@.len(),
    ensures
        r == spec_rsdp_sig_at(b@, i as int),
{
    let n = b.len();
    proof {
        assert(i + 8 <= n);
    }
    b[i] == 0x52 && b[i + 1] == 0x53 && b[i + 2] == 0x44 && b[i + 3] == 0x20 && b[i + 4] == 0x50
        && b[i + 5] == 0x54 && b[i + 6] == 0x52 && b[i + 7] == 0x20
}

/// Scan a copied memory region for the root pointer's signature; the
/// first offset where it stands, when it stands anywhere.
pub fn find_rsdp_signature(region: &Vec<u8>) -> (r: Option<usize>)
    ensures
        match r {
            Option::Some(i) => {
                &&& spec_rsdp_sig_at(region@, i as int)
                &&& forall|j: int| 0 <= j < i ==> !spec_rsdp_sig_at(region@, j)
            },
            Option::None => forall|j: int| 0 <= j < region@.len() ==> !spec_rsdp_sig_at(
                region@,
                j,
            ),
        },
{
    let n = region.len();
    if n < 8 {
        proof {
            assert forall|j: int| 0 <= j < region@.len() implies !spec_rsdp_sig_at(
                region@,
                j,
            ) by {}
        }
        return None;
    }
    let mut i: usize = 0;
    while i <= n - 8
        invariant
            8 <= n == region@.len(),
            i <= n,
            forall|j: int| 0 <= j < i ==> !spec_rsdp_sig_at(region@, j),
        decreases n - i,
    {
        if rsdp_sig_at(region, i) {
            return Some(i);
        }
        i = i + 1;
    }
    proof {
        assert forall|j: int| 0 <= j < region@.len() implies !spec_rsdp_sig_at(region@, j) by {}
    }
    None
}

/// Sum of the bytes of `s`.
pub open spec fn spec_byte_sum(s: Seq<u8>) -> int
    decreases s.len(),
{
    if s.len() == 0 {
        0
    } else {
        spec_byte_sum(s.drop_last()) + s.last()
    }
}

/// The byte sum never exceeds 255 per byte.
proof fn lemma_byte_sum_bound(s: Seq<u8>)
    ensures
        0 <= spec_byte_sum(s) <= 255 * s.len(),
    decreases s.len(),
{
    if s.len() > 0 {
        lemma_byte_sum_bound(s.drop_last());
    }
}

/// An ACPI structure is sound when its bytes sum to zero modulo 256.
pub fn checksum_ok(bytes: &Vec<u8>) -> (r: bool)
    ensures
        r == (spec_byte_sum(bytes@) % 256 == 0),
{
    let n = bytes.len();
    let mut sum: u64 = 0;
    let mut i: usize = 0;
    #[verifier::loop_isolation(false)]
    while i < n
        invariant
            i <= n,
            sum == spec_byte_sum(bytes@.take(i as int)) % 256,
            sum < 256,
        decreases n - i,
    {
        let ghost before = bytes@.take(i as int);
        let b = bytes[i];
        proof {
            assert(bytes@.take(i + 1).drop_last() =~= before);
            lemma_byte_sum_bound(before);
            let p = spec_byte_sum(before);
            assert((p % 256 + b) % 256 == (p + b) % 256) by (nonlinear_arith)
                requires 0 <= p;
        }
        sum = (sum + b as u64) % 256;
        i = i + 1;
    }
    proof {
        assert(bytes@.take(n as int) =~= bytes@);
    }
    sum == 0
}

/// Unmarshal a version-1 root descriptor from copied firmware bytes.
pub fn decode_rsdp(b: &Vec<u8>) -> (r: RSDPDescriptor)
    requires
        RSDP_V1_SIZE <= b@.len(),
    ensures
        r.signature@ =~= b@.subrange(0, 8),
        r.checksum == b@[8],
        r.oem_id@ =~= b@.subrange(9, 15),
        r.revision == b@[15],
        r.rsdt_address == spec_u32_le(b@, 16),
{
    let mut signature: Vec<u8> = Vec::new();
    let mut i: usize = 0;
    while i < 8
        invariant
            i <= 8,
            RSDP_V1_SIZE <= b@.len(),
            signature@.len() == i,
            forall|j: int| 0 <= j < i ==> signature@[j] == b@[j],
        decreases 8 - i,
    {
        signature.push(b[i]);
        i = i + 1;
    }
    let mut oem_id: Vec<u8> = Vec::new();
    let mut k: usize = 0;
    while k < 6
        invariant
            k <= 6,
            RSDP_V1_SIZE <= b@.len(),
            oem_id@.len() == k,
            forall|j: int| 0 <= j < k ==> oem_id@[j] == b@[9 + j],
        decreases 6 - k,
    {
        oem_id.push(b[9 + k]);
        k = k + 1;
    }
    RSDPDescriptor {
        signature,
        checksum: b[8],
        oem_id,
        revision: b[15],
        rsdt_address: get_u32(b, 16),
    }
}

/// Unmarshal a table header from copied firmware bytes.
pub fn decode_sdt_header(b: &Vec<u8>) -> (r: ACPISDTHeader)
    requires
        SDT_HEADER_SIZE <= b@.len(),
    ensures
        r.signature@ =~= b@.subrange(0, 4),
        r.length == spec_u32_le(b@, 4),
        r.revision == b@[8],
        r.checksum == b@[9],
        r.oemid@ =~= b@.subrange(10, 16),
        r.oem_table_id@ =~= b@.subrange(16, 24),
        r.oem_revision == spec_u32_le(b@, 24),
        r.creator_id == spec_u32_le(b@, 28),
        r.creator_revision == spec_u32_le(b@, 32),
{
    let mut signature: Vec<u8> = Vec::new();
    let mut i: usize = 0;
    while i < 4
        invariant
            i <= 4,
            SDT_HEADER_SIZE <= b@.len(),
            signature@.len() == i,
            forall|j: int| 0 <= j < i ==> signature@[j] == b@[j],
        decreases 4 - i,
    {
        signature.push(b[i]);
        i = i + 1;
    }
    let mut oemid: Vec<u8> = Vec::new();
    let mut k: usize = 0;
    while k < 6
        invariant
            k <= 6,
            SDT_HEADER_SIZE <= b@.len(),
            oemid@.len() == k,
            forall|j: int| 0 <= j < k ==> oemid@[j] == b@[10 + j],
        decreases 6 - k,
    {
        oemid.push(b[10 + k]);
        k = k + 1;
    }
    let mut oem_table_id: Vec<u8> = Vec::new();
    let mut t: usize = 0;
    while t < 8
        invariant
            t <= 8,
            SDT_HEADER_SIZE <= b@.len(),
            oem_table_id@.len() == t,
            forall|j: int| 0 <= j < t ==> oem_table_id@[j] == b@[16 + j],
        decreases 8 - t,
    {
        oem_table_id.push(b[16 + t]);
        t = t + 1;
    }
    ACPISDTHeader {
        signature,
        length: get_u32(b, 4),
        revision: b[8],
        checksum: b[9],
        oemid,
        oem_table_id,
        oem_revision: get_u32(b, 24),
        creator_id: get_u32(b, 28),
        creator_revision: get_u32(b, 32),
    }
}

/// Whether a table's four-byte signature equals the sought one.
pub fn sdt_signature_matches(header: &ACPISDTHeader, sig: &Vec<u8>) -> (r: bool)
    requires
        sig@.len() == 4,
        header.signature@.len() == 4,
    ensures
        r == (header.signature@ =~= sig@),
{
    let m = header.signature[0] == sig[0] && header.signature[1] == sig[1]
        && header.signature[2] == sig[2] && header.signature[3] == sig[3];
    proof {
        if m {
            assert(header.signature@ =~= sig@);
        }
    }
    m
}

/// Unmarshal one memory-mapped configuration window.
pub fn decode_config_space(b: &Vec<u8>) -> (r: ConfigSpace)
    requires
        16 <= b@.len(),
    ensures
        r.base_addr == spec_u32_le(b@, 0) + 0x1_0000_0000 * spec_u32_le(b@, 4),
        r.group_no == spec_u16_le(b@, 8),
        r.bus_start == b@[10],
        r.bus_end == b@[11],
{
    let lo = get_u32(b, 0);
    let hi = get_u32(b, 4);
    let mut reserved: Vec<u8> = Vec::new();
    let mut i: usize = 0;
    while i < 4
        invariant
            i <= 4,
            16 <= b@.len(),
            reserved@.len() == i,
        decreases 4 - i,
    {
        reserved.push(b[12 + i]);
        i = i + 1;
    }
    ConfigSpace {
        base_addr: (lo as u64) + 0x1_0000_0000u64 * (hi as u64),
        group_no: get_u16(b, 8),
        bus_start: b[10],
        bus_end: b[11],
        reserved,
    }
}

} // verus!
