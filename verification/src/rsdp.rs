//! Locator for the firmware root pointer.
//!
//! The root pointer is found either in a bootloader-supplied memory window
//! holding length-prefixed sub-blocks, or by scanning a fixed low-memory
//! window in 16-byte steps for its ASCII signature.  The window scan and
//! the sub-block walk work on plain byte buffers; mapping the physical
//! window into the page table is the caller's business.

use vstd::prelude::*;

use crate::bytes;

verus! {

/// The root pointer record, decoded from its 36-byte wire form.
#[derive(Clone, Copy, Debug)]
pub struct RSDP {
    pub signature: [u8; 8],
    pub checksum: u8,
    pub oemid: [u8; 6],
    pub revision: u8,
    pub rsdt_address: u32,
    pub length: u32,
    pub xsdt_address: u64,
    pub extended_checksum: u8,
    pub reserved: [u8; 3],
}

/// The fixed ASCII signature "RSD PTR ".
pub open spec fn spec_rsdp_signature() -> Seq<u8> {
    seq![0x52u8, 0x53u8, 0x44u8, 0x20u8, 0x50u8, 0x54u8, 0x52u8, 0x20u8]
}

/// The signature stands at offset `at` of the buffer.
pub open spec fn spec_has_rsdp_signature(b: Seq<u8>, at: int) -> bool {
    b.subrange(at, at + 8) == spec_rsdp_signature()
}

/// `r` holds exactly the fields stored at offset `at` of the buffer.
pub open spec fn spec_rsdp_matches(r: RSDP, b: Seq<u8>, at: int) -> bool {
    &&& r.signature@ == b.subrange(at, at + 8)
    &&& r.checksum == b[at + 8]
    &&& r.oemid@ == b.subrange(at + 9, at + 15)
    &&& r.revision == b[at + 15]
    &&& r.rsdt_address == bytes::le32(b, at + 16)
    &&& r.length == bytes::le32(b, at + 20)
    &&& r.xsdt_address == bytes::le64(b, at + 24)
    &&& r.extended_checksum == b[at + 32]
    &&& r.reserved@ == b.subrange(at + 33, at + 36)
}

impl RSDP {
    /// Decodes the record stored at offset `at`.
    pub fn parse(area: &Vec<u8>, at: usize) -> (r: RSDP)
        requires
            at + 36 <= area@.len(),
        ensures
            spec_rsdp_matches(r, area@, at as int),
    {
        let n = area.len();
        assert(at + 36 <= n);
        let r = RSDP {
            signature: [
                area[at],
                area[at + 1],
                area[at + 2],
                area[at + 3],
                area[at + 4],
                area[at + 5],
                area[at + 6],
                area[at + 7],
            ],
            checksum: area[at + 8],
            oemid: [
                area[at + 9],
                area[at + 10],
                area[at + 11],
                area[at + 12],
                area[at + 13],
                area[at + 14],
            ],
            revision: area[at + 15],
            rsdt_address: bytes::read_le_u32(area, at + 16),
            length: bytes::read_le_u32(area, at + 20),
            xsdt_address: bytes::read_le_u64(area, at + 24),
            extended_checksum: area[at + 32],
            reserved: [area[at + 33], area[at + 34], area[at + 35]],
        };
        proof {
            assert(r.signature@ =~= area@.subrange(at as int, at + 8));
            assert(r.oemid@ =~= area@.subrange(at + 9, at + 15));
            assert(r.reserved@ =~= area@.subrange(at + 33, at + 36));
        }
        r
    }

    /// The record declares the first ACPI revision.
    pub fn is_acpi_1_0(&self) -> (b: bool)
        ensures
            b == (self.revision == 0),
    {
        self.revision == 0
    }

    /// The record declares the second ACPI revision.
    pub fn is_acpi_2_0(&self) -> (b: bool)
        ensures
            b == (self.revision == 2),
    {
        self.revision == 2
    }

    /// The physical address of the successor table: revision 2 or newer
    /// selects the 64-bit extended pointer, older revisions the 32-bit one.
    pub fn sdt_address(&self) -> (a: usize)
        ensures
            self.revision >= 2 ==> a == self.xsdt_address as usize,
            self.revision < 2 ==> a == self.rsdt_address as usize,
    {
        if self.revision >= 2 {
            #[verifier::truncate] (self.xsdt_address as usize)
        } else {
            #[verifier::truncate] (self.rsdt_address as usize)
        }
    }
}

/// A length-prefixed sub-block is accepted for revision `rev` when it is
/// large enough to hold the record, carries the signature, and declares
/// exactly that revision.
pub open spec fn spec_block_accepted(area: Seq<u8>, start: int, len: int, rev: u8) -> bool {
    len >= 36 && spec_has_rsdp_signature(area, start) && area[start + 15] == rev
}

/// Walks the length-prefixed sub-blocks from `pos` and gives the offset of
/// the first block accepted for revision `rev`, if any.  A length prefix
/// that would run past the end of the window ends the walk.
pub open spec fn spec_find_rev(area: Seq<u8>, pos: int, rev: u8) -> Option<int>
    decreases area.len() - pos,
{
    if pos < 0 || pos + 4 > area.len() {
        Option::None
    } else {
        let l = bytes::le32(area, pos);
        if pos + 4 + l > area.len() {
            Option::None
        } else if spec_block_accepted(area, pos + 4, l, rev) {
            Option::Some(pos + 4)
        } else {
            spec_find_rev(area, pos + 4 + l, rev)
        }
    }
}

/// The offset and revision the supplied-window scan chooses: the first
/// revision-2 candidate if one exists, else the first revision-0 one.
pub open spec fn spec_supplied_choice(area: Seq<u8>) -> Option<(int, u8)> {
    match spec_find_rev(area, 0, 2) {
        Option::Some(p) => Option::Some((p, 2u8)),
        Option::None => match spec_find_rev(area, 0, 0) {
            Option::Some(p) => Option::Some((p, 0u8)),
            Option::None => Option::None,
        },
    }
}

/// Compares the bytes at `at` with the fixed signature.
fn has_rsdp_signature(area: &Vec<u8>, at: usize) -> (b: bool)
    requires
        at + 8 <= area@.len(),
    ensures
        b == spec_has_rsdp_signature(area@, at as int),
{
    let n = area.len();
    assert(at + 8 <= n);
    let ok = area[at] == 0x52 && area[at + 1] == 0x53 && area[at + 2] == 0x44 && area[at + 3]
        == 0x20 && area[at + 4] == 0x50 && area[at + 5] == 0x54 && area[at + 6] == 0x52 && area[at
        + 7] == 0x20;
    proof {
        let s = area@.subrange(at as int, at + 8);
        assert(spec_rsdp_signature()[0] == 0x52);
        assert(spec_rsdp_signature()[1] == 0x53);
        assert(spec_rsdp_signature()[2] == 0x44);
        assert(spec_rsdp_signature()[3] == 0x20);
        assert(spec_rsdp_signature()[4] == 0x50);
        assert(spec_rsdp_signature()[5] == 0x54);
        assert(spec_rsdp_signature()[6] == 0x52);
        assert(spec_rsdp_signature()[7] == 0x20);
        if ok {
            assert(s =~= spec_rsdp_signature());
        } else {
            assert(s.len() == 8);
            assert(forall|k: int| 0 <= k < 8 ==> s[k] == area@[at + k]);
        }
    }
    ok
}

/// Scans a bootloader-supplied window of length-prefixed sub-blocks,
/// preferring a revision-2 candidate strictly over a revision-0 one.
pub fn get_already_supplied_rsdps(area: &Vec<u8>) -> (r: Option<RSDP>)
    ensures
        match spec_supplied_choice(area@) {
            Option::Some((p, rev)) => r is Some && spec_rsdp_matches(r->Some_0, area@, p)
                && r->Some_0.revision == rev,
            Option::None => r is None,
        },
{
    let r2 = find_with_revision(area, 2);
    match r2 {
        Option::Some(rsdp) => {
            proof {
                lemma_find_rev_found(area@, 0, 2);
            }
            Option::Some(rsdp)
        },
        Option::None => {
            let r0 = find_with_revision(area, 0);
            match r0 {
                Option::Some(rsdp) => {
                    proof {
                        lemma_find_rev_found(area@, 0, 0);
                    }
                    Option::Some(rsdp)
                },
                Option::None => Option::None,
            }
        },
    }
}

/// Walks the sub-blocks for the first candidate of one revision.
fn find_with_revision(area: &Vec<u8>, rev: u8) -> (r: Option<RSDP>)
    ensures
        match spec_find_rev(area@, 0, rev) {
            Option::Some(p) => r is Some && spec_rsdp_matches(r->Some_0, area@, p),
            Option::None => r is None,
        },
{
    let n = area.len();
    let mut pos: usize = 0;
    loop
        invariant
            pos <= n,
            n == area@.len(),
            spec_find_rev(area@, 0, rev) == spec_find_rev(area@, pos as int, rev),
        ensures
            spec_find_rev(area@, 0, rev) is None,
        decreases n - pos,
    {
        if n - pos < 4 {
            break ;
        }
        let l = bytes::read_le_u32(area, pos);
        if (l as u64) > (n as u64) - (pos as u64) - 4 {
            break ;
        }
        let bstart = pos + 4;
        let blen = l as usize;
        if blen >= 36 && has_rsdp_signature(area, bstart) {
            if area[bstart + 15] == rev {
                return Option::Some(RSDP::parse(area, bstart));
            }
        }
        pos = pos + 4 + blen;
    }
    Option::None
}

/// A block found for revision `rev` really stands in bounds, carries the
/// signature, and declares that revision.
pub proof fn lemma_find_rev_found(area: Seq<u8>, pos: int, rev: u8)
    requires
        spec_find_rev(area, pos, rev) is Some,
    ensures
        ({
            let p = spec_find_rev(area, pos, rev)->Some_0;
            0 <= p && p + 36 <= area.len() && spec_has_rsdp_signature(area, p) && area[p + 15]
                == rev
        }),
    decreases area.len() - pos,
{
    let l = bytes::le32(area, pos);
    if pos < 0 || pos + 4 > area.len() {
    } else if pos + 4 + l > area.len() {
    } else if spec_block_accepted(area, pos + 4, l, rev) {
    } else {
        lemma_find_rev_found(area, pos + 4 + l, rev);
    }
}

/// Whenever the supplied window holds any revision-2 candidate, the scan's
/// choice is a revision-2 candidate — a revision-0 candidate that is also
/// present is never chosen.
pub proof fn lemma_revision_two_preferred(area: Seq<u8>)
    requires
        spec_find_rev(area, 0, 2) is Some,
    ensures
        match spec_supplied_choice(area) {
            Option::Some((p, rev)) => rev == 2 && area[p + 15] == 2,
            Option::None => false,
        },
{
    lemma_find_rev_found(area, 0, 2);
}

/// Steps through a low-memory window in 16-byte strides and gives the
/// offset of the first full record that carries the signature, if any.
pub open spec fn spec_search_at(area: Seq<u8>, k: nat) -> Option<int>
    decreases area.len() - 16 * k,
{
    if 16 * k + 36 > area.len() {
        Option::None
    } else if spec_has_rsdp_signature(area, 16 * (k as int)) {
        Option::Some(16 * (k as int))
    } else {
        spec_search_at(area, k + 1)
    }
}

/// Scans a mapped copy of the legacy low-memory window in 16-byte steps
/// for the signature and decodes the record found there.
pub fn search(area: &Vec<u8>) -> (r: Option<RSDP>)
    ensures
        match spec_search_at(area@, 0) {
            Option::Some(p) => r is Some && spec_rsdp_matches(r->Some_0, area@, p),
            Option::None => r is None,
        },
{
    let n = area.len();
    let mut pos: usize = 0;
    let ghost mut k: nat = 0;
    loop
        invariant
            pos == 16 * k,
            pos <= n,
            n == area@.len(),
            spec_search_at(area@, 0) == spec_search_at(area@, k),
        ensures
            spec_search_at(area@, 0) is None,
        decreases n - pos,
    {
        if n - pos < 36 {
            break ;
        }
        if has_rsdp_signature(area, pos) {
            return Option::Some(RSDP::parse(area, pos));
        }
        pos = pos + 16;
        proof {
            k = k + 1;
        }
    }
    Option::None
}

} // verus!
