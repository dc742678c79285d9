//! Parser for the Multiple APIC Description Table.
//!
//! The table's payload is an 8-byte fixed prefix (controller base address
//! and global flags) followed by variable-length, self-describing records:
//! a type byte, a length byte, and a type-specific body.  Records whose
//! length byte does not match the expected size of their type are yielded
//! as explicit "malformed" markers, and unknown type bytes as "unknown"
//! markers; in both cases the cursor still advances by the declared length,
//! so a bad record never desynchronises the stream.  A record whose
//! declared length would run past the end of the payload ends iteration.

use vstd::prelude::*;

use crate::bytes;

verus! {

/// A system description table handle: the four-byte signature from the
/// table header, and the payload that follows the header.
pub struct Sdt {
    pub signature: [u8; 4],
    pub data: Vec<u8>,
}

/// Global-flags bit saying the machine also has the legacy interrupt
/// controller pair.
pub const FLAG_PCAT: u32 = 1;

/// The signature identifying the Multiple APIC Description Table.
pub open spec fn spec_is_apic_signature(sig: Seq<u8>) -> bool {
    sig == seq![0x41u8, 0x50u8, 0x49u8, 0x43u8]
}

/// A validated view of the table: the fixed prefix fields and the payload
/// the record iterator walks.
pub struct Madt {
    pub data: Vec<u8>,
    pub local_address: u32,
    pub flags: u32,
}

/// Processor-local interrupt controller record (type 0, length 8).
#[derive(Clone, Copy, Debug, PartialEq, Eq)]
pub struct MadtLocalApic {
    /// Processor ID
    pub processor: u8,
    /// Local controller ID
    pub id: u8,
    /// Flags; bit 0 set means the processor is enabled
    pub flags: u32,
}

/// I/O interrupt controller record (type 1, length 12).
#[derive(Clone, Copy, Debug, PartialEq, Eq)]
pub struct MadtIoApic {
    /// I/O controller ID
    pub id: u8,
    /// Reserved byte, kept as read
    pub reserved: u8,
    /// I/O controller address
    pub address: u32,
    /// Global system interrupt base
    pub gsi_base: u32,
}

/// Interrupt source override record (type 2, length 10).
#[derive(Clone, Copy, Debug, PartialEq, Eq)]
pub struct MadtIntSrcOverride {
    /// Bus source
    pub bus_source: u8,
    /// IRQ source
    pub irq_source: u8,
    /// Global system interrupt base
    pub gsi_base: u32,
    /// Flags
    pub flags: u16,
}

/// One step of the record stream: a decoded record, a malformed-record
/// marker carrying the declared length, or an unknown-type marker carrying
/// the raw type byte.
#[derive(Clone, Copy, Debug, PartialEq, Eq)]
pub enum MadtEntry {
    LocalApic(MadtLocalApic),
    InvalidLocalApic(usize),
    IoApic(MadtIoApic),
    InvalidIoApic(usize),
    IntSrcOverride(MadtIntSrcOverride),
    InvalidIntSrcOverride(usize),
    Unknown(u8),
}

/// The record decoded at offset `i`, assuming the header and declared
/// length are in bounds.
pub open spec fn spec_decode(data: Seq<u8>, i: int) -> MadtEntry
    recommends
        0 <= i,
        i + 1 < data.len(),
        i + data[i + 1] <= data.len(),
{
    let t = data[i];
    let l = data[i + 1] as int;
    if t == 0 {
        if l == 8 {
            MadtEntry::LocalApic(
                MadtLocalApic {
                    processor: data[i + 2],
                    id: data[i + 3],
                    flags: bytes::le32(data, i + 4) as u32,
                },
            )
        } else {
            MadtEntry::InvalidLocalApic(data[i + 1] as usize)
        }
    } else if t == 1 {
        if l == 12 {
            MadtEntry::IoApic(
                MadtIoApic {
                    id: data[i + 2],
                    reserved: data[i + 3],
                    address: bytes::le32(data, i + 4) as u32,
                    gsi_base: bytes::le32(data, i + 8) as u32,
                },
            )
        } else {
            MadtEntry::InvalidIoApic(data[i + 1] as usize)
        }
    } else if t == 2 {
        if l == 10 {
            MadtEntry::IntSrcOverride(
                MadtIntSrcOverride {
                    bus_source: data[i + 2],
                    irq_source: data[i + 3],
                    gsi_base: bytes::le32(data, i + 4) as u32,
                    flags: bytes::le16(data, i + 8) as u16,
                },
            )
        } else {
            MadtEntry::InvalidIntSrcOverride(data[i + 1] as usize)
        }
    } else {
        MadtEntry::Unknown(t)
    }
}

/// One iterator step at offset `i`: `None` when fewer than two header bytes
/// remain or the declared length runs past the payload end; otherwise the
/// decoded record and the next offset.
pub open spec fn spec_step(data: Seq<u8>, i: int) -> Option<(MadtEntry, int)> {
    if 0 <= i && i + 1 < data.len() {
        let l = data[i + 1] as int;
        if i + l <= data.len() {
            Some((spec_decode(data, i), i + l))
        } else {
            None
        }
    } else {
        None
    }
}

/// The records yielded from offset `i` to the end of the stream.  A record
/// with a declared length of zero would repeat forever; the sequence stops
/// at it (and such streams fail [`spec_wf_from`]).
pub open spec fn spec_entries(data: Seq<u8>, i: int) -> Seq<MadtEntry>
    decreases data.len() - i,
{
    match spec_step(data, i) {
        Option::None => Seq::empty(),
        Option::Some((e, j)) => if j > i {
            seq![e] + spec_entries(data, j)
        } else {
            seq![e]
        },
    }
}

/// The stream from offset `i` makes progress at every step, i.e. no
/// reachable record declares a length of zero; iteration then terminates.
pub open spec fn spec_wf_from(data: Seq<u8>, i: int) -> bool
    decreases data.len() - i,
{
    match spec_step(data, i) {
        Option::None => true,
        Option::Some((e, j)) => j > i && spec_wf_from(data, j),
    }
}

/// Cursor over the record stream of one table.  The backing bytes are never
/// mutated, so iteration can be restarted by taking a fresh cursor.
pub struct MadtIter {
    pub data: Vec<u8>,
    pub i: usize,
}

impl MadtIter {
    /// Yields the record at the cursor and advances by its declared length;
    /// `None` once fewer than two header bytes remain or the declared
    /// length would run past the payload end.
    pub fn next(&mut self) -> (r: Option<MadtEntry>)
        ensures
            final(self).data@ == old(self).data@,
            match spec_step(old(self).data@, old(self).i as int) {
                Option::Some((e, j)) => r == Option::Some(e) && final(self).i == j,
                Option::None => r == Option::<MadtEntry>::None && final(self).i == old(self).i,
            },
    {
        let n = self.data.len();
        if self.i < n && self.i + 1 < n {
            let t = self.data[self.i];
            let l = self.data[self.i + 1] as usize;
            if l <= n - self.i {
                let e = if t == 0 {
                    if l == 8 {
                        MadtEntry::LocalApic(
                            MadtLocalApic {
                                processor: self.data[self.i + 2],
                                id: self.data[self.i + 3],
                                flags: bytes::read_le_u32(&self.data, self.i + 4),
                            },
                        )
                    } else {
                        MadtEntry::InvalidLocalApic(l)
                    }
                } else if t == 1 {
                    if l == 12 {
                        MadtEntry::IoApic(
                            MadtIoApic {
                                id: self.data[self.i + 2],
                                reserved: self.data[self.i + 3],
                                address: bytes::read_le_u32(&self.data, self.i + 4),
                                gsi_base: bytes::read_le_u32(&self.data, self.i + 8),
                            },
                        )
                    } else {
                        MadtEntry::InvalidIoApic(l)
                    }
                } else if t == 2 {
                    if l == 10 {
                        MadtEntry::IntSrcOverride(
                            MadtIntSrcOverride {
                                bus_source: self.data[self.i + 2],
                                irq_source: self.data[self.i + 3],
                                gsi_base: bytes::read_le_u32(&self.data, self.i + 4),
                                flags: bytes::read_le_u16(&self.data, self.i + 8),
                            },
                        )
                    } else {
                        MadtEntry::InvalidIntSrcOverride(l)
                    }
                } else {
                    MadtEntry::Unknown(t)
                };
                self.i = self.i + l;
                Option::Some(e)
            } else {
                Option::None
            }
        } else {
            Option::None
        }
    }
}

/// The table handle is accepted exactly when the signature matches and the
/// payload holds at least the 8-byte fixed prefix.
pub open spec fn spec_madt_ok(sdt: &Sdt) -> bool {
    spec_is_apic_signature(sdt.signature@) && sdt.data@.len() >= 8
}

impl Madt {
    /// Validates the table handle: the signature must match and the payload
    /// must hold the fixed prefix, whose two fields are decoded here.
    pub fn new(sdt: &Sdt) -> (r: Option<Madt>)
        ensures
            match r {
                Option::Some(m) => spec_madt_ok(sdt) && m.data@ == sdt.data@ && m.local_address
                    == bytes::le32(sdt.data@, 0) as u32 && m.flags == bytes::le32(sdt.data@, 4)
                    as u32,
                Option::None => !spec_madt_ok(sdt),
            },
    {
        let sig_ok = sdt.signature[0] == 0x41 && sdt.signature[1] == 0x50 && sdt.signature[2]
            == 0x49 && sdt.signature[3] == 0x43;
        if sig_ok && sdt.data.len() >= 8 {
            proof {
                assert(sdt.signature@ =~= seq![0x41u8, 0x50u8, 0x49u8, 0x43u8]);
            }
            let local_address = bytes::read_le_u32(&sdt.data, 0);
            let flags = bytes::read_le_u32(&sdt.data, 4);
            let data = bytes::copy_bytes(&sdt.data);
            Option::Some(Madt { data, local_address, flags })
        } else {
            Option::None
        }
    }

    /// A fresh cursor positioned just past the fixed prefix.
    pub fn iter(&self) -> (it: MadtIter)
        ensures
            it.data@ == self.data@,
            it.i == 8,
    {
        MadtIter { data: bytes::copy_bytes(&self.data), i: 8 }
    }

    /// Decides whether the record stream makes progress at every step,
    /// i.e. no reachable record declares a length of zero.
    pub fn stream_well_formed(&self) -> (b: bool)
        ensures
            b == spec_wf_from(self.data@, 8),
    {
        let n = self.data.len();
        let mut i: usize = 8;
        loop
            invariant
                n == self.data@.len(),
                i >= 8,
                spec_wf_from(self.data@, 8) <==> spec_wf_from(self.data@, i as int),
            ensures
                spec_wf_from(self.data@, 8) <==> spec_wf_from(self.data@, i as int),
                spec_step(self.data@, i as int) is None || self.data@[i + 1] == 0,
            decreases n - i,
        {
            if i >= n || i + 1 >= n {
                break ;
            }
            let l = self.data[i + 1] as usize;
            if l > n - i {
                break ;
            }
            if l == 0 {
                break ;
            }
            i = i + l;
        }
        if i >= n || i + 1 >= n {
            true
        } else {
            let l = self.data[i + 1] as usize;
            if l > n - i {
                true
            } else {
                false
            }
        }
    }

    /// Collects the whole record stream.  Requires a stream that makes
    /// progress at every step, since a zero-length record would otherwise
    /// repeat forever.
    pub fn entries(&self) -> (v: Vec<MadtEntry>)
        requires
            spec_wf_from(self.data@, 8),
        ensures
            v@ == spec_entries(self.data@, 8),
    {
        let mut it = self.iter();
        let mut out: Vec<MadtEntry> = Vec::new();
        loop
            invariant
                it.data@ == self.data@,
                spec_wf_from(self.data@, it.i as int),
                spec_entries(self.data@, 8) == out@ + spec_entries(self.data@, it.i as int),
            ensures
                out@ == spec_entries(self.data@, 8),
            decreases self.data@.len() - it.i,
        {
            let ghost prev_i = it.i as int;
            let ghost prev_out = out@;
            match it.next() {
                Option::Some(e) => {
                    out.push(e);
                    proof {
                        assert(out@ + spec_entries(self.data@, it.i as int) =~= prev_out
                            + spec_entries(self.data@, prev_i));
                    }
                },
                Option::None => {
                    proof {
                        assert(out@ =~= out@ + spec_entries(self.data@, it.i as int));
                    }
                    break ;
                },
            }
        }
        out
    }
}

/// Iteration is non-destructive: the record sequence is a function of the
/// backing bytes alone, so walking the same table twice yields identical
/// sequences.
pub proof fn lemma_reiteration(data1: Seq<u8>, data2: Seq<u8>)
    requires
        data1 == data2,
    ensures
        spec_entries(data1, 8) == spec_entries(data2, 8),
{
}

/// A stream truncated mid-record ends without yielding a partial record:
/// when the declared length runs past the payload end, the step yields
/// nothing and the record sequence from there is empty.
pub proof fn lemma_truncated_stream_ends(data: Seq<u8>, i: int)
    requires
        0 <= i,
        i + 1 < data.len(),
        i + data[i + 1] > data.len(),
    ensures
        spec_step(data, i) is None,
        spec_entries(data, i) == Seq::<MadtEntry>::empty(),
{
}

/// A record whose length byte does not match its type's expected size is
/// yielded as the malformed marker carrying that length, and the cursor
/// still advances by the declared length, so the next record stays aligned.
pub proof fn lemma_malformed_record_marked_and_skipped(data: Seq<u8>, i: int)
    requires
        0 <= i,
        i + 1 < data.len(),
        i + data[i + 1] <= data.len(),
    ensures
        spec_step(data, i) == Option::Some((spec_decode(data, i), i + data[i + 1])),
        data[i] == 0 && data[i + 1] != 8 ==> spec_decode(data, i)
            == MadtEntry::InvalidLocalApic(data[i + 1] as usize),
        data[i] == 1 && data[i + 1] != 12 ==> spec_decode(data, i)
            == MadtEntry::InvalidIoApic(data[i + 1] as usize),
        data[i] == 2 && data[i + 1] != 10 ==> spec_decode(data, i)
            == MadtEntry::InvalidIntSrcOverride(data[i + 1] as usize),
{
}

} // verus!
