use vstd::prelude::*;

use crate::platform::address::{PhysicalAddress, VirtualAddress};
use crate::platform::image::BOOT_INFO_SIZE;

verus! {

/// A boot-ROM action plan derived from a validated system-ROM image.
#[derive(Clone, Debug, PartialEq, Eq)]
pub struct BootPlan {
    pub copies: Vec<BootCopy>,
    pub boot_info: [u8; BOOT_INFO_SIZE],
    pub boot_info_paddr: PhysicalAddress,
    pub bootstrap_entry_paddr: PhysicalAddress,
    pub boot_info_vaddr: VirtualAddress,
    pub kernel_entry_vaddr: VirtualAddress,
}

/// One initialized kernel copy plus its trailing BSS zeroing requirement.
#[derive(Clone, Debug, PartialEq, Eq)]
pub struct BootCopy {
    pub physical_address: PhysicalAddress,
    pub bytes: Vec<u8>,
    pub zeroed_length: u32,
}

/// Whether a copy and its zeroed tail end no later than `2^32`.
pub open spec fn copy_fits(copy: BootCopy) -> bool {
    copy.physical_address.0 + copy.bytes@.len() + copy.zeroed_length <= 0x1_0000_0000
}

/// Zero bytes, `count` of them.
pub open spec fn zeros_of(count: int) -> Seq<u8> {
    Seq::new(count as nat, |i: int| 0u8)
}

/// The writes clearing `length` bytes from `address`, in pieces of at most
/// one page, as (address, bytes).
pub open spec fn zero_writes(address: int, length: int) -> Seq<(int, Seq<u8>)>
    decreases length,
{
    if length <= 0 {
        Seq::empty()
    } else {
        let count = if length < 4096 {
            length
        } else {
            4096
        };
        seq![(address, zeros_of(count))] + zero_writes(address + count, length - count)
    }
}

/// The writes of one kernel copy: its bytes, then its zeroed tail.
pub open spec fn copy_writes(copy: BootCopy) -> Seq<(int, Seq<u8>)> {
    seq![(copy.physical_address.0 as int, copy.bytes@)] + zero_writes(
        copy.physical_address.0 + copy.bytes@.len(),
        copy.zeroed_length as int,
    )
}

/// The writes of the copies from index `i` on, in order.
pub open spec fn copies_writes_from(copies: Seq<BootCopy>, i: int) -> Seq<(int, Seq<u8>)>
    decreases copies.len() - i,
{
    if i < 0 || i >= copies.len() {
        Seq::empty()
    } else {
        copy_writes(copies[i]) + copies_writes_from(copies, i + 1)
    }
}

/// Every write a plan makes, in order: each kernel copy with its zeroed
/// tail, then the boot information.
pub open spec fn boot_writes(plan: BootPlan) -> Seq<(int, Seq<u8>)> {
    copies_writes_from(plan.copies@, 0) + seq![(plan.boot_info_paddr.0 as int, plan.boot_info@)]
}

/// Whether a call of the writer in state `writer`, returning `out`, wrote
/// `write`'s bytes at its address.
pub open spec fn made_write<E, F: FnMut(PhysicalAddress, &[u8]) -> core::result::Result<(), E>>(
    writer: F,
    write: (int, Seq<u8>),
    out: core::result::Result<(), E>,
) -> bool {
    exists|bytes: &[u8]|
        bytes@ == write.1 && #[trigger] call_ensures(writer, (PhysicalAddress(write.0 as u32), bytes), out)
}

/// Whether the calls recorded, each as the writer's state and the result
/// it returned, made the first writes of `writes`, in order, all but the
/// last succeeding, and whether `r` is the last result and success means
/// that every write was made.
pub open spec fn applied<E, F: FnMut(PhysicalAddress, &[u8]) -> core::result::Result<(), E>>(
    writes: Seq<(int, Seq<u8>)>,
    calls: Seq<(F, core::result::Result<(), E>)>,
    r: core::result::Result<(), E>,
) -> bool {
    &&& 0 < calls.len() <= writes.len()
    &&& forall|k: int|
        0 <= k < calls.len() ==> #[trigger] made_write(calls[k].0, writes[k], calls[k].1)
    &&& forall|k: int| 0 <= k < calls.len() - 1 ==> (#[trigger] calls[k]).1 is Ok
    &&& r == calls.last().1
    &&& r is Ok ==> calls.len() == writes.len()
}

impl BootPlan {
    /// Applies the boot ROM's kernel copies, BSS clearing in chunks of at
    /// most one page, and the boot-info write, stopping at the first
    /// failed write. The caller performs the subsequent branch to
    /// `bootstrap_entry_paddr`.
    pub fn apply<E, F: FnMut(PhysicalAddress, &[u8]) -> core::result::Result<(), E>>(
        &self,
        mut write: F,
    ) -> (r: core::result::Result<(), E>)
        requires
            forall|i: int| 0 <= i < self.copies@.len() ==> copy_fits(#[trigger] self.copies@[i]),
            forall|g: F, address: PhysicalAddress, bytes: &[u8]| call_requires(g, (address, bytes)),
        ensures
            exists|calls: Seq<(F, core::result::Result<(), E>)>| applied(boot_writes(*self), calls, r),
            (forall|g: F, address: PhysicalAddress, bytes: &[u8], out: core::result::Result<(), E>|
                call_ensures(g, (address, bytes), out) ==> out is Ok) ==> r is Ok,
    {
        let ghost writes = boot_writes(*self);
        let ghost mut calls: Seq<(F, core::result::Result<(), E>)> = Seq::empty();
        let ghost mut rest = writes;
        let zero_page = [0u8; 4096];
        let n = self.copies.len();
        let mut i: usize = 0;
        while i < n
            invariant
                i <= n,
                n == self.copies@.len(),
                forall|k: int| 0 <= k < self.copies@.len() ==> copy_fits(#[trigger] self.copies@[k]),
                forall|g: F, address: PhysicalAddress, bytes: &[u8]| call_requires(g, (address, bytes)),
                zero_page@.len() == 4096,
                forall|k: int| 0 <= k < 4096 ==> zero_page@[k] == 0,
                writes == boot_writes(*self),
                writes == writes.take(calls.len() as int) + rest,
                calls.len() + rest.len() == writes.len(),
                rest == copies_writes_from(self.copies@, i as int) + seq![(self.boot_info_paddr.0 as int, self.boot_info@)],
                forall|k: int|
                    0 <= k < calls.len() ==> #[trigger] made_write(calls[k].0, writes[k], calls[k].1),
                forall|k: int| 0 <= k < calls.len() ==> (#[trigger] calls[k]).1 is Ok,
            decreases n - i,
        {
            let copy = &self.copies[i];
            assert(copy_fits(self.copies@[i as int]));
            let ghost before = write;
            let ghost slot = calls.len() as int;
            let data = copy.bytes.as_slice();
            let out = write(copy.physical_address, data);
            proof {
                assert(rest[0] == (copy.physical_address.0 as int, copy.bytes@));
                assert(writes[slot] == rest[0]);
                assert(call_ensures(before, (copy.physical_address, data), out));
                assert(PhysicalAddress(writes[slot].0 as u32) == copy.physical_address);
                assert(made_write(before, writes[slot], out));
                calls = calls.push((before, out));
                rest = rest.drop_first();
                assert(writes.take(calls.len() as int) =~= writes.take(slot) + seq![writes[slot]]);
                assert(calls[slot].0 == before);
            }
            match out {
                Ok(()) => {},
                Err(e) => {
                    proof {
                        assert(applied(writes, calls, Err::<(), E>(e)));
                    }
                    return Err(e);
                },
            }
            let length = copy.bytes.len();
            let mut address: u64 = copy.physical_address.get() as u64 + length as u64;
            let mut remaining: u64 = copy.zeroed_length as u64;
            assert(rest =~= zero_writes(address as int, remaining as int) + copies_writes_from(
                self.copies@,
                i + 1,
            ) + seq![(self.boot_info_paddr.0 as int, self.boot_info@)]);
            while remaining != 0
                invariant
                    address + remaining <= 0x1_0000_0000,
                    forall|g: F, address: PhysicalAddress, bytes: &[u8]| call_requires(g, (address, bytes)),
                    zero_page@.len() == 4096,
                    forall|k: int| 0 <= k < 4096 ==> zero_page@[k] == 0,
                    writes == boot_writes(*self),
                    writes == writes.take(calls.len() as int) + rest,
                    calls.len() + rest.len() == writes.len(),
                calls.len() + rest.len() == writes.len(),
                    rest == zero_writes(address as int, remaining as int) + copies_writes_from(
                        self.copies@,
                        i + 1,
                    ) + seq![(self.boot_info_paddr.0 as int, self.boot_info@)],
                    forall|k: int|
                        0 <= k < calls.len() ==> #[trigger] made_write(calls[k].0, writes[k], calls[k].1),
                    forall|k: int| 0 <= k < calls.len() ==> (#[trigger] calls[k]).1 is Ok,
                decreases remaining,
            {
                let count: u64 = if remaining < 4096 {
                    remaining
                } else {
                    4096
                };
                let zeros = &zero_page.as_slice()[0..count as usize];
                let ghost before = write;
                let ghost slot = calls.len() as int;
                let target = PhysicalAddress::new(address as u32);
                let out = write(target, zeros);
                proof {
                    assert(zeros@ =~= zeros_of(count as int));
                    assert(rest[0] == (address as int, zeros_of(count as int)));
                    assert(writes[slot] == rest[0]);
                    assert(call_ensures(before, (target, zeros), out));
                    assert(PhysicalAddress(writes[slot].0 as u32) == target);
                    assert(made_write(before, writes[slot], out));
                    calls = calls.push((before, out));
                    rest = rest.drop_first();
                    assert(writes.take(calls.len() as int) =~= writes.take(slot) + seq![writes[slot]]);
                    assert(calls[slot].0 == before);
                }
                match out {
                    Ok(()) => {},
                    Err(e) => {
                        proof {
                            assert(applied(writes, calls, Err::<(), E>(e)));
                        }
                        return Err(e);
                    },
                }
                address = address + count;
                remaining = remaining - count;
                assert(rest =~= zero_writes(address as int, remaining as int) + copies_writes_from(
                    self.copies@,
                    i + 1,
                ) + seq![(self.boot_info_paddr.0 as int, self.boot_info@)]);
            }
            i += 1;
        }
        let ghost before = write;
        let ghost slot = calls.len() as int;
        let info = self.boot_info.as_slice();
        let out = write(self.boot_info_paddr, info);
        proof {
            assert(rest =~= seq![(self.boot_info_paddr.0 as int, self.boot_info@)]);
            assert(writes[slot] == rest[0]);
            assert(call_ensures(before, (self.boot_info_paddr, info), out));
            assert(PhysicalAddress(writes[slot].0 as u32) == self.boot_info_paddr);
            assert(made_write(before, writes[slot], out));
            calls = calls.push((before, out));
            assert(calls[slot].0 == before);
            assert(calls.len() == writes.len());
            assert(applied(writes, calls, out));
        }
        out
    }
}

} // verus!
