use vstd::prelude::*;

use std::collections::BTreeSet;

use crate::platform::address::{PhysicalAddress, PhysicalRange};
use crate::platform::mmap::{MemRegion, RAM_BASE, RAM_SIZE};
use crate::platform::observability::{BlockInspection, BlockUnitInspection};
use crate::platform::peripheral::Peripheral;
use crate::platform::peripherals::block::{
    Error, Register, STATUS_BUSY, STATUS_COMPLETE, STATUS_ERROR, UNIT_COUNT, error_code_spec,
};
use crate::platform::peripherals::interrupt::Source;

use super::error::{CoreError, Result};
use super::interrupt::InterruptSignal;
use super::memory::{PhysicalMemory, splice};

verus! {

/// Bytes per block sector.
pub const SECTOR_SIZE: usize = 512;
/// Virtual ticks between accepting a command and completing it.
pub const COMPLETION_DELAY: u64 = 32;

/// One state-changing block-device input.
pub enum BlockUpdate {
    Attach { unit: u32, media: Vec<u8> },
    Detach { unit: u32 },
    Write { register: Register, value: u32, now: u64 },
    FlushFailed { unit: u32 },
}

/// An accepted command with the register values it snapshotted.
#[derive(Clone, Copy, Debug, PartialEq, Eq, Structural)]
pub struct Request {
    pub command: u32,
    pub lba: u32,
    pub sector_count: u32,
    pub dma_address: PhysicalAddress,
    pub unit: u32,
    pub deadline: u64,
}

/// Media and write-back state of one unit.
pub struct MediaUnit {
    media: Option<Vec<u8>>,
    dirty_sectors: BTreeSet<u64>,
}

/// Abstract state of one media unit.
pub struct UnitView {
    pub media: Option<Seq<u8>>,
    pub dirty: Set<u64>,
}

impl View for MediaUnit {
    type V = UnitView;

    closed spec fn view(&self) -> UnitView {
        UnitView {
            media: match self.media {
                Some(m) => Some(m@),
                None => None,
            },
            dirty: self.dirty_sectors@,
        }
    }
}

/// The sectors `[lba, lba + count)`.
pub open spec fn sector_span(lba: u32, count: u32) -> Set<u64> {
    Set::new(|s: u64| lba <= s < lba + count)
}

impl MediaUnit {
    fn detached() -> (r: Self)
        ensures
            r@.media is None,
            r@.dirty == Set::<u64>::empty(),
    {
        MediaUnit { media: None, dirty_sectors: BTreeSet::new() }
    }

    fn replace_media(&mut self, media: Option<Vec<u8>>)
        ensures
            final(self)@.media == (match media {
                Some(m) => Some(m@),
                None => None::<Seq<u8>>,
            }),
            final(self)@.dirty == Set::<u64>::empty(),
    {
        self.media = media;
        self.dirty_sectors.clear();
    }

    fn dirty_count(&self) -> (r: usize)
        ensures
            r == self@.dirty.len(),
    {
        self.dirty_sectors.len()
    }

    fn media_clone(&self) -> (r: Option<Vec<u8>>)
        ensures
            match r {
                Some(m) => self@.media == Some(m@),
                None => self@.media is None,
            },
    {
        match &self.media {
            Some(m) => Some(m.clone()),
            None => None,
        }
    }

    /// Marks `[lba, lba + count)` dirty.
    fn mark_dirty(&mut self, lba: u32, count: u32)
        ensures
            final(self)@.media == old(self)@.media,
            final(self)@.dirty == old(self)@.dirty.union(sector_span(lba, count)),
    {
        let end = lba as u64 + count as u64;
        let mut sector = lba as u64;
        while sector < end
            invariant
                lba <= sector <= end,
                end == lba + count,
                self@.media == old(self)@.media,
                self@.dirty == old(self)@.dirty.union(Set::new(|s: u64| lba <= s < sector)),
            decreases end - sector,
        {
            self.dirty_sectors.insert(sector);
            sector = sector + 1;
            assert(self@.dirty =~= old(self)@.dirty.union(Set::new(|s: u64| lba <= s < sector)));
        }
        assert(self@.dirty =~= old(self)@.dirty.union(sector_span(lba, count)));
    }
}

/// Abstract block-device state.
pub struct BlockView {
    pub lba: u32,
    pub sector_count: u32,
    pub dma_address: u32,
    pub unit: u32,
    pub irq_enabled: bool,
    pub complete: bool,
    pub error: Error,
    pub active: Option<Request>,
    /// Media of units 0 and 1.
    pub media: Seq<Option<Seq<u8>>>,
    /// Dirty sectors of units 0 and 1.
    pub dirty: Seq<Set<u64>>,
    /// Level transitions raised but not yet delivered, oldest first.
    pub outbox: Seq<InterruptSignal>,
}

/// Whether a guest write to `register` at `now` schedules only a
/// completion that fits in 64 bits: a COMMAND accepted by an idle
/// controller completes a fixed delay after `now`.
pub open spec fn block_write_fits(v: BlockView, register: Register, now: u64) -> bool {
    register == Register::Command && v.active is None ==> now + COMPLETION_DELAY <= u64::MAX
}

/// The STATUS register.
pub open spec fn block_status(v: BlockView) -> u32 {
    ((if v.active is Some {
        STATUS_BUSY
    } else {
        0u32
    }) + (if v.complete {
        STATUS_COMPLETE
    } else {
        0u32
    }) + (if v.error != Error::NoError {
        STATUS_ERROR
    } else {
        0u32
    })) as u32
}

/// Whether the completion interrupt is asserted.
pub open spec fn block_irq(v: BlockView) -> bool {
    v.irq_enabled && v.complete
}

/// `v` after raising its current interrupt level.
pub open spec fn block_signaled(v: BlockView) -> BlockView {
    BlockView {
        outbox: v.outbox.push(InterruptSignal { source: Source::Block, pending: block_irq(v) }),
        ..v
    }
}

/// The guest error a request fails with, if it fails, given the media of its
/// unit: the unit must exist, the command must be READ (1) or WRITE (2), the
/// transfer must be a nonempty, sector-aligned range of RAM, the unit must
/// hold media, and the sectors must lie inside the media.
pub open spec fn request_failure(request: Request, media: Option<Seq<u8>>) -> Option<Error> {
    let bytes = request.sector_count * 512;
    let dma = request.dma_address.0;
    if request.unit >= 2 {
        Some(Error::InvalidUnit)
    } else if request.command != 1 && request.command != 2 {
        Some(Error::InvalidCommand)
    } else if bytes > u32::MAX || bytes == 0 || dma + bytes > 0x1_0000_0000 {
        Some(Error::InvalidDma)
    } else if dma % 512 != 0 || !(RAM_BASE <= dma && dma + bytes <= RAM_BASE + RAM_SIZE) {
        Some(Error::InvalidDma)
    } else if media is None {
        Some(Error::NoMedia)
    } else if request.lba * 512 + bytes > media->0.len() {
        Some(Error::InvalidLba)
    } else {
        None
    }
}

/// Media of the unit a request names.
pub open spec fn request_media(v: BlockView, request: Request) -> Option<Seq<u8>> {
    if request.unit < 2 {
        v.media[request.unit as int]
    } else {
        None
    }
}

/// Device state and RAM after executing `request` against `v` and RAM
/// `ram`: a READ (1) copies media sectors into RAM, a WRITE (2) copies RAM
/// into media sectors and marks them dirty, and a failed request changes
/// nothing but ERROR.
pub open spec fn execute_spec(v: BlockView, ram: Seq<u8>, request: Request) -> (BlockView, Seq<u8>) {
    let start = request.lba * 512;
    let bytes = request.sector_count * 512;
    let offset = request.dma_address.0 - RAM_BASE;
    let u = request.unit as int;
    let media = request_media(v, request)->0;
    match request_failure(request, request_media(v, request)) {
        Some(e) => (BlockView { error: e, ..v }, ram),
        None => if request.command == 1 {
            (BlockView { error: Error::NoError, ..v }, splice(ram, offset, media.subrange(start, start + bytes)))
        } else {
            (
                BlockView {
                    error: Error::NoError,
                    media: v.media.update(u, Some(splice(media, start, ram.subrange(offset, offset + bytes)))),
                    dirty: v.dirty.update(u, v.dirty[u].union(sector_span(request.lba, request.sector_count))),
                    ..v
                },
                ram,
            )
        },
    }
}

/// A READ that passes validation copies the addressed sectors of its unit
/// into RAM at its DMA address: RAM byte `dma + i` becomes media byte
/// `lba * 512 + i` for every byte of the transfer, the rest of RAM and all
/// media stay as they were, and ERROR is cleared.
pub proof fn lemma_read_copies_sectors(v: BlockView, ram: Seq<u8>, request: Request)
    requires
        ram.len() == RAM_SIZE,
        request.command == 1,
        request_failure(request, request_media(v, request)) is None,
    ensures
        ({
            let (after, ram1) = execute_spec(v, ram, request);
            let offset = request.dma_address.0 - RAM_BASE;
            let bytes = request.sector_count * 512;
            let media = v.media[request.unit as int]->0;
            &&& ram1.len() == ram.len()
            &&& forall|j: int|
                offset <= j < offset + bytes ==> #[trigger] ram1[j] == media[request.lba * 512 + (j - offset)]
            &&& forall|j: int| 0 <= j < ram.len() && !(offset <= j < offset + bytes) ==> #[trigger] ram1[j] == ram[j]
            &&& after.media == v.media
            &&& after.error == Error::NoError
        }),
{
}

/// A WRITE that passes validation copies RAM at its DMA address into the
/// addressed sectors of its unit: media byte `lba * 512 + i` becomes RAM
/// byte `dma + i` for every byte of the transfer, the rest of the media
/// and RAM stay as they were, and the written sectors become dirty.
pub proof fn lemma_write_copies_ram(v: BlockView, ram: Seq<u8>, request: Request)
    requires
        ram.len() == RAM_SIZE,
        v.media.len() == 2,
        v.dirty.len() == 2,
        request.command == 2,
        request_failure(request, request_media(v, request)) is None,
    ensures
        ({
            let (after, ram1) = execute_spec(v, ram, request);
            let offset = request.dma_address.0 - RAM_BASE;
            let start = request.lba * 512;
            let bytes = request.sector_count * 512;
            let u = request.unit as int;
            let media = v.media[u]->0;
            &&& ram1 == ram
            &&& after.media.len() == v.media.len()
            &&& after.media[u] matches Some(written) && written.len() == media.len() && (forall|k: int|
                start <= k < start + bytes ==> #[trigger] written[k] == ram[offset + (k - start)]) && (forall|k: int|
                0 <= k < media.len() && !(start <= k < start + bytes) ==> #[trigger] written[k] == media[k])
            &&& forall|w: int| 0 <= w < v.media.len() && w != u ==> #[trigger] after.media[w] == v.media[w]
            &&& forall|sector: u64|
                request.lba <= sector < request.lba + request.sector_count ==> #[trigger] after.dirty[u].contains(
                    sector,
                )
            &&& after.error == Error::NoError
        }),
{
}

/// A request that fails validation touches neither RAM nor any media or
/// dirty set: it only reports its error.
pub proof fn lemma_refused_request_changes_nothing(v: BlockView, ram: Seq<u8>, request: Request)
    requires
        request_failure(request, request_media(v, request)) is Some,
    ensures
        execute_spec(v, ram, request).1 == ram,
        execute_spec(v, ram, request).0.media == v.media,
        execute_spec(v, ram, request).0.dirty == v.dirty,
        execute_spec(v, ram, request).0.error != Error::NoError,
{
}

/// Reading back what a WRITE stored returns the written bytes: a READ of
/// the same unit, sectors and count, to any valid DMA address, fills RAM
/// with the bytes the WRITE took from RAM.
pub proof fn lemma_read_after_write(v: BlockView, ram: Seq<u8>, write: Request, read: Request)
    requires
        ram.len() == RAM_SIZE,
        v.media.len() == 2,
        v.dirty.len() == 2,
        write.command == 2,
        request_failure(write, request_media(v, write)) is None,
        read.command == 1,
        read.unit == write.unit,
        read.lba == write.lba,
        read.sector_count == write.sector_count,
        request_failure(read, request_media(execute_spec(v, ram, write).0, read)) is None,
    ensures
        ({
            let (written, ram1) = execute_spec(v, ram, write);
            let ram2 = execute_spec(written, ram1, read).1;
            let from = write.dma_address.0 - RAM_BASE;
            let to = read.dma_address.0 - RAM_BASE;
            forall|j: int| to <= j < to + read.sector_count * 512 ==> #[trigger] ram2[j] == ram[from + (j - to)]
        }),
{
    lemma_write_copies_ram(v, ram, write);
    lemma_read_copies_sectors(execute_spec(v, ram, write).0, execute_spec(v, ram, write).1, read);
}

/// Device state and RAM after completing every request due at `now`:
/// the active request, once its deadline has passed, executes, sets
/// COMPLETE and raises the interrupt level.
pub open spec fn advance_spec(v: BlockView, ram: Seq<u8>, now: u64) -> (BlockView, Seq<u8>) {
    match v.active {
        Some(request) => if request.deadline <= now {
            let (w, ram1) = execute_spec(BlockView { active: None, ..v }, ram, request);
            (block_signaled(BlockView { complete: true, ..w }), ram1)
        } else {
            (v, ram)
        },
        None => (v, ram),
    }
}

/// Block state after a guest write of `value` to a register other than
/// COMMAND, before the interrupt level is raised.
pub open spec fn block_write_spec(v: BlockView, register: Register, value: u32) -> BlockView {
    match register {
        Register::Lba => BlockView { lba: value, ..v },
        Register::SectorCount => BlockView { sector_count: value, ..v },
        Register::PhysicalAddress => BlockView { dma_address: value, ..v },
        Register::Ack => BlockView { complete: false, error: Error::NoError, ..v },
        Register::Control => BlockView { irq_enabled: value & 1 != 0, ..v },
        Register::Unit => BlockView { unit: value, ..v },
        _ => v,
    }
}

/// Block state after COMMAND `command` at `now`: a second command while one
/// is active reports BUSY and leaves the active request alone; otherwise the
/// command snapshots the transfer registers and completes after the fixed
/// delay.
pub open spec fn block_command_spec(v: BlockView, command: u32, now: u64) -> BlockView {
    if v.active is Some {
        BlockView { complete: true, error: Error::Busy, ..v }
    } else {
        BlockView {
            complete: false,
            error: Error::NoError,
            active: Some(
                Request {
                    command,
                    lba: v.lba,
                    sector_count: v.sector_count,
                    dma_address: PhysicalAddress(v.dma_address),
                    unit: v.unit,
                    deadline: (now + COMPLETION_DELAY) as u64,
                },
            ),
            ..v
        }
    }
}

/// The value a guest read of `register` returns.
pub open spec fn block_read_spec(v: BlockView, register: Register) -> u32 {
    match register {
        Register::Lba => v.lba,
        Register::SectorCount => v.sector_count,
        Register::PhysicalAddress => v.dma_address,
        Register::Status => block_status(v),
        Register::Error => error_code_spec(v.error),
        Register::Control => if v.irq_enabled {
            1
        } else {
            0
        },
        Register::Unit => v.unit,
        Register::Command | Register::Ack => 0,
    }
}

/// Block state after a failed media flush is reported to the guest.
pub open spec fn flush_failed(v: BlockView) -> BlockView {
    block_signaled(BlockView { error: Error::DeferredPersistence, complete: true, ..v })
}

/// Write-back block media and its guest-visible command state.
/// Whether inspection `r` reports the state `v`.
pub open spec fn block_inspected(r: BlockInspection, v: BlockView) -> bool {
    &&& r.lba == v.lba
    &&& r.sector_count == v.sector_count
    &&& r.dma_address == v.dma_address
    &&& r.control == (if v.irq_enabled { 1u32 } else { 0u32 })
    &&& r.status == block_status(v)
    &&& r.error == error_code_spec(v.error)
    &&& r.unit == v.unit
    &&& r.active_unit == (match v.active { Some(request) => Some(request.unit), None => None })
    &&& r.units[0].dirty_sector_count == v.dirty[0].len()
    &&& r.units[0].media_attached == v.media[0] is Some
    &&& r.units[1].dirty_sector_count == v.dirty[1].len()
    &&& r.units[1].media_attached == v.media[1] is Some
}

/// Whether a flush of `unit` through `write_media` took the device from
/// `before` to `after` with result `r`: a unit past the second is refused,
/// a clean unit stays as it is, dirty sectors without media are refused,
/// and otherwise the media is handed to `write_media`, whose success
/// clears the dirty set and whose failure keeps it and reports deferred
/// persistence.
pub open spec fn flushed<F: FnMut(&[u8]) -> std::io::Result<()>>(
    before: BlockView,
    unit: u32,
    write_media: F,
    after: BlockView,
    r: Result<()>,
) -> bool {
    if unit >= 2 {
        (r matches Err(CoreError::InvalidBlockUnit(u)) && u == unit) && after == before
    } else if before.dirty[unit as int].is_empty() {
        r is Ok && after == before
    } else if before.media[unit as int] is None {
        (r matches Err(CoreError::InvalidBlockMedia { unit: u }) && u == unit) && after == before
    } else {
        ||| (r is Ok && after == BlockView { dirty: before.dirty.update(unit as int, Set::<u64>::empty()), ..before }
            && exists|media: &[u8], outcome: std::io::Result<()>|
            media@ == before.media[unit as int]->0 && #[trigger] call_ensures(write_media, (media,), outcome)
                && outcome is Ok)
        ||| (r matches Err(CoreError::BlockFlush { unit: u, source }) && u == unit && after == flush_failed(before)
            && exists|media: &[u8], outcome: std::io::Result<()>|
            media@ == before.media[unit as int]->0 && #[trigger] call_ensures(write_media, (media,), outcome)
                && outcome == Err::<(), std::io::Error>(source))
    }
}

/// Whether flushing unit 0 through `unit0`'s writer, if any, took the
/// device from `before` to `middle` with result `first`, and then unit 1
/// through `unit1`'s writer, if any, took it to `after` with `second`.
pub open spec fn flushed_in_order<F0: FnMut(&[u8]) -> std::io::Result<()>, F1: FnMut(&[u8]) -> std::io::Result<()>>(
    before: BlockView,
    unit0: Option<F0>,
    unit1: Option<F1>,
    middle: BlockView,
    after: BlockView,
    first: Result<()>,
    second: Result<()>,
) -> bool {
    &&& match unit0 {
        Some(w) => flushed(before, 0, w, middle, first),
        None => middle == before && first is Ok,
    }
    &&& match unit1 {
        Some(w) => flushed(middle, 1, w, after, second),
        None => after == middle && second is Ok,
    }
}

/// The failures of two flushes in order: the first one as the result,
/// and the second one beside it when both failed.
pub open spec fn first_failures(first: Result<()>, second: Result<()>) -> (Result<()>, Option<CoreError>) {
    match first {
        Err(a) => match second {
            Err(b) => (Err(a), Some(b)),
            Ok(_) => (Err(a), None),
        },
        Ok(_) => match second {
            Err(b) => (Err(b), None),
            Ok(_) => (Ok(()), None),
        },
    }
}

pub struct BlockDevice {
    lba: u32,
    sector_count: u32,
    dma_address: PhysicalAddress,
    unit: u32,
    completion_irq_enabled: bool,
    complete: bool,
    error: Error,
    active: Option<Request>,
    unit0: MediaUnit,
    unit1: MediaUnit,
    outbox: Vec<InterruptSignal>,
}

impl View for BlockDevice {
    type V = BlockView;

    closed spec fn view(&self) -> BlockView {
        BlockView {
            lba: self.lba,
            sector_count: self.sector_count,
            dma_address: self.dma_address.0,
            unit: self.unit,
            irq_enabled: self.completion_irq_enabled,
            complete: self.complete,
            error: self.error,
            active: self.active,
            media: seq![self.unit0@.media, self.unit1@.media],
            dirty: seq![self.unit0@.dirty, self.unit1@.dirty],
            outbox: self.outbox@,
        }
    }
}

impl BlockDevice {
    /// Units are numbered below `UNIT_COUNT`.
    pub open spec fn units_wf(&self) -> bool {
        self@.media.len() == 2 && self@.dirty.len() == 2
    }

    /// Reset state: registers zero, idle, no media.
    pub open spec fn new_spec() -> BlockView {
        BlockView {
            lba: 0,
            sector_count: 0,
            dma_address: 0,
            unit: 0,
            irq_enabled: false,
            complete: false,
            error: Error::NoError,
            active: None,
            media: seq![None::<Seq<u8>>, None::<Seq<u8>>],
            dirty: seq![Set::<u64>::empty(), Set::<u64>::empty()],
            outbox: Seq::empty(),
        }
    }

    pub fn new() -> (r: Self)
        ensures
            r@ == Self::new_spec(),
            r@.lba == 0 && r@.sector_count == 0 && r@.dma_address == 0 && r@.unit == 0,
            !r@.irq_enabled && !r@.complete && r@.error == Error::NoError && r@.active is None,
            r@.media == seq![None::<Seq<u8>>, None::<Seq<u8>>],
            r@.dirty == seq![Set::<u64>::empty(), Set::<u64>::empty()],
            r@.outbox == Seq::<InterruptSignal>::empty(),
    {
        BlockDevice {
            lba: 0,
            sector_count: 0,
            dma_address: PhysicalAddress::new(0),
            unit: 0,
            completion_irq_enabled: false,
            complete: false,
            error: Error::NoError,
            active: None,
            unit0: MediaUnit::detached(),
            unit1: MediaUnit::detached(),
            outbox: Vec::new(),
        }
    }

    fn unit_index(unit: u32) -> (r: Result<usize>)
        ensures
            unit < UNIT_COUNT ==> (r matches Ok(i) && i == unit),
            unit >= UNIT_COUNT ==> (r matches Err(CoreError::InvalidBlockUnit(u)) && u == unit),
    {
        if unit < UNIT_COUNT as u32 {
            Ok(unit as usize)
        } else {
            Err(CoreError::InvalidBlockUnit(unit))
        }
    }

    /// Attaches media to a unit, clearing its dirty sectors; media must be
    /// a nonzero whole number of sectors.
    pub fn attach(&mut self, unit: u32, media: Vec<u8>) -> (r: Result<()>)
        ensures
            media@.len() == 0 || media@.len() % 512 != 0 ==> (r matches Err(
                CoreError::InvalidBlockMedia { unit: u },
            ) && u == unit && final(self)@ == old(self)@),
            media@.len() != 0 && media@.len() % 512 == 0 && unit >= 2 ==> (r matches Err(
                CoreError::InvalidBlockUnit(u),
            ) && u == unit && final(self)@ == old(self)@),
            media@.len() != 0 && media@.len() % 512 == 0 && unit < 2 ==> r is Ok && final(self)@
                == (BlockView {
                media: old(self)@.media.update(unit as int, Some(media@)),
                dirty: old(self)@.dirty.update(unit as int, Set::<u64>::empty()),
                ..old(self)@
            }),
    {
        if media.len() == 0 || media.len() % SECTOR_SIZE != 0 {
            return Err(CoreError::InvalidBlockMedia { unit });
        }
        let index = Self::unit_index(unit)?;
        let ghost m = media@;
        if index == 0 {
            self.unit0.replace_media(Some(media));
        } else {
            self.unit1.replace_media(Some(media));
        }
        assert(self@.media =~= old(self)@.media.update(unit as int, Some(m)));
        assert(self@.dirty =~= old(self)@.dirty.update(unit as int, Set::<u64>::empty()));
        Ok(())
    }

    /// Detaches a unit's media and clears its dirty sectors.
    pub fn detach(&mut self, unit: u32) -> (r: Result<()>)
        ensures
            unit >= 2 ==> (r matches Err(CoreError::InvalidBlockUnit(u)) && u == unit && final(self)@ == old(self)@),
            unit < 2 ==> r is Ok && final(self)@ == (BlockView {
                media: old(self)@.media.update(unit as int, None),
                dirty: old(self)@.dirty.update(unit as int, Set::<u64>::empty()),
                ..old(self)@
            }),
    {
        let index = Self::unit_index(unit)?;
        if index == 0 {
            self.unit0.replace_media(None);
        } else {
            self.unit1.replace_media(None);
        }
        assert(self@.media =~= old(self)@.media.update(unit as int, None));
        assert(self@.dirty =~= old(self)@.dirty.update(unit as int, Set::<u64>::empty()));
        Ok(())
    }

    pub fn status(&self) -> (r: u32)
        ensures
            r == block_status(self@),
    {
        (if self.active.is_some() {
            STATUS_BUSY
        } else {
            0
        }) + (if self.complete {
            STATUS_COMPLETE
        } else {
            0
        }) + (if matches!(self.error, Error::NoError) {
            0
        } else {
            STATUS_ERROR
        })
    }

    pub fn error(&self) -> (r: Error)
        ensures
            r == self@.error,
    {
        self.error
    }

    pub fn lba(&self) -> (r: u32)
        ensures
            r == self@.lba,
    {
        self.lba
    }

    pub fn sector_count(&self) -> (r: u32)
        ensures
            r == self@.sector_count,
    {
        self.sector_count
    }

    pub fn dma_address(&self) -> (r: PhysicalAddress)
        ensures
            r.0 == self@.dma_address,
    {
        self.dma_address
    }

    pub fn unit(&self) -> (r: u32)
        ensures
            r == self@.unit,
    {
        self.unit
    }

    pub fn irq_pending(&self) -> (r: bool)
        ensures
            r == block_irq(self@),
    {
        self.completion_irq_enabled && self.complete
    }

    pub fn control(&self) -> (r: u32)
        ensures
            r == (if self@.irq_enabled {
                1u32
            } else {
                0u32
            }),
    {
        if self.completion_irq_enabled {
            1
        } else {
            0
        }
    }

    /// Writes LBA.
    pub fn set_lba(&mut self, lba: u32)
        ensures
            final(self)@ == (BlockView { lba, ..old(self)@ }),
    {
        self.lba = lba;
    }

    /// Writes SECTOR_COUNT.
    pub fn set_sector_count(&mut self, sector_count: u32)
        ensures
            final(self)@ == (BlockView { sector_count, ..old(self)@ }),
    {
        self.sector_count = sector_count;
    }

    /// Writes the DMA physical address.
    pub fn set_dma_address(&mut self, dma_address: PhysicalAddress)
        ensures
            final(self)@ == (BlockView { dma_address: dma_address.0, ..old(self)@ }),
    {
        self.dma_address = dma_address;
    }

    /// Writes UNIT.
    pub fn set_unit(&mut self, unit: u32)
        ensures
            final(self)@ == (BlockView { unit, ..old(self)@ }),
    {
        self.unit = unit;
    }

    /// Writes CONTROL: bit 0 enables the completion interrupt.
    pub fn set_control(&mut self, control: u32)
        ensures
            final(self)@ == (BlockView { irq_enabled: control & 1 != 0, ..old(self)@ }),
    {
        self.completion_irq_enabled = control & 1 != 0;
    }

    /// Whether a guest write to `register` at `now` schedules only a
    /// completion that fits in 64 bits.
    pub fn write_fits(&self, register: Register, now: u64) -> (r: bool)
        ensures
            r == block_write_fits(self@, register, now),
    {
        !(matches!(register, Register::Command) && self.active.is_none()) || now <= u64::MAX - COMPLETION_DELAY
    }

    /// Starts an accepted command, including one that will later report a guest error.
    pub fn command(&mut self, command: u32, now: u64)
        requires
            old(self)@.active is None ==> now + COMPLETION_DELAY <= u64::MAX,
        ensures
            final(self)@ == block_command_spec(old(self)@, command, now),
    {
        if self.active.is_some() {
            self.complete = true;
            self.error = Error::Busy;
            return;
        }
        self.complete = false;
        self.error = Error::NoError;
        self.active = Some(
            Request {
                command,
                lba: self.lba,
                sector_count: self.sector_count,
                dma_address: self.dma_address,
                unit: self.unit,
                deadline: now + COMPLETION_DELAY,
            },
        );
    }

    /// Acknowledges completion: clears COMPLETE and ERROR.
    pub fn ack(&mut self)
        ensures
            final(self)@ == (BlockView { complete: false, error: Error::NoError, ..old(self)@ }),
    {
        self.complete = false;
        self.error = Error::NoError;
    }

    fn signal_interrupt(&mut self)
        ensures
            final(self)@ == block_signaled(old(self)@),
    {
        let pending = self.irq_pending();
        self.outbox.push(InterruptSignal { source: Source::Block, pending });
    }

    /// Hands out the raised level transitions, oldest first.
    pub fn take_signals(&mut self) -> (r: Vec<InterruptSignal>)
        ensures
            r@ == old(self)@.outbox,
            final(self)@ == (BlockView { outbox: Seq::empty(), ..old(self)@ }),
    {
        let mut taken = Vec::new();
        std::mem::swap(&mut taken, &mut self.outbox);
        taken
    }

    /// Records a failed host flush for the guest.
    fn mark_flush_failed(&mut self)
        ensures
            final(self)@ == flush_failed(old(self)@),
    {
        self.error = Error::DeferredPersistence;
        self.complete = true;
        self.signal_interrupt();
    }

    /// Checks a request against its unit's media.
    fn validate(&self, request: Request) -> (r: Option<Error>)
        ensures
            r == request_failure(request, request_media(self@, request)),
    {
        if request.unit >= UNIT_COUNT as u32 {
            return Some(Error::InvalidUnit);
        }
        if request.command != 1 && request.command != 2 {
            return Some(Error::InvalidCommand);
        }
        let bytes = request.sector_count as u64 * SECTOR_SIZE as u64;
        if bytes > u32::MAX as u64 {
            return Some(Error::InvalidDma);
        }
        let dma_range = match PhysicalRange::new(request.dma_address, bytes as u32) {
            Ok(range) => range,
            Err(_) => return Some(Error::InvalidDma),
        };
        if request.dma_address.get() % SECTOR_SIZE as u32 != 0 || !MemRegion::Ram.range().contains_range(
            dma_range,
        ) {
            return Some(Error::InvalidDma);
        }
        let unit = if request.unit == 0 {
            &self.unit0
        } else {
            &self.unit1
        };
        let media = match &unit.media {
            Some(media) => media,
            None => return Some(Error::NoMedia),
        };
        let start = request.lba as u64 * SECTOR_SIZE as u64;
        if start + bytes > media.len() as u64 {
            return Some(Error::InvalidLba);
        }
        None
    }

    /// Performs a request's transfer, or reports why it fails.
    fn execute(&mut self, request: Request, memory: &mut PhysicalMemory) -> (r: Error)
        requires
            old(memory).sized(),
        ensures
            (BlockView { error: r, ..final(self)@ }, final(memory).ram_view()) == execute_spec(
                old(self)@,
                old(memory).ram_view(),
                request,
            ),
            final(self)@.error == old(self)@.error,
            final(memory).sized(),
            final(memory).boot_rom_view() == old(memory).boot_rom_view(),
            final(memory).system_rom_view() == old(memory).system_rom_view(),
    {
        if let Some(e) = self.validate(request) {
            return e;
        }
        let media_len = if request.unit == 0 {
            self.unit0.media_len()
        } else {
            self.unit1.media_len()
        };
        let bytes64 = request.sector_count as u64 * SECTOR_SIZE as u64;
        let start64 = request.lba as u64 * SECTOR_SIZE as u64;
        assert(start64 + bytes64 <= media_len);
        let bytes = bytes64 as usize;
        let start = start64 as usize;
        let offset = (request.dma_address.get() - RAM_BASE) as usize;
        let ghost u = request.unit as int;
        proof {
            crate::platform::mmap::lemma_region_of_is_exact(request.dma_address.0, MemRegion::Ram);
            assert(old(memory).resolve_write(request.dma_address.0, bytes as int) matches Ok(o) && o == offset);
        }
        if request.command == 1 {
            let result = if request.unit == 0 {
                self.unit0.copy_to_memory(start, bytes, request.dma_address, memory)
            } else {
                self.unit1.copy_to_memory(start, bytes, request.dma_address, memory)
            };
            if result.is_err() {
                return Error::InvalidDma;
            }
        } else {
            let dma_range = match PhysicalRange::new(request.dma_address, bytes as u32) {
                Ok(range) => range,
                Err(_) => return Error::InvalidDma,
            };
            let mut buffer: Vec<u8> = vec![0u8; bytes];
            let read = memory.read_range(dma_range, buffer.as_mut_slice());
            if read.is_err() {
                return Error::InvalidDma;
            }
            if request.unit == 0 {
                self.unit0.copy_from_buffer(start, &buffer, request.lba, request.sector_count);
            } else {
                self.unit1.copy_from_buffer(start, &buffer, request.lba, request.sector_count);
            }
            assert(self@.media =~= old(self)@.media.update(u, Some(splice(request_media(old(self)@, request)->0, start as int, old(memory).ram_view().subrange(offset as int, offset + bytes)))));
            assert(self@.dirty =~= old(self)@.dirty.update(u, old(self)@.dirty[u].union(sector_span(request.lba, request.sector_count))));
        }
        Error::NoError
    }

    /// Completes a due request and returns whether the block IRQ level changed to pending.
    pub fn advance_to(&mut self, now: u64, memory: &mut PhysicalMemory) -> (r: bool)
        requires
            old(memory).sized(),
        ensures
            (final(self)@, final(memory).ram_view()) == advance_spec(old(self)@, old(memory).ram_view(), now),
            r == (old(self)@.active is Some && old(self)@.active->0.deadline <= now && !block_irq(old(self)@)
                && block_irq(final(self)@)),
            final(memory).sized(),
            final(memory).boot_rom_view() == old(memory).boot_rom_view(),
            final(memory).system_rom_view() == old(memory).system_rom_view(),
    {
        let request = match self.active {
            Some(request) => request,
            None => return false,
        };
        if request.deadline > now {
            return false;
        }
        let was_pending = self.irq_pending();
        self.active = None;
        let error = self.execute(request, memory);
        self.error = error;
        self.complete = true;
        self.signal_interrupt();
        !was_pending && self.irq_pending()
    }

    /// Flushes unit 0 and then unit 1, each through its writer when it has
    /// one; unit 1 is flushed even when unit 0 fails. Returns the first
    /// failure, and the other one too when both fail.
    pub fn flush_units<F0: FnMut(&[u8]) -> std::io::Result<()>, F1: FnMut(&[u8]) -> std::io::Result<()>>(
        &mut self,
        unit0: Option<F0>,
        unit1: Option<F1>,
    ) -> (r: (Result<()>, Option<CoreError>))
        requires
            unit0 matches Some(w) ==> forall|media: &[u8]| w.requires((media,)),
            unit1 matches Some(w) ==> forall|media: &[u8]| w.requires((media,)),
        ensures
            exists|middle: BlockView, first: Result<()>, second: Result<()>|
                #[trigger] flushed_in_order(old(self)@, unit0, unit1, middle, final(self)@, first, second)
                    && r == first_failures(first, second),
    {
        let first = match unit0 {
            Some(w) => self.flush(0, w),
            None => Ok(()),
        };
        let ghost middle = self@;
        let ghost first_result = first;
        let second = match unit1 {
            Some(w) => self.flush(1, w),
            None => Ok(()),
        };
        let ghost second_result = second;
        let r = match first {
            Err(a) => match second {
                Err(b) => (Err(a), Some(b)),
                Ok(()) => (Err(a), None),
            },
            Ok(()) => match second {
                Err(b) => (Err(b), None),
                Ok(()) => (Ok(()), None),
            },
        };
        assert(flushed_in_order(old(self)@, unit0, unit1, middle, self@, first_result, second_result));
        assert(r == first_failures(first_result, second_result));
        r
    }

    /// Writes a unit's media back through `write_media` when it has dirty
    /// sectors; a failed write keeps the dirty sectors for a retry and
    /// reports deferred persistence to the guest.
    pub fn flush<F: FnMut(&[u8]) -> std::io::Result<()>>(&mut self, unit: u32, write_media: F) -> (r: Result<()>)
        requires
            forall|media: &[u8]| write_media.requires((media,)),
        ensures
            flushed(old(self)@, unit, write_media, final(self)@, r),
    {
        let index = Self::unit_index(unit)?;
        let result = if index == 0 {
            self.unit0.write_back(write_media)
        } else {
            self.unit1.write_back(write_media)
        };
        match result {
            WriteBack::Clean => Ok(()),
            WriteBack::NoMedia => Err(CoreError::InvalidBlockMedia { unit }),
            WriteBack::Written => {
                assert(self@.dirty =~= old(self)@.dirty.update(unit as int, Set::<u64>::empty()));
                assert(self@.media =~= old(self)@.media);
                Ok(())
            },
            WriteBack::Failed(source) => {
                self.mark_flush_failed();
                Err(CoreError::BlockFlush { unit, source })
            },
        }
    }

    /// Returns how many sectors of a unit await write-back.
    pub fn dirty_sector_count(&self, unit: u32) -> (r: Result<usize>)
        ensures
            unit >= 2 ==> (r matches Err(CoreError::InvalidBlockUnit(u)) && u == unit),
            unit < 2 ==> (r matches Ok(n) && n == self@.dirty[unit as int].len()),
    {
        let index = Self::unit_index(unit)?;
        if index == 0 {
            Ok(self.unit0.dirty_count())
        } else {
            Ok(self.unit1.dirty_count())
        }
    }

    /// Clones attached write-back media for a machine reset.
    pub fn media_clone(&self, unit: u32) -> (r: Result<Option<Vec<u8>>>)
        ensures
            unit >= 2 ==> (r matches Err(CoreError::InvalidBlockUnit(u)) && u == unit),
            unit < 2 ==> (r matches Ok(m) && match m {
                Some(media) => self@.media[unit as int] == Some(media@),
                None => self@.media[unit as int] is None,
            }),
    {
        let index = Self::unit_index(unit)?;
        if index == 0 {
            Ok(self.unit0.media_clone())
        } else {
            Ok(self.unit1.media_clone())
        }
    }

    pub fn inspect(&self) -> (r: BlockInspection)
        ensures
            block_inspected(r, self@),
    {
        BlockInspection {
            lba: self.lba,
            sector_count: self.sector_count,
            dma_address: self.dma_address.get(),
            control: self.control(),
            status: self.status(),
            error: self.error.code(),
            unit: self.unit,
            active_unit: match self.active {
                Some(request) => Some(request.unit),
                None => None,
            },
            units: [
                BlockUnitInspection {
                    dirty_sector_count: self.unit0.dirty_count(),
                    media_attached: self.unit0.media.is_some(),
                },
                BlockUnitInspection {
                    dirty_sector_count: self.unit1.dirty_count(),
                    media_attached: self.unit1.media.is_some(),
                },
            ],
        }
    }

    /// Performs a guest read of `register`.
    pub fn read_register(&self, register: Register) -> (r: u32)
        ensures
            r == block_read_spec(self@, register),
    {
        match register {
            Register::Lba => self.lba(),
            Register::SectorCount => self.sector_count(),
            Register::PhysicalAddress => self.dma_address().get(),
            Register::Status => self.status(),
            Register::Error => self.error().code(),
            Register::Control => self.control(),
            Register::Unit => self.unit(),
            Register::Command | Register::Ack => 0,
        }
    }

    /// Performs a guest write of `value` to `register` at `now` and raises
    /// the resulting interrupt level.
    pub fn write_register(&mut self, register: Register, value: u32, now: u64)
        requires
            block_write_fits(old(self)@, register, now),
        ensures
            register == Register::Command ==> final(self)@ == block_signaled(block_command_spec(old(self)@, value, now)),
            register != Register::Command ==> final(self)@ == block_signaled(block_write_spec(old(self)@, register, value)),
    {
        match register {
            Register::Command => self.command(value, now),
            Register::Lba => self.set_lba(value),
            Register::SectorCount => self.set_sector_count(value),
            Register::PhysicalAddress => self.set_dma_address(PhysicalAddress::new(value)),
            Register::Ack => self.ack(),
            Register::Control => self.set_control(value),
            Register::Unit => self.set_unit(value),
            _ => {},
        }
        self.signal_interrupt();
    }

    /// Reports a failed host flush of `unit` to the guest.
    pub fn report_flush_failure(&mut self, unit: u32) -> (r: Result<()>)
        ensures
            unit >= 2 ==> (r matches Err(CoreError::InvalidBlockUnit(u)) && u == unit && final(self)@ == old(self)@),
            unit < 2 ==> r is Ok && final(self)@ == block_signaled(flush_failed(old(self)@)),
    {
        Self::unit_index(unit)?;
        self.mark_flush_failed();
        self.signal_interrupt();
        Ok(())
    }
}

/// Outcome of writing one unit's media back to the host.
pub enum WriteBack {
    /// Nothing was dirty.
    Clean,
    /// Sectors were dirty but no media is attached.
    NoMedia,
    /// The media was written and the dirty set cleared.
    Written,
    /// The host write failed; the dirty set is kept.
    Failed(std::io::Error),
}

impl MediaUnit {
    /// Length of the attached media.
    fn media_len(&self) -> (r: usize)
        requires
            self@.media is Some,
        ensures
            r == self@.media->0.len(),
    {
        match &self.media {
            Some(media) => media.len(),
            None => 0,
        }
    }

    /// Copies `bytes` media bytes at `start` into memory at `address`.
    fn copy_to_memory(&self, start: usize, bytes: usize, address: PhysicalAddress, memory: &mut PhysicalMemory) -> (r: Result<()>)
        requires
            self@.media is Some,
            start + bytes <= self@.media->0.len(),
        ensures
            match old(memory).resolve_write(address.0, bytes as int) {
                Ok(offset) => r is Ok && final(memory).ram_view() == old(memory).with_ram(offset, self@.media->0.subrange(start as int, start + bytes)),
                Err(e) => r is Err && final(memory).ram_view() == old(memory).ram_view(),
            },
            final(memory).boot_rom_view() == old(memory).boot_rom_view(),
            final(memory).system_rom_view() == old(memory).system_rom_view(),
            final(memory).ram_view().len() == old(memory).ram_view().len(),
    {
        match &self.media {
            Some(media) => {
                let available = media.len();
                assert(start + bytes <= available);
                memory.write_range(address, &media.as_slice()[start..start + bytes])
            },
            None => Ok(()),
        }
    }

    /// Overwrites media bytes from `start` with `data` and marks
    /// `[lba, lba + count)` dirty.
    fn copy_from_buffer(&mut self, start: usize, data: &Vec<u8>, lba: u32, count: u32)
        requires
            old(self)@.media is Some,
            start + data@.len() <= old(self)@.media->0.len(),
        ensures
            final(self)@.media == Some(splice(old(self)@.media->0, start as int, data@)),
            final(self)@.dirty == old(self)@.dirty.union(sector_span(lba, count)),
    {
        let mut media = match self.media.take() {
            Some(media) => media,
            None => Vec::new(),
        };
        let ghost m0 = media@;
        let available = media.len();
        let mut i: usize = 0;
        while i < data.len()
            invariant
                i <= data@.len(),
                available == m0.len(),
                start + data@.len() <= available,
                media@.len() == m0.len(),
                forall|j: int| 0 <= j < start ==> media@[j] == m0[j],
                forall|j: int| 0 <= j < i ==> media@[start + j] == data@[j],
                forall|j: int| start + i <= j < m0.len() ==> media@[j] == m0[j],
            decreases data@.len() - i,
        {
            media.set(start + i, data[i]);
            i += 1;
        }
        assert(media@ =~= splice(m0, start as int, data@));
        self.media = Some(media);
        self.mark_dirty(lba, count);
    }

    /// Writes the media back through `write_media` if any sector is dirty.
    fn write_back<F: FnMut(&[u8]) -> std::io::Result<()>>(&mut self, mut write_media: F) -> (r: WriteBack)
        requires
            forall|media: &[u8]| write_media.requires((media,)),
        ensures
            old(self)@.dirty.is_empty() ==> (r is Clean && final(self)@ == old(self)@),
            !old(self)@.dirty.is_empty() && old(self)@.media is None ==> (r is NoMedia && final(self)@ == old(self)@),
            !old(self)@.dirty.is_empty() && old(self)@.media is Some ==> (r is Written || r is Failed),
            r is Written ==> final(self)@.media == old(self)@.media && final(self)@.dirty == Set::<u64>::empty(),
            r is Written ==> exists|media: &[u8], outcome: std::io::Result<()>|
                media@ == old(self)@.media->0 && #[trigger] call_ensures(write_media, (media,), outcome)
                    && outcome is Ok,
            r is Failed ==> final(self)@ == old(self)@,
            r matches WriteBack::Failed(e) ==> exists|media: &[u8], outcome: std::io::Result<()>|
                media@ == old(self)@.media->0 && #[trigger] call_ensures(write_media, (media,), outcome)
                    && outcome == Err::<(), std::io::Error>(e),
    {
        if self.dirty_sectors.is_empty() {
            return WriteBack::Clean;
        }
        let media = match &self.media {
            Some(media) => media.as_slice(),
            None => return WriteBack::NoMedia,
        };
        let outcome = write_media(media);
        assert(media@ == old(self)@.media->0);
        assert(call_ensures(write_media, (media,), outcome));
        match outcome {
            Ok(()) => {
                self.dirty_sectors.clear();
                WriteBack::Written
            },
            Err(e) => {
                assert(outcome == Err::<(), std::io::Error>(e));
                WriteBack::Failed(e)
            },
        }
    }
}

impl Peripheral for BlockDevice {
    type Register = Register;

    type Update = BlockUpdate;

    type Inspection = BlockInspection;

    type Error = CoreError;

    open spec fn update_allowed(&self, update: &BlockUpdate) -> bool {
        match update {
            BlockUpdate::Write { register, now, .. } => block_write_fits(self@, *register, *now),
            _ => true,
        }
    }

    fn read(&mut self, register: Register) -> (r: Result<u32>)
        ensures
            r == Ok::<u32, CoreError>(block_read_spec(old(self)@, register)),
            final(self)@ == old(self)@,
    {
        Ok(self.read_register(register))
    }

    fn update(&mut self, update: BlockUpdate) -> (r: Result<()>)
        ensures
            match update {
                BlockUpdate::Attach { unit, media } => if media@.len() == 0 || media@.len() % 512 != 0 {
                    (r matches Err(CoreError::InvalidBlockMedia { unit: u }) && u == unit) && final(self)@ == old(self)@
                } else if unit >= 2 {
                    (r matches Err(CoreError::InvalidBlockUnit(u)) && u == unit) && final(self)@ == old(self)@
                } else {
                    r is Ok && final(self)@ == block_signaled(BlockView {
                        media: old(self)@.media.update(unit as int, Some(media@)),
                        dirty: old(self)@.dirty.update(unit as int, Set::<u64>::empty()),
                        ..old(self)@
                    })
                },
                BlockUpdate::Detach { unit } => if unit >= 2 {
                    (r matches Err(CoreError::InvalidBlockUnit(u)) && u == unit) && final(self)@ == old(self)@
                } else {
                    r is Ok && final(self)@ == block_signaled(BlockView {
                        media: old(self)@.media.update(unit as int, None),
                        dirty: old(self)@.dirty.update(unit as int, Set::<u64>::empty()),
                        ..old(self)@
                    })
                },
                BlockUpdate::FlushFailed { unit } => if unit >= 2 {
                    (r matches Err(CoreError::InvalidBlockUnit(u)) && u == unit) && final(self)@ == old(self)@
                } else {
                    r is Ok && final(self)@ == block_signaled(flush_failed(old(self)@))
                },
                BlockUpdate::Write { register, value, now } => r is Ok && final(self)@ == block_signaled(
                    if register == Register::Command {
                        block_command_spec(old(self)@, value, now)
                    } else {
                        block_write_spec(old(self)@, register, value)
                    },
                ),
            },
    {
        match update {
            BlockUpdate::Attach { unit, media } => {
                self.attach(unit, media)?;
                self.signal_interrupt();
            },
            BlockUpdate::Detach { unit } => {
                self.detach(unit)?;
                self.signal_interrupt();
            },
            BlockUpdate::FlushFailed { unit } => {
                self.report_flush_failure(unit)?;
            },
            BlockUpdate::Write { register, value, now } => self.write_register(register, value, now),
        }
        Ok(())
    }

    fn inspect(&self) -> (r: BlockInspection)
        ensures
            block_inspected(r, self@),
    {
        BlockDevice::inspect(self)
    }
}

impl Default for BlockDevice {
    fn default() -> (r: Self)
        ensures
            r@ == BlockDevice::new_spec(),
    {
        BlockDevice::new()
    }
}

} // verus!
