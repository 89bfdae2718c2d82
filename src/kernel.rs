//! ELF segment placement: the LOAD segments of a kernel image are copied to
//! their physical addresses and their uninitialised tails are zero-filled.
//!
//! Physical memory is modelled by [`PhysicalMemory`], a window of bytes at a
//! base address; every write is checked against the window. [`segment_plan`]
//! gives the validated LOAD headers for a caller that writes real memory.

use vstd::prelude::*;

verus! {

/// Program-header kind of a loadable segment.
pub const PT_LOAD: u32 = 1;

/// One entry of an ELF program-header table.
#[derive(Clone, Copy, Debug, PartialEq, Eq)]
pub struct ProgramHeader {
    pub kind: u32,
    pub physical_address: u64,
    pub file_size: u64,
    pub memory_size: u64,
    pub file_offset: u64,
}

impl ProgramHeader {
    pub fn new(
        kind: u32,
        physical_address: u64,
        file_size: u64,
        memory_size: u64,
        file_offset: u64,
    ) -> (r: ProgramHeader)
        ensures
            r == (ProgramHeader { kind, physical_address, file_size, memory_size, file_offset }),
    {
        ProgramHeader { kind, physical_address, file_size, memory_size, file_offset }
    }
}

/// Why a kernel image could not be placed.
#[derive(Clone, Copy, Debug, PartialEq, Eq)]
pub enum ElfError {
    /// The image, its program-header table or a LOAD header is malformed.
    Malformed,
    /// A LOAD segment's destination lies outside the memory given to load into.
    OutOfRange,
}

/// The program-header table of a little-endian ELF image, as the `elf` crate
/// parses it; `None` where the image or its table does not parse.
pub uninterp spec fn elf_segment_table(image: Seq<u8>) -> Option<Seq<ProgramHeader>>;

/// Relies on `elf::ElfBytes::<LittleEndian>::minimal_parse` and
/// `ElfBytes::segments`: the parsed program headers in file order, or `None`
/// when the image does not parse or has no program-header table.
#[verifier::external_body]
fn read_program_headers(image: &[u8]) -> (r: Option<Vec<ProgramHeader>>)
    ensures
        elf_segment_table(image@) == match r {
            Some(v) => Some(v@),
            None => Option::<Seq<ProgramHeader>>::None,
        },
{
    let file = elf::ElfBytes::<elf::endian::LittleEndian>::minimal_parse(image).ok()?;
    let table = file.segments()?;
    Some(
        table.iter().map(
            |p| ProgramHeader::new(p.p_type, p.p_paddr, p.p_filesz, p.p_memsz, p.p_offset),
        ).collect(),
    )
}

pub open spec fn is_load(h: ProgramHeader) -> bool {
    h.kind == PT_LOAD
}

/// A LOAD header is sound for an image of `image_len` bytes when its memory
/// size covers its file size, its file bytes lie inside the image and its
/// destination range ends within the 64-bit address space.
pub open spec fn header_sound(h: ProgramHeader, image_len: int) -> bool {
    &&& h.file_size <= h.memory_size
    &&& h.file_offset + h.file_size <= image_len
    &&& h.physical_address + h.memory_size <= u64::MAX + 1
}

/// The destination range `[physical_address, physical_address + memory_size)`
/// lies inside the window `[base, base + len)`.
pub open spec fn region_fits(h: ProgramHeader, base: int, len: int) -> bool {
    base <= h.physical_address && h.physical_address + h.memory_size <= base + len
}

/// The LOAD headers of `hs`, in order.
pub open spec fn load_headers(hs: Seq<ProgramHeader>) -> Seq<ProgramHeader>
    decreases hs.len(),
{
    if hs.len() == 0 {
        hs
    } else if is_load(hs.last()) {
        load_headers(hs.drop_last()).push(hs.last())
    } else {
        load_headers(hs.drop_last())
    }
}

pub open spec fn all_loads_sound(hs: Seq<ProgramHeader>, image_len: int) -> bool {
    forall|i: int| 0 <= i < hs.len() && is_load(hs[i]) ==> #[trigger] header_sound(hs[i], image_len)
}

pub open spec fn all_loads_fit(hs: Seq<ProgramHeader>, base: int, len: int) -> bool {
    forall|i: int| 0 <= i < hs.len() && is_load(hs[i]) ==> #[trigger] region_fits(hs[i], base, len)
}

/// The window `mem` (at address `base`) after one segment is placed: its file
/// bytes at `[a, a + file_size)`, zeros at `[a + file_size, a + memory_size)`,
/// everything else as it was.
pub open spec fn place_segment(mem: Seq<u8>, base: int, image: Seq<u8>, h: ProgramHeader) -> Seq<u8> {
    Seq::new(
        mem.len(),
        |j: int|
            {
                let a = base + j;
                let pa = h.physical_address as int;
                if pa <= a < pa + h.file_size {
                    image[h.file_offset + (a - pa)]
                } else if pa + h.file_size <= a < pa + h.memory_size {
                    0u8
                } else {
                    mem[j]
                }
            },
    )
}

/// The window after the headers are acted on in order: LOAD segments are
/// placed, all other headers are ignored.
pub open spec fn place_segments(mem: Seq<u8>, base: int, image: Seq<u8>, hs: Seq<ProgramHeader>) -> Seq<
    u8,
>
    decreases hs.len(),
{
    if hs.len() == 0 {
        mem
    } else {
        let before = place_segments(mem, base, image, hs.drop_last());
        if is_load(hs.last()) {
            place_segment(before, base, image, hs.last())
        } else {
            before
        }
    }
}

/// What loading `image` into a window of `len` bytes at `base` returns.
pub open spec fn load_outcome(image: Seq<u8>, base: int, len: int) -> Result<(), ElfError> {
    match elf_segment_table(image) {
        None => Err(ElfError::Malformed),
        Some(hs) => if !all_loads_sound(hs, image.len() as int) {
            Err(ElfError::Malformed)
        } else if !all_loads_fit(hs, base, len) {
            Err(ElfError::OutOfRange)
        } else {
            Ok(())
        },
    }
}

/// A window of physical memory: `bytes[j]` is the byte at address `base + j`.
pub struct PhysicalMemory {
    pub base: u64,
    pub bytes: Vec<u8>,
}

impl PhysicalMemory {
    /// The window lies within the 64-bit address space.
    pub open spec fn wf(&self) -> bool {
        self.base + self.bytes@.len() <= u64::MAX + 1
    }

    /// A window of `len` zero bytes at `base`; `None` if it would run past the
    /// end of the address space.
    pub fn zeroed(base: u64, len: usize) -> (r: Option<PhysicalMemory>)
        ensures
            r is Some <==> base + len <= u64::MAX + 1,
            r matches Some(m) ==> m.wf() && m.base == base && m.bytes@ == Seq::new(
                len as nat,
                |j: int| 0u8,
            ),
    {
        if (base as u128) + (len as u128) > (u64::MAX as u128) + 1 {
            return None;
        }
        let mut bytes: Vec<u8> = Vec::new();
        let mut i: usize = 0;
        while i < len
            invariant
                i <= len,
                bytes@ == Seq::new(i as nat, |j: int| 0u8),
            decreases len - i,
        {
            bytes.push(0);
            i = i + 1;
            assert(bytes@ =~= Seq::new(i as nat, |j: int| 0u8));
        }
        Some(PhysicalMemory { base, bytes })
    }

    /// Places one LOAD segment of `image`: copies exactly `file_size` bytes
    /// from `file_offset` to `physical_address` and zero-fills the following
    /// `memory_size - file_size` bytes. No other byte of the window changes.
    pub fn write_segment(&mut self, image: &[u8], h: &ProgramHeader)
        requires
            old(self).wf(),
            header_sound(*h, image@.len() as int),
            region_fits(*h, old(self).base as int, old(self).bytes@.len() as int),
        ensures
            final(self).wf(),
            final(self).base == old(self).base,
            final(self).bytes@ == place_segment(
                old(self).bytes@,
                old(self).base as int,
                image@,
                *h,
            ),
    {
        let ghost before = self.bytes@;
        let ghost target = place_segment(before, self.base as int, image@, *h);
        let start: u64 = h.physical_address - self.base;
        let window_len: usize = self.bytes.len();
        let image_len: usize = image.len();
        let mut i: u64 = 0;
        while i < h.memory_size
            invariant
                self.base == old(self).base,
                before == old(self).bytes@,
                target == place_segment(before, self.base as int, image@, *h),
                self.bytes@.len() == before.len(),
                window_len == before.len(),
                image_len == image@.len(),
                header_sound(*h, image@.len() as int),
                region_fits(*h, self.base as int, before.len() as int),
                start == h.physical_address - self.base,
                i <= h.memory_size,
                forall|j: int|
                    0 <= j < before.len() ==> #[trigger] self.bytes@[j] == if start <= j < start
                        + i {
                        target[j]
                    } else {
                        before[j]
                    },
            decreases h.memory_size - i,
        {
            let idx: usize = (start + i) as usize;
            let value: u8 = if i < h.file_size {
                image[(h.file_offset + i) as usize]
            } else {
                0
            };
            self.bytes.set(idx, value);
            i = i + 1;
        }
        assert(self.bytes@ =~= target);
    }
}

/// The LOAD headers of `image`, in file order, each checked to be sound.
/// `Malformed` when the image or its program-header table does not parse, or
/// when some LOAD header is not sound; other headers are not checked.
pub fn segment_plan(image: &[u8]) -> (r: Result<Vec<ProgramHeader>, ElfError>)
    ensures
        match elf_segment_table(image@) {
            None => r == Err::<Vec<ProgramHeader>, ElfError>(ElfError::Malformed),
            Some(hs) => if all_loads_sound(hs, image@.len() as int) {
                r matches Ok(v) && v@ == load_headers(hs)
            } else {
                r == Err::<Vec<ProgramHeader>, ElfError>(ElfError::Malformed)
            },
        },
{
    let headers = match read_program_headers(image) {
        Some(v) => v,
        None => {
            return Err(ElfError::Malformed);
        },
    };
    let ghost hs = headers@;
    let mut plan: Vec<ProgramHeader> = Vec::new();
    let mut i: usize = 0;
    while i < headers.len()
        invariant
            hs == headers@,
            elf_segment_table(image@) == Some(hs),
            i <= hs.len(),
            plan@ == load_headers(hs.take(i as int)),
            all_loads_sound(hs.take(i as int), image@.len() as int),
        decreases hs.len() - i,
    {
        let h = headers[i];
        assert(hs.take(i + 1).drop_last() =~= hs.take(i as int));
        if h.kind == PT_LOAD {
            let sound = h.file_size <= h.memory_size && (h.file_offset as u128) + (
            h.file_size as u128) <= image.len() as u128 && (h.physical_address as u128) + (
            h.memory_size as u128) <= (u64::MAX as u128) + 1;
            if !sound {
                assert(hs[i as int] == h);
                assert(!header_sound(h, image@.len() as int));
                assert(!all_loads_sound(hs, image@.len() as int)) by {
                    assert(is_load(hs[i as int]));
                }
                return Err(ElfError::Malformed);
            }
            plan.push(h);
        }
        i = i + 1;
    }
    assert(hs.take(i as int) =~= hs);
    Ok(plan)
}

/// Loads the LOAD segments of the ELF `image` into `memory`, in file order.
/// Nothing is written unless every LOAD header is sound and its destination
/// lies inside the window; then the window ends as [`place_segments`] says.
pub fn load_kernel(image: &[u8], memory: &mut PhysicalMemory) -> (r: Result<(), ElfError>)
    requires
        old(memory).wf(),
    ensures
        final(memory).wf(),
        final(memory).base == old(memory).base,
        r == load_outcome(image@, old(memory).base as int, old(memory).bytes@.len() as int),
        r is Ok ==> final(memory).bytes@ == place_segments(
            old(memory).bytes@,
            old(memory).base as int,
            image@,
            elf_segment_table(image@)->0,
        ),
        r is Err ==> final(memory).bytes@ == old(memory).bytes@,
{
    let plan = match segment_plan(image) {
        Ok(p) => p,
        Err(e) => {
            return Err(e);
        },
    };
    let ghost hs = elf_segment_table(image@)->0;
    let ghost base = memory.base as int;
    let ghost len = memory.bytes@.len() as int;
    proof {
        lemma_load_headers_props(hs, image@.len() as int, base, len);
    }
    let mut i: usize = 0;
    while i < plan.len()
        invariant
            i <= plan@.len(),
            plan@ == load_headers(hs),
            forall|k: int| 0 <= k < i ==> #[trigger] region_fits(plan@[k], base, len),
            elf_segment_table(image@) == Some(hs),
            all_loads_sound(hs, image@.len() as int),
            memory.wf(),
            *memory == *old(memory),
            base == memory.base,
            len == memory.bytes@.len(),
        decreases plan@.len() - i,
    {
        let h = plan[i];
        let fits = memory.base <= h.physical_address && (h.physical_address as u128) + (
        h.memory_size as u128) <= (memory.base as u128) + (memory.bytes.len() as u128);
        if !fits {
            proof {
                lemma_load_headers_props(hs, image@.len() as int, base, len);
            }
            assert(!region_fits(plan@[i as int], base, len));
            return Err(ElfError::OutOfRange);
        }
        i = i + 1;
    }
    proof {
        lemma_load_headers_props(hs, image@.len() as int, base, len);
    }
    let ghost before = memory.bytes@;
    let mut i: usize = 0;
    while i < plan.len()
        invariant
            i <= plan@.len(),
            plan@ == load_headers(hs),
            forall|k: int| 0 <= k < plan@.len() ==> #[trigger] region_fits(plan@[k], base, len),
            forall|k: int|
                0 <= k < plan@.len() ==> #[trigger] header_sound(plan@[k], image@.len() as int),
            forall|k: int| 0 <= k < plan@.len() ==> #[trigger] is_load(plan@[k]),
            memory.wf(),
            base == memory.base,
            len == memory.bytes@.len(),
            memory.bytes@ == place_segments(before, base, image@, plan@.take(i as int)),
        decreases plan@.len() - i,
    {
        let h = plan[i];
        memory.write_segment(image, &h);
        assert(plan@.take(i + 1).drop_last() =~= plan@.take(i as int));
        i = i + 1;
    }
    assert(plan@.take(i as int) =~= plan@);
    proof {
        lemma_non_load_headers_ignored(before, base, image@, hs);
    }
    Ok(())
}

/// Facts about the LOAD headers of `hs`: each is a LOAD header, and soundness
/// and fitting of every LOAD header of `hs` carry over to them and back.
proof fn lemma_load_headers_props(hs: Seq<ProgramHeader>, image_len: int, base: int, len: int)
    ensures
        forall|k: int| 0 <= k < load_headers(hs).len() ==> #[trigger] is_load(load_headers(hs)[k]),
        all_loads_sound(hs, image_len) ==> forall|k: int|
            0 <= k < load_headers(hs).len() ==> #[trigger] header_sound(
                load_headers(hs)[k],
                image_len,
            ),
        all_loads_fit(hs, base, len) <==> forall|k: int|
            0 <= k < load_headers(hs).len() ==> #[trigger] region_fits(
                load_headers(hs)[k],
                base,
                len,
            ),
    decreases hs.len(),
{
    if hs.len() > 0 {
        let init = hs.drop_last();
        let lh = load_headers(hs);
        let li = load_headers(init);
        lemma_load_headers_props(init, image_len, base, len);
        if is_load(hs.last()) {
            assert(lh == li.push(hs.last()));
        } else {
            assert(lh == li);
        }
        assert forall|k: int| 0 <= k < li.len() implies #[trigger] lh[k] == li[k] by {}
        assert(all_loads_sound(hs, image_len) ==> all_loads_sound(init, image_len)) by {
            if all_loads_sound(hs, image_len) {
                assert forall|i: int| 0 <= i < init.len() && is_load(init[i]) implies #[trigger] header_sound(
                    init[i],
                    image_len,
                ) by {
                    assert(init[i] == hs[i]);
                }
            }
        }
        if all_loads_fit(hs, base, len) {
            assert forall|i: int| 0 <= i < init.len() && is_load(init[i]) implies #[trigger] region_fits(
                init[i],
                base,
                len,
            ) by {
                assert(init[i] == hs[i]);
            }
        }
        if forall|k: int| 0 <= k < lh.len() ==> #[trigger] region_fits(lh[k], base, len) {
            assert forall|k: int| 0 <= k < li.len() implies #[trigger] region_fits(
                li[k],
                base,
                len,
            ) by {
                assert(lh[k] == li[k]);
            }
            assert forall|i: int| 0 <= i < hs.len() && is_load(hs[i]) implies #[trigger] region_fits(
                hs[i],
                base,
                len,
            ) by {
                if i < init.len() {
                    assert(init[i] == hs[i]);
                } else {
                    assert(lh[lh.len() - 1] == hs.last());
                }
            }
        }
    }
}

/// A LOAD segment is placed exactly: after the write, the bytes at
/// `[a, a + f)` are the segment's file bytes, those at `[a + f, a + m)` are
/// zero, and every byte of the window outside `[a, a + m)` is unchanged.
pub proof fn lemma_segment_placement(mem: Seq<u8>, base: int, image: Seq<u8>, h: ProgramHeader)
    requires
        header_sound(h, image.len() as int),
        region_fits(h, base, mem.len() as int),
    ensures
        ({
            let out = place_segment(mem, base, image, h);
            let a = h.physical_address as int;
            &&& out.len() == mem.len()
            &&& forall|t: int|
                0 <= t < h.file_size ==> #[trigger] out[a + t - base] == image[h.file_offset + t]
            &&& forall|t: int|
                h.file_size <= t < h.memory_size ==> #[trigger] out[a + t - base] == 0u8
            &&& forall|j: int|
                0 <= j < mem.len() && !(a <= base + j < a + h.memory_size) ==> #[trigger] out[j]
                    == mem[j]
        }),
{
}

/// Headers other than LOAD cause no writes: acting on a header table gives
/// the same memory as acting on its LOAD headers alone.
pub proof fn lemma_non_load_headers_ignored(
    mem: Seq<u8>,
    base: int,
    image: Seq<u8>,
    hs: Seq<ProgramHeader>,
)
    ensures
        place_segments(mem, base, image, hs) == place_segments(mem, base, image, load_headers(hs)),
    decreases hs.len(),
{
    if hs.len() > 0 {
        lemma_non_load_headers_ignored(mem, base, image, hs.drop_last());
        if is_load(hs.last()) {
            let lh = load_headers(hs);
            assert(lh.drop_last() =~= load_headers(hs.drop_last()));
        }
    }
}

/// A table whose only LOAD header is `hs[i]` has just that one to act on.
proof fn lemma_single_load_header(hs: Seq<ProgramHeader>, i: int)
    requires
        0 <= i < hs.len(),
        is_load(hs[i]),
        forall|j: int| 0 <= j < hs.len() && j != i ==> !is_load(#[trigger] hs[j]),
    ensures
        load_headers(hs) == seq![hs[i]],
    decreases hs.len(),
{
    let init = hs.drop_last();
    if i == hs.len() - 1 {
        lemma_no_load_headers(init);
        assert(load_headers(hs) =~= seq![hs[i]]);
    } else {
        assert forall|j: int| 0 <= j < init.len() && j != i implies !is_load(#[trigger] init[j]) by {
            assert(init[j] == hs[j]);
        }
        assert(!is_load(hs[hs.len() - 1]));
        lemma_single_load_header(init, i);
    }
}

proof fn lemma_no_load_headers(hs: Seq<ProgramHeader>)
    requires
        forall|j: int| 0 <= j < hs.len() ==> !is_load(#[trigger] hs[j]),
    ensures
        load_headers(hs) =~= Seq::<ProgramHeader>::empty(),
    decreases hs.len(),
{
    if hs.len() > 0 {
        let init = hs.drop_last();
        assert forall|j: int| 0 <= j < init.len() implies !is_load(#[trigger] init[j]) by {
            assert(init[j] == hs[j]);
        }
        assert(!is_load(hs[hs.len() - 1]));
        lemma_no_load_headers(init);
    }
}

/// For a table with a single LOAD header `h = hs[i]` (any number of other
/// headers around it), the memory that [`load_kernel`] leaves is the window
/// with `h` placed: file bytes at `[a, a + f)`, zeros at `[a + f, a + m)`,
/// nothing else changed.
pub proof fn lemma_single_load_segment(
    mem: Seq<u8>,
    base: int,
    image: Seq<u8>,
    hs: Seq<ProgramHeader>,
    i: int,
)
    requires
        0 <= i < hs.len(),
        is_load(hs[i]),
        forall|j: int| 0 <= j < hs.len() && j != i ==> !is_load(#[trigger] hs[j]),
        header_sound(hs[i], image.len() as int),
        region_fits(hs[i], base, mem.len() as int),
    ensures
        place_segments(mem, base, image, hs) == place_segment(mem, base, image, hs[i]),
        ({
            let out = place_segments(mem, base, image, hs);
            let h = hs[i];
            let a = h.physical_address as int;
            &&& out.len() == mem.len()
            &&& forall|t: int|
                0 <= t < h.file_size ==> #[trigger] out[a + t - base] == image[h.file_offset + t]
            &&& forall|t: int|
                h.file_size <= t < h.memory_size ==> #[trigger] out[a + t - base] == 0u8
            &&& forall|j: int|
                0 <= j < mem.len() && !(a <= base + j < a + h.memory_size) ==> #[trigger] out[j]
                    == mem[j]
        }),
{
    lemma_non_load_headers_ignored(mem, base, image, hs);
    lemma_single_load_header(hs, i);
    let one = seq![hs[i]];
    assert(one.drop_last() =~= Seq::<ProgramHeader>::empty());
    assert(one.last() == hs[i]);
    assert(place_segments(mem, base, image, one.drop_last()) == mem);
    assert(place_segments(mem, base, image, one) == place_segment(mem, base, image, hs[i]));
    lemma_segment_placement(mem, base, image, hs[i]);
}

/// A table with no LOAD header leaves memory untouched.
pub proof fn lemma_no_load_no_writes(mem: Seq<u8>, base: int, image: Seq<u8>, hs: Seq<ProgramHeader>)
    requires
        forall|i: int| 0 <= i < hs.len() ==> !is_load(#[trigger] hs[i]),
    ensures
        place_segments(mem, base, image, hs) == mem,
    decreases hs.len(),
{
    if hs.len() > 0 {
        let init = hs.drop_last();
        assert forall|i: int| 0 <= i < init.len() implies !is_load(#[trigger] init[i]) by {
            assert(init[i] == hs[i]);
        }
        lemma_no_load_no_writes(mem, base, image, init);
        assert(!is_load(hs[hs.len() - 1]));
    }
}

} // verus!
