use crate::dram::le_value;
use vstd::prelude::*;

verus! {

/// Offset of the entry point in a 64-bit ELF header.
pub const E_ENTRY_POS: usize = 0x18;
/// Offset of the program header table's file offset.
pub const PH_POS: usize = 0x20;
/// Offset of the number of program headers.
pub const PH_ENTRIES_POS: usize = 0x38;
/// Offset of the size of a program header.
pub const PH_ENTRY_SIZE_POS: usize = 0x36;

/// The program header type of a loadable segment.
pub const PT_LOAD: u64 = 1;

/// Why an ELF image cannot be loaded.
#[derive(Clone, Copy, Debug, PartialEq, Eq, Structural)]
pub enum ElfError {
    /// A header field or segment lies beyond the end of the file.
    Truncated,
    /// A loadable segment starts below the base address.
    BaseAboveSegment,
    /// A segment's size in memory is smaller than its size in the file.
    BadSize,
    /// A segment to be copied over loaded code reaches past its end.
    OutsideCode,
    /// A segment overlaps the end of the code loaded so far.
    Overlap,
}

/// The little-endian value of the `n` bytes of `elf` at offset `off`, if they lie in the file.
pub open spec fn elf_field(elf: Seq<u8>, off: int, n: nat) -> Option<int> {
    if 0 <= off && off + n <= elf.len() {
        Some(le_value(elf, off, n) as int)
    } else {
        None
    }
}

/// `n` zero bytes.
pub open spec fn zeros(n: int) -> Seq<u8> {
    Seq::new(n as nat, |i: int| 0u8)
}

/// `code` after loading the segment of program header `i`: a segment past the end of the
/// code is appended after zero padding (its file bytes, then zeros up to its size in memory);
/// a segment inside the code is copied over it at offset `va`; other headers are skipped.
pub open spec fn load_segment(code: Seq<u8>, elf: Seq<u8>, base: int, off: int) -> Result<
    Seq<u8>,
    ElfError,
> {
    match (
        elf_field(elf, off, 4),
        elf_field(elf, off + 0x8, 8),
        elf_field(elf, off + 0x10, 8),
        elf_field(elf, off + 0x20, 8),
        elf_field(elf, off + 0x28, 8),
    ) {
        (Some(p_type), Some(segment), Some(va), Some(filesize), Some(memsize)) => {
            if p_type != PT_LOAD {
                Ok(code)
            } else if base > va {
                Err(ElfError::BaseAboveSegment)
            } else if code.len() <= va - base {
                if segment + filesize > elf.len() {
                    Err(ElfError::Truncated)
                } else if memsize < filesize {
                    Err(ElfError::BadSize)
                } else {
                    Ok(
                        code + zeros(va - base - code.len()) + elf.subrange(
                            segment,
                            segment + filesize,
                        ) + zeros(memsize - filesize),
                    )
                }
            } else if code.len() > va - base + memsize {
                if va + memsize > code.len() {
                    Err(ElfError::OutsideCode)
                } else if segment + memsize > elf.len() {
                    Err(ElfError::Truncated)
                } else {
                    Ok(
                        code.subrange(0, va) + elf.subrange(segment, segment + memsize)
                            + code.subrange(va + memsize, code.len() as int),
                    )
                }
            } else {
                Err(ElfError::Overlap)
            }
        },
        _ => Err(ElfError::Truncated),
    }
}

/// `code` after loading the segments of program headers `i` up to `count`.
pub open spec fn load_segments(
    code: Seq<u8>,
    elf: Seq<u8>,
    base: int,
    ph_offset: int,
    ph_size: int,
    count: int,
    i: int,
) -> Result<Seq<u8>, ElfError>
    decreases count - i,
{
    if i >= count {
        Ok(code)
    } else {
        match load_segment(code, elf, base, ph_offset + i * ph_size) {
            Err(e) => Err(e),
            Ok(c) => load_segments(c, elf, base, ph_offset, ph_size, count, i + 1),
        }
    }
}

/// The code after loading the 64-bit little-endian ELF image `elf` for base address `base`,
/// and its entry point.
pub open spec fn load_elf_spec(code: Seq<u8>, elf: Seq<u8>, base: int) -> Result<
    (Seq<u8>, u64),
    ElfError,
> {
    match (
        elf_field(elf, E_ENTRY_POS as int, 8),
        elf_field(elf, PH_POS as int, 8),
        elf_field(elf, PH_ENTRIES_POS as int, 2),
        elf_field(elf, PH_ENTRY_SIZE_POS as int, 2),
    ) {
        (Some(entry), Some(ph_offset), Some(ph_entries), Some(ph_entry_size)) => match load_segments(
            code,
            elf,
            base,
            ph_offset,
            ph_entry_size,
            ph_entries,
            0,
        ) {
            Ok(c) => Ok((c, entry as u64)),
            Err(e) => Err(e),
        },
        _ => Err(ElfError::Truncated),
    }
}

proof fn lemma_le_bound(s: Seq<u8>, i: int, n: nat)
    requires
        0 <= i,
        i + n <= s.len(),
    ensures
        le_value(s, i, n) < pow256(n),
    decreases n,
{
    if n > 0 {
        lemma_le_bound(s, i + 1, (n - 1) as nat);
    }
}

/// `256` to the power `n`.
pub open spec fn pow256(n: nat) -> nat
    decreases n,
{
    if n == 0 {
        1
    } else {
        256 * pow256((n - 1) as nat)
    }
}

/// The little-endian 16-bit value of a 2-byte slice.
pub fn u8_slice_to_u16(barry: &[u8]) -> (v: u16)
    requires
        barry@.len() == 2,
    ensures
        v == le_value(barry@, 0, 2),
{
    proof {
        reveal_with_fuel(le_value, 3);
    }
    barry[0] as u16 + 256 * (barry[1] as u16)
}

/// The little-endian 32-bit value of a 4-byte slice.
pub fn u8_slice_to_u32(barry: &[u8]) -> (v: u32)
    requires
        barry@.len() == 4,
    ensures
        v == le_value(barry@, 0, 4),
{
    proof {
        reveal_with_fuel(le_value, 5);
    }
    let t2 = barry[2] as u32 + 256 * (barry[3] as u32);
    let t1 = barry[1] as u32 + 256 * t2;
    barry[0] as u32 + 256 * t1
}

/// The little-endian 64-bit value of an 8-byte slice.
pub fn u8_slice_to_u64(barry: &[u8]) -> (v: u64)
    requires
        barry@.len() == 8,
    ensures
        v == le_value(barry@, 0, 8),
{
    proof {
        reveal_with_fuel(le_value, 9);
    }
    let t6 = barry[6] as u64 + 256 * (barry[7] as u64);
    let t5 = barry[5] as u64 + 256 * t6;
    let t4 = barry[4] as u64 + 256 * t5;
    let t3 = barry[3] as u64 + 256 * t4;
    let t2 = barry[2] as u64 + 256 * t3;
    let t1 = barry[1] as u64 + 256 * t2;
    barry[0] as u64 + 256 * t1
}

/// Little-endian values read inside a subrange of `s` are those read at the same place in
/// `s`.
proof fn lemma_le_in_subrange(s: Seq<u8>, a: int, b: int, k: int, m: nat)
    requires
        0 <= a <= b <= s.len(),
        0 <= k,
        k + m <= b - a,
    ensures
        le_value(s.subrange(a, b), k, m) == le_value(s, a + k, m),
    decreases m,
{
    if m > 0 {
        lemma_le_in_subrange(s, a, b, k + 1, (m - 1) as nat);
    }
}

/// The little-endian value of bytes `a..a + n` of `s` is that of the subrange they form.
proof fn lemma_le_subrange(s: Seq<u8>, a: int, n: nat)
    requires
        0 <= a,
        a + n <= s.len(),
    ensures
        le_value(s.subrange(a, a + n), 0, n) == le_value(s, a, n),
{
    lemma_le_in_subrange(s, a, a + n, 0, n);
}

/// Reads the `n`-byte little-endian field at `off + delta` of `elf`, if it lies in the file.
fn read_field(elf: &[u8], off: u64, delta: u64, n: u64) -> (r: Option<u64>)
    requires
        n == 2 || n == 4 || n == 8,
    ensures
        r == match elf_field(elf@, off + delta, n as nat) {
            Some(v) => Some(v as u64),
            None => None::<u64>,
        },
        elf_field(elf@, off + delta, n as nat) matches Some(v) ==> 0 <= v <= u64::MAX,
{
    let len = elf.len();
    let at = match off.checked_add(delta) {
        Some(a) => a,
        None => return None,
    };
    if at > len as u64 || n > len as u64 - at {
        return None;
    }
    let start = at as usize;
    let end = start + n as usize;
    let field = &elf[start..end];
    proof {
        lemma_le_subrange(elf@, at as int, n as nat);
        lemma_le_bound(elf@, at as int, n as nat);
        reveal_with_fuel(pow256, 9);
    }
    if n == 2 {
        Some(u8_slice_to_u16(field) as u64)
    } else if n == 4 {
        Some(u8_slice_to_u32(field) as u64)
    } else {
        Some(u8_slice_to_u64(field))
    }
}

/// Appends `n` zero bytes to `code`.
fn push_zeros(code: &mut Vec<u8>, n: u64)
    ensures
        final(code)@ == old(code)@ + zeros(n as int),
{
    let mut k: u64 = 0;
    while k < n
        invariant
            k <= n,
            code@ == old(code)@ + zeros(k as int),
        decreases n - k,
    {
        code.push(0);
        assert(code@ =~= old(code)@ + zeros(k + 1));
        k = k + 1;
    }
}

/// Loads the segment of the program header at `off`.
fn load_segment_exec(code: &mut Vec<u8>, elf: &[u8], base: u64, off: u64) -> (r: Result<
    (),
    ElfError,
>)
    ensures
        r is Ok <==> load_segment(old(code)@, elf@, base as int, off as int) is Ok,
        r is Ok ==> load_segment(old(code)@, elf@, base as int, off as int) == Ok::<
            Seq<u8>,
            ElfError,
        >(final(code)@),
        r matches Err(e) ==> load_segment(old(code)@, elf@, base as int, off as int) == Err::<
            Seq<u8>,
            ElfError,
        >(e),
{
    let p_type = read_field(elf, off, 0, 4);
    let segment = read_field(elf, off, 0x8, 8);
    let va = read_field(elf, off, 0x10, 8);
    let filesize = read_field(elf, off, 0x20, 8);
    let memsize = read_field(elf, off, 0x28, 8);
    let (p_type, segment, va, filesize, memsize) = match (p_type, segment, va, filesize, memsize) {
        (Some(t), Some(s), Some(v), Some(f), Some(m)) => (t, s, v, f, m),
        _ => return Err(ElfError::Truncated),
    };
    if p_type != PT_LOAD {
        return Ok(());
    }
    if base > va {
        return Err(ElfError::BaseAboveSegment);
    }
    let rel = va - base;
    let len = code.len() as u64;
    if len <= rel {
        if segment > elf.len() as u64 || filesize > elf.len() as u64 - segment {
            return Err(ElfError::Truncated);
        }
        if memsize < filesize {
            return Err(ElfError::BadSize);
        }
        push_zeros(code, rel - len);
        let ghost padded = code@;
        let start = segment as usize;
        let n = filesize as usize;
        let mut k: usize = 0;
        while k < n
            invariant
                k <= n,
                n == filesize,
                start == segment,
                start + n <= elf.len(),
                code@ == padded + elf@.subrange(start as int, start + k),
            decreases n - k,
        {
            code.push(elf[start + k]);
            assert(code@ =~= padded + elf@.subrange(start as int, start + k + 1));
            k = k + 1;
        }
        push_zeros(code, memsize - filesize);
        Ok(())
    } else {
        let fits = match rel.checked_add(memsize) {
            Some(end) => len > end,
            None => false,
        };
        if !fits {
            return Err(ElfError::Overlap);
        }
        if va > len || memsize > len - va {
            return Err(ElfError::OutsideCode);
        }
        if segment > elf.len() as u64 || memsize > elf.len() as u64 - segment {
            return Err(ElfError::Truncated);
        }
        let ghost code0 = code@;
        assert(code@.len() == code.len());
        let dst = va as usize;
        let src = segment as usize;
        let n = memsize as usize;
        let mut k: usize = 0;
        while k < n
            invariant
                k <= n,
                n == memsize,
                dst == va,
                src == segment,
                dst + n <= code0.len(),
                code@.len() == code0.len(),
                dst + n <= code.len(),
                src + n <= elf.len(),
                code@ == code0.subrange(0, dst as int) + elf@.subrange(src as int, src + k)
                    + code0.subrange(dst + k, code0.len() as int),
            decreases n - k,
        {
            code.set(dst + k, elf[src + k]);
            assert(code@ =~= code0.subrange(0, dst as int) + elf@.subrange(src as int, src + k + 1)
                + code0.subrange(dst + k + 1, code0.len() as int));
            k = k + 1;
        }
        Ok(())
    }
}

/// Loads the loadable segments of the 64-bit little-endian ELF image `elf` into `code`, for a
/// memory whose first byte is at `base_addr`, and returns the entry point. Segments past the
/// end of the code are appended (zero padded, with the rest of their memory size zeroed);
/// segments inside it are copied over it.
pub fn load_elf(code: &mut Vec<u8>, elf: &[u8], base_addr: u64) -> (r: Result<u64, ElfError>)
    ensures
        r is Ok <==> load_elf_spec(old(code)@, elf@, base_addr as int) is Ok,
        r matches Ok(entry) ==> load_elf_spec(old(code)@, elf@, base_addr as int) == Ok::<
            (Seq<u8>, u64),
            ElfError,
        >((final(code)@, entry)),
        r matches Err(e) ==> load_elf_spec(old(code)@, elf@, base_addr as int) == Err::<
            (Seq<u8>, u64),
            ElfError,
        >(e),
{
    let entry = read_field(elf, E_ENTRY_POS as u64, 0, 8);
    let ph_offset = read_field(elf, PH_POS as u64, 0, 8);
    let ph_entries = read_field(elf, PH_ENTRIES_POS as u64, 0, 2);
    let ph_entry_size = read_field(elf, PH_ENTRY_SIZE_POS as u64, 0, 2);
    let (entry, ph_offset, ph_entries, ph_entry_size) = match (
        entry,
        ph_offset,
        ph_entries,
        ph_entry_size,
    ) {
        (Some(e), Some(o), Some(n), Some(s)) => (e, o, n, s),
        _ => return Err(ElfError::Truncated),
    };
    let ghost code0 = code@;
    let elf_len = elf.len();
    let mut i: u64 = 0;
    while i < ph_entries
        invariant
            i <= ph_entries,
            elf_len == elf@.len(),
            code0 == old(code)@,
            load_elf_spec(code0, elf@, base_addr as int) == match load_segments(
                code0,
                elf@,
                base_addr as int,
                ph_offset as int,
                ph_entry_size as int,
                ph_entries as int,
                0,
            ) {
                Ok(c) => Ok((c, entry)),
                Err(e) => Err(e),
            },
            load_segments(code0, elf@, base_addr as int, ph_offset as int, ph_entry_size as int, ph_entries as int, 0)
                == load_segments(code@, elf@, base_addr as int, ph_offset as int, ph_entry_size as int, ph_entries as int, i as int),
        decreases ph_entries - i,
    {
        let off = match i.checked_mul(ph_entry_size) {
            Some(d) => ph_offset.checked_add(d),
            None => None,
        };
        let off = match off {
            Some(o) => o,
            None => {
                assert(load_segment(code@, elf@, base_addr as int, ph_offset + i * ph_entry_size)
                    == Err::<Seq<u8>, ElfError>(ElfError::Truncated));
                assert(load_segments(code@, elf@, base_addr as int, ph_offset as int, ph_entry_size as int, ph_entries as int, i as int)
                    == Err::<Seq<u8>, ElfError>(ElfError::Truncated));
                return Err(ElfError::Truncated);
            },
        };
        let ghost code_i = code@;
        assert(load_segments(code_i, elf@, base_addr as int, ph_offset as int, ph_entry_size as int, ph_entries as int, i as int)
            == match load_segment(code_i, elf@, base_addr as int, off as int) {
                Err(e) => Err(e),
                Ok(c) => load_segments(c, elf@, base_addr as int, ph_offset as int, ph_entry_size as int, ph_entries as int, i + 1),
            });
        match load_segment_exec(code, elf, base_addr, off) {
            Ok(_) => {},
            Err(e) => {
                return Err(e);
            },
        }
        i = i + 1;
    }
    Ok(entry)
}


/// The ELF header fields the loader reads: the entry point returned is the little-endian
/// doubleword at offset 24 (`e_entry`); an image too short to hold the program header count
/// (at offset 56) and size (at offset 54) is refused as truncated; and an image without
/// program headers loads nothing and gives its entry point.
pub proof fn lemma_elf_header(code: Seq<u8>, elf: Seq<u8>, base: int)
    ensures
        load_elf_spec(code, elf, base) matches Ok((_, entry)) ==> entry == le_value(elf, 24, 8) as u64,
        elf.len() < 58 ==> load_elf_spec(code, elf, base) == Err::<(Seq<u8>, u64), ElfError>(
            ElfError::Truncated,
        ),
        elf.len() >= 58 && le_value(elf, 56, 2) == 0 ==> load_elf_spec(code, elf, base) == Ok::<
            (Seq<u8>, u64),
            ElfError,
        >((code, le_value(elf, 24, 8) as u64)),
{
}

} // verus!
