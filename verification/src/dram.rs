use crate::interrupt::Exception;
use vstd::prelude::*;

verus! {

/// Size of the main memory in bytes (128 MiB).
pub const DRAM_SIZE: u64 = 0x800_0000;

/// The little-endian value of the `n` bytes of `mem` that start at index `i`.
pub open spec fn le_value(mem: Seq<u8>, i: int, n: nat) -> nat
    decreases n,
{
    if n == 0 {
        0
    } else {
        mem[i] as nat + 256 * le_value(mem, i + 1, (n - 1) as nat)
    }
}

/// Byte `k` (counted from the least significant one) of `v`.
pub open spec fn byte_of(v: u64, k: nat) -> u8 {
    ((v >> (8 * k) as u64) & 0xff) as u8
}

/// `mem` after the low `n` bytes of `v` are written little-endian at index `i`.
pub open spec fn le_write(mem: Seq<u8>, i: int, n: nat, v: u64) -> Seq<u8> {
    Seq::new(mem.len(), |j: int| if i <= j < i + n { byte_of(v, (j - i) as nat) } else { mem[j] })
}

/// The access widths, in bits, that main memory serves.
pub open spec fn valid_width(size: u64) -> bool {
    size == 8 || size == 16 || size == 32 || size == 64
}

/// Flat main memory mapped at `dram_base`.
pub struct Dram {
    pub dram: Vec<u8>,
    pub dram_base: u64,
}

/// The low `n` bytes of `v`.
pub open spec fn low_bytes_value(v: u64, n: nat) -> u64 {
    if n == 1 {
        v & 0xff
    } else if n == 2 {
        v & 0xffff
    } else if n == 4 {
        v & 0xffff_ffff
    } else {
        v
    }
}

/// Reading back the `n` bytes just written at `i` gives the written value cut to `n` bytes,
/// and the write leaves every other byte as it was.
pub proof fn lemma_store_load(mem: Seq<u8>, i: int, n: nat, v: u64, j: int)
    requires
        0 <= i,
        i + n <= mem.len(),
        n == 1 || n == 2 || n == 4 || n == 8,
    ensures
        le_value(le_write(mem, i, n, v), i, n) == low_bytes_value(v, n),
        le_write(mem, i, n, v).len() == mem.len(),
        0 <= j < mem.len() && !(i <= j < i + n) ==> le_write(mem, i, n, v)[j] == mem[j],
{
    let w = le_write(mem, i, n, v);
    reveal_with_fuel(le_value, 9);
    lemma_low_byte(v);
    let b0 = (v & 0xff) as u8;
    let b1 = ((v >> 8u64) & 0xff) as u8;
    let b2 = ((v >> 16u64) & 0xff) as u8;
    let b3 = ((v >> 24u64) & 0xff) as u8;
    let b4 = ((v >> 32u64) & 0xff) as u8;
    let b5 = ((v >> 40u64) & 0xff) as u8;
    let b6 = ((v >> 48u64) & 0xff) as u8;
    let b7 = ((v >> 56u64) & 0xff) as u8;
    assert(b0 as u64 == v & 0xff && b0 + 256 * b1 == v & 0xffff && b0 + 256 * (b1 + 256 * (b2
        + 256 * b3)) == v & 0xffff_ffff && b0 + 256 * (b1 + 256 * (b2 + 256 * (b3 + 256 * (b4
        + 256 * (b5 + 256 * (b6 + 256 * b7)))))) == v) by (bit_vector)
        requires
            b0 == (v & 0xff) as u8,
            b1 == ((v >> 8u64) & 0xff) as u8,
            b2 == ((v >> 16u64) & 0xff) as u8,
            b3 == ((v >> 24u64) & 0xff) as u8,
            b4 == ((v >> 32u64) & 0xff) as u8,
            b5 == ((v >> 40u64) & 0xff) as u8,
            b6 == ((v >> 48u64) & 0xff) as u8,
            b7 == ((v >> 56u64) & 0xff) as u8,
    ;
    assert(w[i] == b0);
    if n >= 2 {
        assert(w[i + 1] == b1);
    }
    if n >= 4 {
        assert(w[i + 2] == b2);
        assert(w[i + 3] == b3);
    }
    if n == 8 {
        assert(w[i + 4] == b4);
        assert(w[i + 5] == b5);
        assert(w[i + 6] == b6);
        assert(w[i + 7] == b7);
    }
}

/// Byte 0 of `v` is its low eight bits.
proof fn lemma_low_byte(v: u64)
    ensures
        byte_of(v, 0) == (v & 0xff) as u8,
{
    assert(v >> 0u64 == v) by (bit_vector);
}

impl Dram {
    /// The memory holds exactly `DRAM_SIZE` bytes.
    pub open spec fn wf(&self) -> bool {
        self.dram@.len() == DRAM_SIZE
    }

    /// An access of `size` bits at `addr` lies inside the memory.
    pub open spec fn in_range(&self, addr: u64, size: u64) -> bool {
        &&& self.dram_base <= addr
        &&& addr - self.dram_base + size / 8 <= self.dram.len()
    }

    /// Whether an access of `size` bits at `addr` lies inside the memory.
    pub fn contains_range(&self, addr: u64, size: u64) -> (b: bool)
        ensures
            b == self.in_range(addr, size),
    {
        self.dram_base <= addr && (addr - self.dram_base) <= self.dram.len() as u64 && size / 8
            <= self.dram.len() as u64 - (addr - self.dram_base)
    }

    /// Memory holding `code` at its start and zeros after it.
    pub fn new(code: Vec<u8>, base: u64) -> (d: Dram)
        requires
            code.len() <= DRAM_SIZE,
        ensures
            d.wf(),
            d.dram_base == base,
            d.dram@ == code@ + Seq::new((DRAM_SIZE - code.len()) as nat, |i: int| 0u8),
    {
        let mut dram = code;
        let ghost code_view = dram@;
        dram.resize(DRAM_SIZE as usize, 0u8);
        assert(dram@ =~= code_view + Seq::new((DRAM_SIZE - code_view.len()) as nat, |i: int| 0u8));
        Dram { dram, dram_base: base }
    }

    /// Reads `size` bits little-endian at `addr`; widths other than 8, 16, 32, 64 fault.
    pub fn load(&self, addr: u64, size: u64) -> (r: Result<u64, Exception>)
        requires
            valid_width(size) ==> self.in_range(addr, size),
        ensures
            valid_width(size) ==> r == Ok::<u64, Exception>(
                le_value(self.dram@, addr - self.dram_base, (size / 8) as nat) as u64,
            ),
            !valid_width(size) ==> r == Err::<u64, Exception>(Exception::LoadAccessFault),
    {
        match size {
            8 => Ok(self.load8(addr)),
            16 => Ok(self.load16(addr)),
            32 => Ok(self.load32(addr)),
            64 => Ok(self.load64(addr)),
            _ => Err(Exception::LoadAccessFault),
        }
    }

    /// Writes the low `size` bits of `value` little-endian at `addr`; widths other than
    /// 8, 16, 32, 64 fault and leave memory unchanged.
    pub fn store(&mut self, addr: u64, size: u64, value: u64) -> (r: Result<(), Exception>)
        requires
            valid_width(size) ==> old(self).in_range(addr, size),
        ensures
            final(self).dram_base == old(self).dram_base,
            valid_width(size) ==> r == Ok::<(), Exception>(()) && final(self).dram@ == le_write(
                old(self).dram@,
                addr - old(self).dram_base,
                (size / 8) as nat,
                value,
            ),
            !valid_width(size) ==> r == Err::<(), Exception>(Exception::StoreAMOAccessFault)
                && final(self).dram@ == old(self).dram@,
    {
        match size {
            8 => Ok(self.store8(addr, value)),
            16 => Ok(self.store16(addr, value)),
            32 => Ok(self.store32(addr, value)),
            64 => Ok(self.store64(addr, value)),
            _ => Err(Exception::StoreAMOAccessFault),
        }
    }

    fn load8(&self, addr: u64) -> (r: u64)
        requires
            self.in_range(addr, 8),
        ensures
            r == le_value(self.dram@, addr - self.dram_base, 1),
    {
        let index = (addr - self.dram_base) as usize;
        proof {
            reveal_with_fuel(le_value, 2);
        }
        self.dram[index] as u64
    }

    fn load16(&self, addr: u64) -> (r: u64)
        requires
            self.in_range(addr, 16),
        ensures
            r == le_value(self.dram@, addr - self.dram_base, 2),
    {
        let index = (addr - self.dram_base) as usize;
        let b0 = self.dram[index] as u64;
        let b1 = self.dram[index + 1] as u64;
        proof {
            reveal_with_fuel(le_value, 3);
            assert(b0 | (b1 << 8) == b0 + 256 * b1) by (bit_vector)
                requires
                    b0 < 256,
                    b1 < 256,
            ;
        }
        b0 | (b1 << 8)
    }

    fn load32(&self, addr: u64) -> (r: u64)
        requires
            self.in_range(addr, 32),
        ensures
            r == le_value(self.dram@, addr - self.dram_base, 4),
    {
        let index = (addr - self.dram_base) as usize;
        let b0 = self.dram[index] as u64;
        let b1 = self.dram[index + 1] as u64;
        let b2 = self.dram[index + 2] as u64;
        let b3 = self.dram[index + 3] as u64;
        proof {
            reveal_with_fuel(le_value, 5);
            assert(b0 | (b1 << 8) | (b2 << 16) | (b3 << 24) == b0 + 256 * (b1 + 256 * (b2 + 256
                * b3))) by (bit_vector)
                requires
                    b0 < 256,
                    b1 < 256,
                    b2 < 256,
                    b3 < 256,
            ;
        }
        b0 | (b1 << 8) | (b2 << 16) | (b3 << 24)
    }

    fn load64(&self, addr: u64) -> (r: u64)
        requires
            self.in_range(addr, 64),
        ensures
            r == le_value(self.dram@, addr - self.dram_base, 8),
    {
        let index = (addr - self.dram_base) as usize;
        let b0 = self.dram[index] as u64;
        let b1 = self.dram[index + 1] as u64;
        let b2 = self.dram[index + 2] as u64;
        let b3 = self.dram[index + 3] as u64;
        let b4 = self.dram[index + 4] as u64;
        let b5 = self.dram[index + 5] as u64;
        let b6 = self.dram[index + 6] as u64;
        let b7 = self.dram[index + 7] as u64;
        proof {
            reveal_with_fuel(le_value, 9);
            assert(b0 | (b1 << 8) | (b2 << 16) | (b3 << 24) | (b4 << 32) | (b5 << 40) | (b6 << 48)
                | (b7 << 56) == b0 + 256 * (b1 + 256 * (b2 + 256 * (b3 + 256 * (b4 + 256 * (b5
                + 256 * (b6 + 256 * b7))))))) by (bit_vector)
                requires
                    b0 < 256,
                    b1 < 256,
                    b2 < 256,
                    b3 < 256,
                    b4 < 256,
                    b5 < 256,
                    b6 < 256,
                    b7 < 256,
            ;
        }
        b0 | (b1 << 8) | (b2 << 16) | (b3 << 24) | (b4 << 32) | (b5 << 40) | (b6 << 48) | (b7
            << 56)
    }

    fn store8(&mut self, addr: u64, value: u64)
        requires
            old(self).in_range(addr, 8),
        ensures
            final(self).dram_base == old(self).dram_base,
            final(self).dram@ == le_write(old(self).dram@, addr - old(self).dram_base, 1, value),
    {
        let index = (addr - self.dram_base) as usize;
        self.dram.set(index, (value & 0xff) as u8);
        proof {
            lemma_low_byte(value);
        }
        assert(self.dram@ =~= le_write(old(self).dram@, addr - old(self).dram_base, 1, value));
    }

    fn store16(&mut self, addr: u64, value: u64)
        requires
            old(self).in_range(addr, 16),
        ensures
            final(self).dram_base == old(self).dram_base,
            final(self).dram@ == le_write(old(self).dram@, addr - old(self).dram_base, 2, value),
    {
        let index = (addr - self.dram_base) as usize;
        self.dram.set(index, (value & 0xff) as u8);
        self.dram.set(index + 1, ((value >> 8) & 0xff) as u8);
        proof {
            lemma_low_byte(value);
            assert(byte_of(value, 1) == ((value >> 8) & 0xff) as u8);
        }
        assert(self.dram@ =~= le_write(old(self).dram@, addr - old(self).dram_base, 2, value));
    }

    fn store32(&mut self, addr: u64, value: u64)
        requires
            old(self).in_range(addr, 32),
        ensures
            final(self).dram_base == old(self).dram_base,
            final(self).dram@ == le_write(old(self).dram@, addr - old(self).dram_base, 4, value),
    {
        let index = (addr - self.dram_base) as usize;
        self.dram.set(index, (value & 0xff) as u8);
        self.dram.set(index + 1, ((value >> 8) & 0xff) as u8);
        self.dram.set(index + 2, ((value >> 16) & 0xff) as u8);
        self.dram.set(index + 3, ((value >> 24) & 0xff) as u8);
        proof {
            lemma_low_byte(value);
            assert(byte_of(value, 1) == ((value >> 8) & 0xff) as u8);
            assert(byte_of(value, 2) == ((value >> 16) & 0xff) as u8);
            assert(byte_of(value, 3) == ((value >> 24) & 0xff) as u8);
        }
        assert(self.dram@ =~= le_write(old(self).dram@, addr - old(self).dram_base, 4, value));
    }

    fn store64(&mut self, addr: u64, value: u64)
        requires
            old(self).in_range(addr, 64),
        ensures
            final(self).dram_base == old(self).dram_base,
            final(self).dram@ == le_write(old(self).dram@, addr - old(self).dram_base, 8, value),
    {
        let index = (addr - self.dram_base) as usize;
        self.dram.set(index, (value & 0xff) as u8);
        self.dram.set(index + 1, ((value >> 8) & 0xff) as u8);
        self.dram.set(index + 2, ((value >> 16) & 0xff) as u8);
        self.dram.set(index + 3, ((value >> 24) & 0xff) as u8);
        self.dram.set(index + 4, ((value >> 32) & 0xff) as u8);
        self.dram.set(index + 5, ((value >> 40) & 0xff) as u8);
        self.dram.set(index + 6, ((value >> 48) & 0xff) as u8);
        self.dram.set(index + 7, ((value >> 56) & 0xff) as u8);
        proof {
            lemma_low_byte(value);
            assert(byte_of(value, 1) == ((value >> 8) & 0xff) as u8);
            assert(byte_of(value, 2) == ((value >> 16) & 0xff) as u8);
            assert(byte_of(value, 3) == ((value >> 24) & 0xff) as u8);
            assert(byte_of(value, 4) == ((value >> 32) & 0xff) as u8);
            assert(byte_of(value, 5) == ((value >> 40) & 0xff) as u8);
            assert(byte_of(value, 6) == ((value >> 48) & 0xff) as u8);
            assert(byte_of(value, 7) == ((value >> 56) & 0xff) as u8);
        }
        assert(self.dram@ =~= le_write(old(self).dram@, addr - old(self).dram_base, 8, value));
    }
}


/// The bytes of the little-endian value of one or eight bytes of `m` are those bytes.
pub proof fn lemma_le_bytes(m: Seq<u8>, o: int, k: nat)
    requires
        0 <= o,
        o + k <= m.len(),
        k == 1 || k == 8,
    ensures
        le_value(m, o, k) <= u64::MAX,
        forall|j: int| 0 <= j < k ==> #[trigger] byte_of(le_value(m, o, k) as u64, j as nat) == m[o + j],
{
    reveal_with_fuel(le_value, 9);
    if k == 1 {
        let x = m[o];
        assert(((x as u64 >> 0u64) & 0xff) as u8 == x) by (bit_vector);
        assert(byte_of(le_value(m, o, k) as u64, 0) == m[o]);
    } else {
        let b0 = m[o];
        let b1 = m[o + 1];
        let b2 = m[o + 2];
        let b3 = m[o + 3];
        let b4 = m[o + 4];
        let b5 = m[o + 5];
        let b6 = m[o + 6];
        let b7 = m[o + 7];
        let v = le_value(m, o, 8);
        assert(v == b0 + 256 * (b1 + 256 * (b2 + 256 * (b3 + 256 * (b4 + 256 * (b5 + 256 * (b6
            + 256 * b7)))))));
        assert(
            (b0 + 256 * (b1 + 256 * (b2 + 256 * (b3 + 256 * (b4 + 256 * (b5 + 256 * (b6 + 256 * b7))))))) <= 0xffff_ffff_ffff_ffff
            && (((b0 + 256 * (b1 + 256 * (b2 + 256 * (b3 + 256 * (b4 + 256 * (b5 + 256 * (b6 + 256 * b7))))))) as u64 >> 0u64) & 0xff) as u8 == b0
            && (((b0 + 256 * (b1 + 256 * (b2 + 256 * (b3 + 256 * (b4 + 256 * (b5 + 256 * (b6 + 256 * b7))))))) as u64 >> 8u64) & 0xff) as u8 == b1
            && (((b0 + 256 * (b1 + 256 * (b2 + 256 * (b3 + 256 * (b4 + 256 * (b5 + 256 * (b6 + 256 * b7))))))) as u64 >> 16u64) & 0xff) as u8 == b2
            && (((b0 + 256 * (b1 + 256 * (b2 + 256 * (b3 + 256 * (b4 + 256 * (b5 + 256 * (b6 + 256 * b7))))))) as u64 >> 24u64) & 0xff) as u8 == b3
            && (((b0 + 256 * (b1 + 256 * (b2 + 256 * (b3 + 256 * (b4 + 256 * (b5 + 256 * (b6 + 256 * b7))))))) as u64 >> 32u64) & 0xff) as u8 == b4
            && (((b0 + 256 * (b1 + 256 * (b2 + 256 * (b3 + 256 * (b4 + 256 * (b5 + 256 * (b6 + 256 * b7))))))) as u64 >> 40u64) & 0xff) as u8 == b5
            && (((b0 + 256 * (b1 + 256 * (b2 + 256 * (b3 + 256 * (b4 + 256 * (b5 + 256 * (b6 + 256 * b7))))))) as u64 >> 48u64) & 0xff) as u8 == b6
            && (((b0 + 256 * (b1 + 256 * (b2 + 256 * (b3 + 256 * (b4 + 256 * (b5 + 256 * (b6 + 256 * b7))))))) as u64 >> 56u64) & 0xff) as u8 == b7
        ) by (bit_vector);
        assert forall|j: int| 0 <= j < k implies #[trigger] byte_of(v as u64, j as nat) == m[o + j] by {
            if j == 0 {
                assert(byte_of(v as u64, 0) == b0);
            } else if j == 1 {
                assert(byte_of(v as u64, 1) == b1);
            } else if j == 2 {
                assert(byte_of(v as u64, 2) == b2);
            } else if j == 3 {
                assert(byte_of(v as u64, 3) == b3);
            } else if j == 4 {
                assert(byte_of(v as u64, 4) == b4);
            } else if j == 5 {
                assert(byte_of(v as u64, 5) == b5);
            } else if j == 6 {
                assert(byte_of(v as u64, 6) == b6);
            } else {
                assert(byte_of(v as u64, 7) == b7);
            }
        }
    }
}


/// Memory is little-endian: the value of `n` bytes is the first byte plus 256 times the value
/// of the rest, and writing `n` bytes of `v` puts byte `k` of `v` (bits 8k+7..8k) at index
/// `i + k`, leaving every other byte as it was.
pub proof fn lemma_little_endian(mem: Seq<u8>, i: int, n: nat, v: u64, k: int)
    requires
        0 <= i,
        i + n <= mem.len(),
        n > 0,
    ensures
        le_value(mem, i, n) == mem[i] + 256 * le_value(mem, i + 1, (n - 1) as nat),
        0 <= k < n ==> le_write(mem, i, n, v)[i + k] == ((v >> (8 * k) as u64) & 0xff) as u8,
        0 <= k < mem.len() && !(i <= k < i + n) ==> le_write(mem, i, n, v)[k] == mem[k],
        le_write(mem, i, n, v).len() == mem.len(),
{
}

} // verus!
