//! Byte-addressable memory: the `Addressable` capability and the linear
//! memory with write-protected ranges that backs the machine.
use vstd::prelude::*;

verus! {

/// The highest address of the 16-bit address space.
pub const LAST_ADDRESS: u16 = 0xFFFF;

/// The word whose low byte is `lo` and whose high byte is `hi`.
pub open spec fn word_of(lo: u8, hi: u8) -> u16 {
    (lo as u16) | ((hi as u16) << 8)
}

/// The low byte of `word`.
pub open spec fn low_byte(word: u16) -> u8 {
    (word & 0x00ff) as u8
}

/// The high byte of `word`.
pub open spec fn high_byte(word: u16) -> u8 {
    ((word & 0xff00) >> 8) as u8
}

/// What can be observed of a memory, as two relations: which answers a read
/// may have and which outcomes a write may have in a given state. A plain
/// memory admits exactly one of each; memory that forwards to devices admits
/// whatever the device answers.
pub trait MemoryModel: Sized {
    /// The structural invariant that every operation needs and keeps.
    spec fn wf(&self) -> bool;

    /// `got` is an admissible answer to reading the byte at `addr`.
    spec fn reads(&self, addr: u16, got: Option<u8>) -> bool;

    /// Writing `value` at `addr` may leave the memory as `after` and report `ok`.
    spec fn writes(&self, addr: u16, value: u8, after: &Self, ok: bool) -> bool;
}

/// Reading the word at `addr` gives `got` when the byte reads answer `lo` and
/// `hi`: the low byte comes from `addr`, the high byte from `addr + 1`, and the
/// read fails as soon as either byte is unreadable or lies beyond the address
/// space. The high byte is only read after a readable low byte.
pub open spec fn reads_word_through<M: MemoryModel>(
    m: &M,
    addr: u16,
    lo: Option<u8>,
    hi: Option<u8>,
    got: Option<u16>,
) -> bool {
    &&& m.reads(addr, lo)
    &&& lo is Some && addr < LAST_ADDRESS ==> m.reads((addr + 1) as u16, hi)
    &&& got == if lo is Some && hi is Some && addr < LAST_ADDRESS {
        Some(word_of(lo->0, hi->0))
    } else {
        None
    }
}

/// `got` is an admissible answer to reading the word at `addr`.
pub open spec fn reads_word<M: MemoryModel>(m: &M, addr: u16, got: Option<u16>) -> bool {
    exists|lo: Option<u8>, hi: Option<u8>| #[trigger] reads_word_through(m, addr, lo, hi, got)
}

/// Writing the word `value` at `addr` may pass through `mid` and end in `after`
/// with `ok`: the low byte goes to `addr` first; only when that is accepted and
/// `addr + 1` is an address does the high byte follow. A rejected high byte
/// leaves the low byte written.
pub open spec fn writes_word_through<M: MemoryModel>(
    m: &M,
    addr: u16,
    value: u16,
    mid: &M,
    low_ok: bool,
    after: &M,
    ok: bool,
) -> bool {
    &&& m.writes(addr, low_byte(value), mid, low_ok)
    &&& if low_ok && addr < LAST_ADDRESS {
        mid.wf() && mid.writes((addr + 1) as u16, high_byte(value), after, ok)
    } else {
        *after == *mid && !ok
    }
}

/// Writing the word `value` at `addr` may leave the memory as `after` and report `ok`.
pub open spec fn writes_word<M: MemoryModel>(
    m: &M,
    addr: u16,
    value: u16,
    after: &M,
    ok: bool,
) -> bool {
    exists|mid: &M, low_ok: bool| #[trigger]
        writes_word_through(m, addr, value, mid, low_ok, after, ok)
}

/// Copying the bytes `i..n` of the range at `from` to the range at `to`, one
/// byte after the other, may leave the memory as `after` and report `ok`. The
/// copy stops with `false` at the first byte that lies beyond the address
/// space, cannot be read or is not accepted; what was copied before stays.
pub open spec fn copies_from<M: MemoryModel>(
    m: &M,
    from: u16,
    to: u16,
    i: nat,
    n: nat,
    after: &M,
    ok: bool,
) -> bool
    decreases n - i,
{
    if i >= n {
        *after == *m && ok
    } else if from + i > LAST_ADDRESS || to + i > LAST_ADDRESS {
        *after == *m && !ok
    } else {
        exists|got: Option<u8>| #[trigger]
            m.reads((from + i) as u16, got) && match got {
                None => *after == *m && !ok,
                Some(value) => exists|mid: &M, wrote: bool| #[trigger]
                    m.writes((to + i) as u16, value, mid, wrote) && if wrote {
                        mid.wf() && copies_from(mid, from, to, i + 1, n, after, ok)
                    } else {
                        *after == *mid && !ok
                    },
            }
    }
}

/// Copying `n` bytes from `from` to `to` may leave the memory as `after` and
/// report `ok`.
pub open spec fn copies<M: MemoryModel>(
    m: &M,
    from: u16,
    to: u16,
    n: nat,
    after: &M,
    ok: bool,
) -> bool {
    copies_from(m, from, to, 0, n, after, ok)
}

/// A word is the word of its low and its high byte.
pub proof fn lemma_word_of_bytes(word: u16)
    by (bit_vector)
    ensures
        word_of(low_byte(word), high_byte(word)) == word,
{
}

/// Word access is little-endian: a word that is read is the byte at the
/// address, with the byte at the next address in its high half.
pub proof fn lemma_word_read_little_endian<M: MemoryModel>(m: &M, addr: u16, word: u16)
    requires
        reads_word(m, addr, Some(word)),
    ensures
        addr < LAST_ADDRESS,
        exists|lo: u8, hi: u8|
            {
                &&& #[trigger] m.reads(addr, Some(lo))
                &&& #[trigger] m.reads((addr + 1) as u16, Some(hi))
                &&& word == (lo as u16) | ((hi as u16) << 8)
            },
{
    let (lo, hi) = choose|lo: Option<u8>, hi: Option<u8>| #[trigger]
        reads_word_through(m, addr, lo, hi, Some(word));
    assert(m.reads(addr, Some(lo->0)));
    assert(m.reads((addr + 1) as u16, Some(hi->0)));
}

/// Anything that can be read and written byte by byte at 16-bit addresses,
/// with little-endian word access and forward copying built on the bytes.
pub trait Addressable: MemoryModel {
    /// Reads the byte at `addr`; `None` where nothing can be read there.
    fn read(&self, addr: u16) -> (got: Option<u8>)
        requires
            self.wf(),
        ensures
            self.reads(addr, got),
    ;

    /// Writes `value` at `addr` and reports whether the write was accepted.
    fn write(&mut self, addr: u16, value: u8) -> (ok: bool)
        requires
            old(self).wf(),
        ensures
            final(self).wf(),
            old(self).writes(addr, value, final(self), ok),
    ;

    /// Reads the little-endian word whose low byte is at `addr`.
    fn read2(&self, addr: u16) -> (got: Option<u16>)
        requires
            self.wf(),
        ensures
            reads_word(self, addr, got),
    {
        let lo = self.read(addr);
        if lo.is_none() || addr == LAST_ADDRESS {
            assert(reads_word_through(self, addr, lo, None, None));
            return None;
        }
        let hi = self.read(addr + 1);
        let got = match (lo, hi) {
            (Some(l), Some(h)) => {
                let word: u16 = (l as u16) | ((h as u16) << 8);
                Some(word)
            },
            _ => None,
        };
        assert(reads_word_through(self, addr, lo, hi, got));
        got
    }

    /// Writes `value` as a little-endian word whose low byte goes to `addr`.
    fn write2(&mut self, addr: u16, value: u16) -> (ok: bool)
        requires
            old(self).wf(),
        ensures
            final(self).wf(),
            writes_word(old(self), addr, value, final(self), ok),
    {
        let lo = #[verifier::truncate] ((value & 0x00ff) as u8);
        let hi = #[verifier::truncate] (((value & 0xff00) >> 8) as u8);
        let low_ok = self.write(addr, lo);
        let ghost mid = *self;
        if !low_ok || addr == LAST_ADDRESS {
            assert(writes_word_through(old(self), addr, value, &mid, low_ok, self, false));
            return false;
        }
        let ok = self.write(addr + 1, hi);
        assert(writes_word_through(old(self), addr, value, &mid, low_ok, self, ok));
        ok
    }

    /// Copies the `n` bytes at `from..from + n` to `to..to + n`, lowest address
    /// first, and stops with `false` at the first byte that fails.
    fn copy(&mut self, from: u16, to: u16, n: usize) -> (ok: bool)
        requires
            old(self).wf(),
        ensures
            final(self).wf(),
            copies(old(self), from, to, n as nat, final(self), ok),
    {
        let mut i: usize = 0;
        while i < n
            invariant
                i <= n,
                self.wf(),
                forall|after: &Self, ok: bool|
                    copies_from(self, from, to, i as nat, n as nat, after, ok) ==> copies_from(
                        old(self),
                        from,
                        to,
                        0,
                        n as nat,
                        after,
                        ok,
                    ),
            decreases n - i,
        {
            if i > (LAST_ADDRESS - from) as usize || i > (LAST_ADDRESS - to) as usize {
                return false;
            }
            let ghost before = *self;
            let got = self.read(from + i as u16);
            match got {
                None => {
                    return false;
                },
                Some(value) => {
                    let wrote = self.write(to + i as u16, value);
                    if !wrote {
                        return false;
                    }
                    assert forall|after: &Self, ok: bool|
                        copies_from(
                            self,
                            from,
                            to,
                            (i + 1) as nat,
                            n as nat,
                            after,
                            ok,
                        ) implies copies_from(&before, from, to, i as nat, n as nat, after, ok) by {
                        assert(before.reads((from + i) as u16, got));
                        assert(before.writes((to + i) as u16, value, self, wrote));
                    }
                },
            }
            i += 1;
        }
        true
    }
}

/// Two `(start, length)` ranges overlap: they have a byte in common.
pub open spec fn ranges_overlap(a: (nat, nat), b: (nat, nat)) -> bool {
    a.1 > 0 && b.1 > 0 && a.0 < b.0 + b.1 && b.0 < a.0 + a.1
}

/// No two ranges of the table overlap.
pub open spec fn ranges_apart(table: Seq<(nat, nat)>) -> bool {
    forall|i: int, j: int| 0 <= i < j < table.len() ==> !ranges_overlap(table[i], table[j])
}

/// Some range of the table overlaps `range`.
pub open spec fn overlaps_table(table: Seq<(nat, nat)>, range: (nat, nat)) -> bool {
    exists|i: int| 0 <= i < table.len() && ranges_overlap(range, #[trigger] table[i])
}

/// The byte at `addr` lies in some range of the table.
pub open spec fn protected(table: Seq<(nat, nat)>, addr: nat) -> bool {
    exists|i: int|
        0 <= i < table.len() && (#[trigger] table[i]).0 <= addr < table[i].0 + table[i].1
}

/// In a table whose ranges are apart no byte lies in two ranges.
pub proof fn lemma_ranges_share_no_byte(table: Seq<(nat, nat)>, i: int, j: int, addr: nat)
    requires
        ranges_apart(table),
        0 <= i < table.len(),
        0 <= j < table.len(),
        i != j,
        table[i].0 <= addr < table[i].0 + table[i].1,
    ensures
        !(table[j].0 <= addr < table[j].0 + table[j].1),
{
    if i < j {
        assert(!ranges_overlap(table[i], table[j]));
    } else {
        assert(!ranges_overlap(table[j], table[i]));
    }
}

/// A flat byte array with a table of write-protected ranges.
pub struct LinearMemory {
    bytes: Vec<u8>,
    size: usize,
    read_only: Vec<(u32, u32)>,
}

impl LinearMemory {
    /// The bytes, indexed by address.
    pub closed spec fn bytes(&self) -> Seq<u8> {
        self.bytes@
    }

    /// The write-protected ranges as `(start, length)`, in the order they were marked.
    pub closed spec fn read_only(&self) -> Seq<(nat, nat)> {
        Seq::new(
            self.read_only@.len(),
            |i: int| (self.read_only@[i].0 as nat, self.read_only@[i].1 as nat),
        )
    }

    /// The representation is consistent with what it stands for.
    pub closed spec fn consistent(&self) -> bool {
        &&& self.size == self.bytes@.len()
        &&& forall|i: int|
            0 <= i < self.read_only@.len() ==> (#[trigger] self.read_only@[i]).0 <= 0xFFFF
                && self.read_only@[i].1 <= 0x1_0000
    }

    /// The byte at `addr`, if the memory reaches that far.
    pub open spec fn byte_at(&self, addr: u16) -> Option<u8> {
        if addr < self.bytes().len() {
            Some(self.bytes()[addr as int])
        } else {
            None
        }
    }

    /// A write at `addr` is accepted: the address is in bounds and not protected.
    pub open spec fn accepts(&self, addr: u16) -> bool {
        addr < self.bytes().len() && !protected(self.read_only(), addr as nat)
    }

    /// A memory of `n` zero bytes with nothing protected.
    pub fn new(n: usize) -> (memory: Self)
        ensures
            memory.wf(),
            memory.bytes() == Seq::new(n as nat, |i: int| 0u8),
            memory.read_only() == Seq::<(nat, nat)>::empty(),
    {
        let memory = Self { bytes: vec![0u8; n], size: n, read_only: Vec::new() };
        assert(memory.bytes() =~= Seq::new(n as nat, |i: int| 0u8));
        assert(memory.read_only() =~= Seq::<(nat, nat)>::empty());
        memory
    }

    /// How many of the addresses `0..limit` are accepted in a row, from 0 on:
    /// the first address that a byte-by-byte write from 0 is rejected at, or
    /// `limit` if there is none.
    pub open spec fn accepted_prefix(&self, limit: nat) -> nat
        decreases limit,
    {
        if limit == 0 {
            0
        } else {
            let before = self.accepted_prefix((limit - 1) as nat);
            if before == limit - 1 && limit - 1 <= LAST_ADDRESS && self.accepts(
                (limit - 1) as u16,
            ) {
                limit
            } else {
                before
            }
        }
    }

    /// Writes `program` as little-endian words from address 0 on, then marks
    /// the bytes that it occupies read-only. The writing stops at the first
    /// rejected byte, and what was written before it stays.
    pub fn write_program(&mut self, program: &[u16]) -> (ok: bool)
        requires
            old(self).wf(),
        ensures
            final(self).wf(),
            ranges_apart(final(self).read_only()),
            final(self).bytes() == overwritten(
                old(self).bytes(),
                program_bytes(program@),
                old(self).accepted_prefix(2 * program@.len()),
            ),
            ok == (old(self).accepted_prefix(2 * program@.len()) == 2 * program@.len()),
            final(self).read_only() == if ok {
                old(self).read_only().push((0, 2 * program@.len()))
            } else {
                old(self).read_only()
            },
    {
        let n = program.len();
        let ghost image = program_bytes(program@);
        let mut idx: usize = 0;
        while idx < n
            invariant
                idx <= n,
                n == program@.len(),
                image == program_bytes(program@),
                self.wf(),
                self.read_only() == old(self).read_only(),
                self.bytes().len() == old(self).bytes().len(),
                old(self).accepted_prefix(2 * idx as nat) == 2 * idx,
                self.bytes() == overwritten(old(self).bytes(), image, 2 * idx as nat),
            decreases n - idx,
        {
            let word = program[idx];
            if idx > 0x7FFF {
                proof {
                    old(self).lemma_prefix_stops(2 * idx as nat, 2 * n as nat);
                }
                return false;
            }
            let addr = (idx * 2) as u16;
            let ghost before = *self;
            let wrote = self.write2(addr, word);
            proof {
                let (mid, low_ok) = choose|mid: &Self, low_ok: bool| #[trigger]
                    writes_word_through(&before, addr, word, mid, low_ok, self, wrote);
                assert(before.accepts(addr) == old(self).accepts(addr));
                assert(image[2 * idx as int] == low_byte(word));
                assert(image[2 * idx + 1] == high_byte(word));
                if !low_ok {
                    assert(self.bytes() == before.bytes());
                    old(self).lemma_prefix_stops(2 * idx as nat, 2 * n as nat);
                } else {
                    assert(mid.bytes() =~= overwritten(
                        old(self).bytes(),
                        image,
                        (2 * idx + 1) as nat,
                    ));
                    assert(old(self).accepted_prefix((2 * idx + 1) as nat) == 2 * idx + 1);
                    assert(mid.accepts((addr + 1) as u16) == old(self).accepts((addr + 1) as u16));
                    if !wrote {
                        old(self).lemma_prefix_stops((2 * idx + 1) as nat, 2 * n as nat);
                    } else {
                        assert(self.bytes() =~= overwritten(
                            old(self).bytes(),
                            image,
                            (2 * idx + 2) as nat,
                        ));
                        assert(old(self).accepted_prefix((2 * idx + 2) as nat) == 2 * idx + 2);
                    }
                }
            }
            if !wrote {
                return false;
            }
            idx += 1;
        }
        proof {
            old(self).lemma_prefix_bound(2 * n as nat);
            old(self).lemma_prefix_accepted(2 * n as nat);
            let table = self.read_only();
            assert forall|i: int| 0 <= i < table.len() implies !ranges_overlap(
                (0, 2 * n as nat),
                #[trigger] table[i],
            ) by {
                if table[i].1 > 0 && table[i].0 < 2 * n {
                    assert(table[i].0 <= table[i].0 < table[i].0 + table[i].1);
                    assert(!old(self).accepts(table[i].0 as u16));
                }
            }
        }
        self.mark(0, 2 * n as u32)
    }

    /// Marks the `len` bytes from `addr` on read-only, unless the range
    /// overlaps one that is marked already.
    pub fn as_read_only(&mut self, addr: u16, len: u16) -> (ok: bool)
        requires
            old(self).wf(),
        ensures
            final(self).wf(),
            ranges_apart(final(self).read_only()),
            final(self).bytes() == old(self).bytes(),
            ok == !overlaps_table(old(self).read_only(), (addr as nat, len as nat)),
            final(self).read_only() == if ok {
                old(self).read_only().push((addr as nat, len as nat))
            } else {
                old(self).read_only()
            },
    {
        self.mark(addr as u32, len as u32)
    }

    fn mark(&mut self, start: u32, len: u32) -> (ok: bool)
        requires
            old(self).wf(),
            start <= 0xFFFF,
            len <= 0x1_0000,
        ensures
            final(self).wf(),
            final(self).bytes() == old(self).bytes(),
            ok == !overlaps_table(old(self).read_only(), (start as nat, len as nat)),
            final(self).read_only() == if ok {
                old(self).read_only().push((start as nat, len as nat))
            } else {
                old(self).read_only()
            },
    {
        let ghost table = self.read_only();
        let ghost range = (start as nat, len as nat);
        let mut i: usize = 0;
        while i < self.read_only.len()
            invariant
                i <= self.read_only@.len(),
                *self == *old(self),
                self.wf(),
                table == self.read_only(),
                range == (start as nat, len as nat),
                start <= 0xFFFF,
                len <= 0x1_0000,
                forall|j: int| 0 <= j < i ==> !ranges_overlap(range, #[trigger] table[j]),
            decreases self.read_only@.len() - i,
        {
            let (in_start, in_len) = self.read_only[i];
            let overlap = len > 0 && in_len > 0 && start < in_start + in_len && in_start < start
                + len;
            if overlap {
                assert(ranges_overlap(range, table[i as int]));
                return false;
            }
            i += 1;
        }
        self.read_only.push((start, len));
        assert(self.read_only() =~= table.push(range));
        assert forall|i: int, j: int| 0 <= i < j < self.read_only().len() implies !ranges_overlap(
            self.read_only()[i],
            self.read_only()[j],
        ) by {
            if j < table.len() {
                assert(!ranges_overlap(table[i], table[j]));
            } else {
                assert(!ranges_overlap(range, table[i]));
            }
        }
        true
    }

    /// Whether the byte at `addr` lies in a read-only range.
    pub fn is_read_only(&self, addr: u16) -> (found: bool)
        requires
            self.wf(),
        ensures
            found == protected(self.read_only(), addr as nat),
    {
        let ghost table = self.read_only();
        let mut i: usize = 0;
        while i < self.read_only.len()
            invariant
                i <= self.read_only@.len(),
                self.wf(),
                table == self.read_only(),
                forall|j: int|
                    0 <= j < i ==> !((#[trigger] table[j]).0 <= addr < table[j].0 + table[j].1),
            decreases self.read_only@.len() - i,
        {
            let (start, len) = self.read_only[i];
            if addr as u32 >= start && (addr as u32) < start + len {
                assert(table[i as int].0 <= addr < table[i as int].0 + table[i as int].1);
                return true;
            }
            i += 1;
        }
        false
    }

    /// Once an address is rejected, no longer prefix is accepted.
    pub proof fn lemma_prefix_stops(&self, stop: nat, limit: nat)
        requires
            self.accepted_prefix(stop) == stop,
            stop > LAST_ADDRESS || !self.accepts(stop as u16),
            stop <= limit,
        ensures
            self.accepted_prefix(limit) == stop,
        decreases limit,
    {
        if limit > stop {
            self.lemma_prefix_stops(stop, (limit - 1) as nat);
        }
    }

    /// Every address of a prefix that is accepted in full is accepted.
    pub proof fn lemma_prefix_accepted(&self, limit: nat)
        requires
            self.accepted_prefix(limit) == limit,
        ensures
            forall|a: nat| a < limit ==> a <= LAST_ADDRESS && #[trigger] self.accepts(a as u16),
        decreases limit,
    {
        if limit > 0 {
            self.lemma_prefix_bound((limit - 1) as nat);
            self.lemma_prefix_accepted((limit - 1) as nat);
        }
    }

    /// The accepted prefix is never longer than asked for, nor than the
    /// memory or the address space.
    pub proof fn lemma_prefix_bound(&self, limit: nat)
        ensures
            self.accepted_prefix(limit) <= limit,
            self.accepted_prefix(limit) <= self.bytes().len(),
            self.accepted_prefix(limit) <= 0x1_0000,
        decreases limit,
    {
        if limit > 0 {
            self.lemma_prefix_bound((limit - 1) as nat);
        }
    }
}

/// A word read from a linear memory is made of the two bytes at the
/// address, low byte first; it fails if one of them lies beyond the memory.
pub proof fn lemma_linear_word_read(m: &LinearMemory, addr: u16, got: Option<u16>)
    requires
        reads_word(m, addr, got),
    ensures
        got == if addr + 1 < m.bytes().len() && addr < LAST_ADDRESS {
            Some(word_of(m.bytes()[addr as int], m.bytes()[addr + 1]))
        } else {
            None
        },
{
}

/// A word that a linear memory accepted is the word that is read back.
pub proof fn lemma_word_written_is_read(
    m: &LinearMemory,
    addr: u16,
    value: u16,
    after: &LinearMemory,
    got: Option<u16>,
)
    requires
        m.wf(),
        writes_word(m, addr, value, after, true),
        reads_word(after, addr, got),
    ensures
        got == Some(value),
{
    lemma_word_of_bytes(value);
    lemma_linear_word_read(after, addr, got);
}

/// A write that a linear memory rejects changes nothing.
pub proof fn lemma_rejected_write_changes_nothing(
    m: &LinearMemory,
    addr: u16,
    value: u8,
    after: &LinearMemory,
)
    requires
        m.writes(addr, value, after, false),
    ensures
        after.bytes() == m.bytes(),
        after.read_only() == m.read_only(),
        !m.accepts(addr),
{
}

/// The bytes that `words` occupy in memory: each word low byte first.
pub open spec fn program_bytes(words: Seq<u16>) -> Seq<u8> {
    Seq::new(
        2 * words.len(),
        |i: int|
            if i % 2 == 0 {
                low_byte(words[i / 2])
            } else {
                high_byte(words[i / 2])
            },
    )
}

/// `bytes` with its first `count` bytes replaced by those of `image`.
pub open spec fn overwritten(bytes: Seq<u8>, image: Seq<u8>, count: nat) -> Seq<u8> {
    Seq::new(
        bytes.len(),
        |i: int|
            if i < count {
                image[i]
            } else {
                bytes[i]
            },
    )
}

impl MemoryModel for LinearMemory {
    open spec fn wf(&self) -> bool {
        self.consistent() && ranges_apart(self.read_only())
    }

    open spec fn reads(&self, addr: u16, got: Option<u8>) -> bool {
        got == self.byte_at(addr)
    }

    open spec fn writes(&self, addr: u16, value: u8, after: &Self, ok: bool) -> bool {
        &&& ok == self.accepts(addr)
        &&& after.read_only() == self.read_only()
        &&& after.bytes() == if ok {
            self.bytes().update(addr as int, value)
        } else {
            self.bytes()
        }
    }
}

impl Addressable for LinearMemory {
    fn read(&self, addr: u16) -> (got: Option<u8>) {
        if (addr as usize) < self.size {
            Some(self.bytes[addr as usize])
        } else {
            None
        }
    }

    fn write(&mut self, addr: u16, value: u8) -> (ok: bool) {
        if self.is_read_only(addr) {
            return false;
        }
        if (addr as usize) < self.size {
            self.bytes[addr as usize] = value;
            true
        } else {
            false
        }
    }
}

} // verus!
