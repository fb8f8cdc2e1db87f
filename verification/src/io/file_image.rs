//! The contents of a database file held in memory: positioned reads that
//! fail past the end, and positioned writes that extend the file with zero
//! bytes where needed.
use vstd::prelude::*;

verus! {

/// The file after writing `b` at `off`: bytes between the old end and `off`
/// become zero, the file grows to at least `off + b.len()`.
pub open spec fn write_at(data: Seq<u8>, off: int, b: Seq<u8>) -> Seq<u8> {
    let end = if data.len() > off + b.len() {
        data.len() as int
    } else {
        off + b.len()
    };
    Seq::new(
        end as nat,
        |i: int|
            if off <= i < off + b.len() {
                b[i - off]
            } else if i < data.len() {
                data[i]
            } else {
                0u8
            },
    )
}

/// A read of `n` bytes at `off` succeeds when they lie inside the file.
pub open spec fn read_ok(data: Seq<u8>, off: int, n: int) -> bool {
    0 <= off && 0 <= n && off + n <= data.len()
}

/// What a read of `n` bytes at `off` returns.
pub open spec fn read_at(data: Seq<u8>, off: int, n: int) -> Seq<u8> {
    data.subrange(off, off + n)
}

/// Writes `bytes` at `offset`.
pub fn write_all_at(data: &mut Vec<u8>, bytes: &[u8], offset: u64)
    requires
        offset + bytes@.len() <= usize::MAX,
    ensures
        final(data)@ == write_at(old(data)@, offset as int, bytes@),
{
    let off = offset as usize;
    let n = bytes.len();
    while data.len() < off + n
        invariant
            off + n <= usize::MAX,
            old(data)@.len() <= data@.len(),
            forall|i: int| 0 <= i < old(data)@.len() ==> data@[i] == old(data)@[i],
            forall|i: int| old(data)@.len() <= i < data@.len() ==> data@[i] == 0u8,
            data@.len() <= old(data)@.len() || data@.len() <= off + n,
        decreases off + n - data@.len(),
    {
        data.push(0u8);
    }
    let ghost grown = data@;
    let mut i: usize = 0;
    while i < n
        invariant
            n == bytes@.len(),
            off + n <= usize::MAX,
            off + n <= data@.len(),
            data@.len() == grown.len(),
            grown.len() == (if old(data)@.len() > off + n {
                old(data)@.len() as int
            } else {
                off + n
            }),
            forall|k: int| 0 <= k < old(data)@.len() ==> grown[k] == old(data)@[k],
            forall|k: int| old(data)@.len() <= k < grown.len() ==> grown[k] == 0u8,
            forall|k: int| 0 <= k < data@.len() && !(off <= k < off + i) ==> data@[k] == grown[k],
            forall|k: int| off <= k < off + i ==> data@[k] == bytes@[k - off],
            i <= n,
        decreases n - i,
    {
        data.set(off + i, bytes[i]);
        i += 1;
    }
    let ghost w = write_at(old(data)@, offset as int, bytes@);
    assert(off as int == offset as int);
    assert(w.len() == data@.len());
    assert forall|k: int| 0 <= k < w.len() implies data@[k] == w[k] by {
        if off <= k < off + n {
            assert(data@[k] == bytes@[k - off]);
            assert(w[k] == bytes@[k - off]);
        } else if k < old(data)@.len() {
            assert(data@[k] == grown[k]);
            assert(w[k] == old(data)@[k]);
        } else {
            assert(data@[k] == grown[k]);
            assert(w[k] == 0u8);
        }
    }
    assert(data@ =~= w);
}

/// Reads `n` bytes at `offset`; `None` when they do not all lie in the file.
pub fn read_exact_at(data: &Vec<u8>, n: usize, offset: u64) -> (r: Option<Vec<u8>>)
    ensures
        r is Some <==> read_ok(data@, offset as int, n as int),
        r matches Some(v) ==> v@ == read_at(data@, offset as int, n as int),
{
    let len = data.len();
    if offset > len as u64 || n > len - offset as usize {
        return None;
    }
    let off = offset as usize;
    Some(crate::encoding::copy_range(data.as_slice(), off, off + n))
}

/// A read gives back what the last write at the same place wrote.
pub proof fn lemma_read_after_write(data: Seq<u8>, off: int, b: Seq<u8>)
    requires
        0 <= off,
    ensures
        read_ok(write_at(data, off, b), off, b.len() as int),
        read_at(write_at(data, off, b), off, b.len() as int) == b,
{
    assert(read_at(write_at(data, off, b), off, b.len() as int) =~= b);
}

/// A write leaves every read of bytes outside its range unchanged.
pub proof fn lemma_read_other_after_write(data: Seq<u8>, off: int, b: Seq<u8>, off2: int, n: int)
    requires
        0 <= off,
        read_ok(data, off2, n),
        off2 + n <= off || off + b.len() <= off2,
    ensures
        read_ok(write_at(data, off, b), off2, n),
        read_at(write_at(data, off, b), off2, n) == read_at(data, off2, n),
{
    assert(read_at(write_at(data, off, b), off2, n) =~= read_at(data, off2, n));
}

} // verus!
