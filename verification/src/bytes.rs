use vstd::prelude::*;

verus! {

/// Number of zero bytes that bring a length `n` up to the next multiple of `align`.
pub open spec fn pad_len(n: nat, align: nat) -> nat {
    if n % align == 0 {
        0
    } else {
        (align - n % align) as nat
    }
}

/// `n` zero bytes.
pub open spec fn zeros(n: nat) -> Seq<u8> {
    Seq::new(n, |i: int| 0u8)
}

/// `s` followed by zero bytes up to the next multiple of `align`.
pub open spec fn padded(s: Seq<u8>, align: nat) -> Seq<u8> {
    s + zeros(pad_len(s.len(), align))
}

/// The four bytes of `v`, least significant first.
pub open spec fn le32(v: u32) -> Seq<u8> {
    seq![
        (v % 0x100) as u8,
        (v / 0x100 % 0x100) as u8,
        (v / 0x1_0000 % 0x100) as u8,
        (v / 0x100_0000 % 0x100) as u8,
    ]
}

/// The eight bytes of `v`, least significant first.
pub open spec fn le64(v: u64) -> Seq<u8> {
    le32((v % 0x1_0000_0000) as u32) + le32((v / 0x1_0000_0000) as u32)
}

pub proof fn lemma_pad_len(n: nat, align: nat, k: nat)
    requires
        align > 0,
        k <= pad_len(n, align),
    ensures
        (n + k) % align == 0 <==> k == pad_len(n, align),
        pad_len(n, align) < align,
{
    let r = n % align;
    let q = n / align;
    assert(n == q * align + r && 0 <= r < align) by (nonlinear_arith)
        requires
            align > 0,
            r == n % align,
            q == n / align,
    ;
    if r == 0 {
        assert(k == 0);
    } else {
        assert((n + k) % align == 0 <==> k == align - r) by (nonlinear_arith)
            requires
                align > 0,
                n == q * align + r,
                0 < r < align,
                0 <= k <= align - r,
        {
            if k == align - r {
                assert(n + k == (q + 1) * align);
            }
            if k < align - r {
                assert(n + k == q * align + (r + k));
                assert(0 < r + k < align);
            }
        }
    }
}

/// Appends all of `bytes` to `out`.
pub fn append_bytes(out: &mut Vec<u8>, bytes: &[u8])
    requires
        old(out)@.len() + bytes@.len() <= usize::MAX,
    ensures
        final(out)@ == old(out)@ + bytes@,
{
    let ghost start = out@;
    let mut i: usize = 0;
    while i < bytes.len()
        invariant
            i <= bytes@.len(),
            start.len() + bytes@.len() <= usize::MAX,
            out@ == start + bytes@.subrange(0, i as int),
        decreases bytes@.len() - i,
    {
        out.push(bytes[i]);
        i = i + 1;
        assert(out@ =~= start + bytes@.subrange(0, i as int));
    }
    assert(bytes@.subrange(0, i as int) =~= bytes@);
}

/// Appends `n` zero bytes to `out`.
pub fn append_zeros(out: &mut Vec<u8>, n: usize)
    requires
        old(out)@.len() + n <= usize::MAX,
    ensures
        final(out)@ == old(out)@ + zeros(n as nat),
{
    let ghost start = out@;
    let mut i: usize = 0;
    while i < n
        invariant
            i <= n,
            start.len() + n <= usize::MAX,
            out@ == start + zeros(i as nat),
        decreases n - i,
    {
        out.push(0u8);
        i = i + 1;
        assert(out@ =~= start + zeros(i as nat));
    }
}

/// Appends zero bytes to `out` until its length is a multiple of `align`.
pub fn pad_to(out: &mut Vec<u8>, align: usize)
    requires
        align > 0,
        old(out)@.len() + align <= usize::MAX,
    ensures
        final(out)@ == padded(old(out)@, align as nat),
{
    let ghost start = out@;
    proof {
        lemma_pad_len(start.len(), align as nat, 0);
    }
    while out.len() % align != 0
        invariant
            align > 0,
            start.len() + align <= usize::MAX,
            start.len() <= out@.len() <= start.len() + pad_len(start.len(), align as nat),
            pad_len(start.len(), align as nat) < align,
            out@ == start + zeros((out@.len() - start.len()) as nat),
        decreases start.len() + pad_len(start.len(), align as nat) - out@.len(),
    {
        proof {
            lemma_pad_len(start.len(), align as nat, (out@.len() - start.len()) as nat);
        }
        out.push(0u8);
        assert(out@ =~= start + zeros((out@.len() - start.len()) as nat));
    }
    proof {
        lemma_pad_len(start.len(), align as nat, (out@.len() - start.len()) as nat);
    }
}

/// Appends the little-endian bytes of `v` to `out`.
pub fn append_le32(out: &mut Vec<u8>, v: u32)
    requires
        old(out)@.len() + 4 <= usize::MAX,
    ensures
        final(out)@ == old(out)@ + le32(v),
{
    let b0 = (v & 0xFF) as u8;
    let b1 = ((v >> 8) & 0xFF) as u8;
    let b2 = ((v >> 16) & 0xFF) as u8;
    let b3 = ((v >> 24) & 0xFF) as u8;
    assert(b0 == (v % 0x100) as u8 && b1 == (v / 0x100 % 0x100) as u8 && b2 == (v / 0x1_0000
        % 0x100) as u8 && b3 == (v / 0x100_0000 % 0x100) as u8) by (bit_vector)
        requires
            b0 == (v & 0xFF) as u8,
            b1 == ((v >> 8) & 0xFF) as u8,
            b2 == ((v >> 16) & 0xFF) as u8,
            b3 == ((v >> 24) & 0xFF) as u8,
    ;
    let ghost start = out@;
    out.push(b0);
    out.push(b1);
    out.push(b2);
    out.push(b3);
    assert(out@ =~= start + le32(v));
}

} // verus!
