//! The waveform overview: how the decoded buffer is cut into buckets whose
//! loudness is measured, and how the bucket values are spread over the
//! width of the display.
use vstd::prelude::*;

verus! {

/// Samples per bucket: the buffer divided evenly among the buckets, but at
/// least one.
pub open spec fn bucket_size(len: nat, buckets: nat) -> nat {
    if len / buckets >= 1 {
        len / buckets
    } else {
        1
    }
}

/// The `i`-th bucket `[i * size, min((i + 1) * size, len))`.
pub open spec fn bucket_range(i: int, size: nat, len: nat) -> (int, int) {
    (i * size, if (i + 1) * size < len {
        (i + 1) * size
    } else {
        len as int
    })
}

/// The sample ranges whose loudness forms the waveform overview of a buffer
/// of `len` samples with (at most) `buckets` buckets: consecutive ranges of
/// `bucket_size` samples (the last one possibly shorter), as many as fit, but
/// no more than `buckets`. `None` means the overview is all silence: the
/// buffer is empty or no buckets are asked for.
pub fn rms_bucket_ranges(len: usize, buckets: usize) -> (res: Option<Vec<(usize, usize)>>)
    ensures
        res is None <==> (len == 0 || buckets == 0),
        res matches Some(v) ==> {
            let size = bucket_size(len as nat, buckets as nat);
            &&& v@.len() <= buckets
            &&& v@.len() == buckets || v@.len() * size >= len
            &&& forall|i: int|
                0 <= i < v@.len() ==> {
                    &&& (#[trigger] v@[i]).0 == bucket_range(i, size, len as nat).0
                    &&& v@[i].1 == bucket_range(i, size, len as nat).1
                    &&& v@[i].0 < v@[i].1
                }
        },
{
    if len == 0 || buckets == 0 {
        return None;
    }
    let q = len / buckets;
    let size: usize = if q >= 1 {
        q
    } else {
        1
    };
    let mut v: Vec<(usize, usize)> = Vec::new();
    let mut start: usize = 0;
    let mut i: usize = 0;
    while i < buckets
        invariant
            size == bucket_size(len as nat, buckets as nat),
            size >= 1,
            i <= buckets,
            v@.len() == i,
            start == i * size,
            start < len,
            forall|k: int|
                0 <= k < i ==> {
                    &&& (#[trigger] v@[k]).0 == bucket_range(k, size as nat, len as nat).0
                    &&& v@[k].1 == bucket_range(k, size as nat, len as nat).1
                    &&& v@[k].0 < v@[k].1
                },
        decreases buckets - i,
    {
        let end: usize = if len - start > size {
            start + size
        } else {
            len
        };
        assert((i + 1) * size == i * size + size) by (nonlinear_arith);
        v.push((start, end));
        i = i + 1;
        if end >= len {
            return Some(v);
        }
        start = end;
    }
    Some(v)
}

/// The bucket values spread over `width` display columns: column `i` shows
/// bucket `i * n / width`. An empty overview or a zero width shows a single
/// silent column.
pub fn subsample_waveform(rms: &Vec<u64>, width: usize) -> (res: Vec<u64>)
    requires
        width == 0 || (width - 1) * rms@.len() <= usize::MAX,
    ensures
        (rms@.len() == 0 || width == 0) ==> res@ == seq![0u64],
        (rms@.len() > 0 && width > 0) ==> res@ == Seq::new(
            width as nat,
            |i: int| rms@[i * rms@.len() / (width as int)],
        ),
{
    let n = rms.len();
    if n == 0 || width == 0 {
        let mut v: Vec<u64> = Vec::new();
        v.push(0);
        assert(v@ =~= seq![0u64]);
        return v;
    }
    let mut v: Vec<u64> = Vec::new();
    let mut i: usize = 0;
    while i < width
        invariant
            i <= width,
            n == rms@.len(),
            n > 0,
            (width - 1) * n <= usize::MAX,
            v@.len() == i,
            forall|k: int| 0 <= k < i ==> #[trigger] v@[k] == rms@[k * n / (width as int)],
        decreases width - i,
    {
        assert(i * n <= (width - 1) * n) by (nonlinear_arith)
            requires
                i < width,
        ;
        assert(i * n / (width as int) < n) by (nonlinear_arith)
            requires
                i < width,
                n > 0,
        ;
        let idx = i * n / width;
        v.push(rms[idx]);
        i = i + 1;
    }
    assert(v@ =~= Seq::new(width as nat, |i: int| rms@[i * rms@.len() / (width as int)]));
    v
}

/// The buffer is shared out evenly: with at least as many samples as
/// buckets, a bucket holds `len / buckets` samples, so all buckets together
/// cover the buffer but for fewer samples than there are buckets; with fewer
/// samples than buckets, a bucket holds one sample.
pub proof fn law_bucket_size_shares_buffer(len: nat, buckets: nat)
    requires
        buckets > 0,
    ensures
        len >= buckets ==> bucket_size(len, buckets) * buckets <= len < (bucket_size(len, buckets)
            + 1) * buckets,
        len >= buckets ==> len - bucket_size(len, buckets) * buckets < buckets,
        len < buckets ==> bucket_size(len, buckets) == 1,
{
    if len >= buckets {
        let q = len / buckets;
        vstd::arithmetic::div_mod::lemma_fundamental_div_mod(len as int, buckets as int);
        assert(q >= 1) by {
            vstd::arithmetic::div_mod::lemma_div_is_ordered(
                buckets as int,
                len as int,
                buckets as int,
            );
            vstd::arithmetic::div_mod::lemma_div_by_self(buckets as int);
        }
        assert(q * buckets <= len < (q + 1) * buckets && len - q * buckets < buckets)
            by (nonlinear_arith)
            requires
                len == buckets * q + len % buckets,
                0 <= len % buckets < buckets,
        ;
    } else {
        vstd::arithmetic::div_mod::lemma_basic_div(len as int, buckets as int);
    }
}

/// The buckets tile the buffer from its start: the first starts at zero,
/// each starts where the one before ended, each whole one holds
/// `bucket_size` samples, and the last one that starts inside the buffer
/// ends at or before its end.
pub proof fn law_buckets_tile(i: int, size: nat, len: nat)
    requires
        0 <= i,
        size >= 1,
        i * size < len,
    ensures
        bucket_range(0, size, len).0 == 0,
        bucket_range(i, size, len).0 == i * size,
        bucket_range(i, size, len).0 < bucket_range(i, size, len).1 <= len,
        (i + 1) * size <= len ==> bucket_range(i, size, len).1 - bucket_range(i, size, len).0
            == size,
        (i + 1) * size < len ==> bucket_range(i + 1, size, len).0 == bucket_range(i, size, len).1,
        (i + 1) * size >= len ==> bucket_range(i, size, len).1 == len,
{
    assert((i + 1) * size == i * size + size) by (nonlinear_arith);
}

/// With at least as many samples as buckets, the overview has exactly
/// `buckets` ranges.
pub proof fn law_bucket_count(len: nat, buckets: nat, n: nat)
    requires
        buckets > 0,
        len >= buckets,
        n <= buckets,
        n == buckets || n * bucket_size(len, buckets) >= len,
    ensures
        n == buckets,
{
    law_bucket_size_shares_buffer(len, buckets);
    let size = bucket_size(len, buckets);
    if n < buckets {
        assert(n * size < buckets * size) by (nonlinear_arith)
            requires
                n < buckets,
                size >= 1,
        ;
        assert(buckets * size == size * buckets) by (nonlinear_arith);
    }
}

} // verus!
