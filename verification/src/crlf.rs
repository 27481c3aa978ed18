//! Line endings for the serial console: every `\n` goes out as `\r\n`.

use vstd::prelude::*;

verus! {

/// Number of `\n` bytes in `s`.
pub open spec fn newline_count(s: Seq<u8>) -> nat
    decreases s.len(),
{
    if s.len() == 0 {
        0
    } else {
        newline_count(s.drop_last()) + if s.last() == 10 {
            1nat
        } else {
            0nat
        }
    }
}

/// `s` with a `\r` put before every `\n`.
pub open spec fn crlf(s: Seq<u8>) -> Seq<u8>
    decreases s.len(),
{
    if s.len() == 0 {
        Seq::empty()
    } else {
        crlf(s.drop_last()) + if s.last() == 10 {
            seq![13u8, 10u8]
        } else {
            seq![s.last()]
        }
    }
}

/// `t` with every `\r\n` turned back into `\n`, read from the end.
pub open spec fn strip_crlf(t: Seq<u8>) -> Seq<u8>
    decreases t.len(),
{
    if t.len() == 0 {
        Seq::empty()
    } else if t.len() >= 2 && t.last() == 10 && t[t.len() - 2] == 13 {
        strip_crlf(t.subrange(0, t.len() - 2)).push(10)
    } else {
        strip_crlf(t.drop_last()).push(t.last())
    }
}

/// The converted text is one byte longer for each `\n`.
pub proof fn lemma_crlf_len(s: Seq<u8>)
    ensures
        crlf(s).len() == s.len() + newline_count(s),
    decreases s.len(),
{
    if s.len() > 0 {
        lemma_crlf_len(s.drop_last());
    }
}

/// Turning `\r\n` back into `\n` gives back the text before the conversion.
pub proof fn lemma_strip_crlf_undoes_crlf(s: Seq<u8>)
    ensures
        strip_crlf(crlf(s)) == s,
    decreases s.len(),
{
    if s.len() > 0 {
        let prev = crlf(s.drop_last());
        lemma_strip_crlf_undoes_crlf(s.drop_last());
        if s.last() == 10 {
            let t = prev + seq![13u8, 10u8];
            assert(t.subrange(0, t.len() - 2) =~= prev);
        } else {
            let t = prev + seq![s.last()];
            assert(t.drop_last() =~= prev);
        }
        assert(s.drop_last().push(s.last()) =~= s);
    }
}

/// Number of bytes that `s` takes on the console.
pub fn crlf_len(s: &[u8]) -> (r: usize)
    requires
        s@.len() + newline_count(s@) <= usize::MAX,
    ensures
        r == s@.len() + newline_count(s@),
{
    let mut count: usize = 0;
    let mut i: usize = 0;
    while i < s.len()
        invariant
            i <= s@.len(),
            s@.len() + newline_count(s@) <= usize::MAX,
            count == newline_count(s@.subrange(0, i as int)),
        decreases s@.len() - i,
    {
        proof {
            let p = s@.subrange(0, i + 1);
            assert(p.drop_last() =~= s@.subrange(0, i as int));
            lemma_count_prefix_bounded(s@, i + 1);
        }
        if s[i] == 10 {
            count += 1;
        }
        i += 1;
    }
    assert(s@.subrange(0, s@.len() as int) =~= s@);
    count + s.len()
}

proof fn lemma_count_prefix_bounded(s: Seq<u8>, k: int)
    requires
        0 <= k <= s.len(),
    ensures
        newline_count(s.subrange(0, k)) <= newline_count(s),
    decreases s.len() - k,
{
    if k < s.len() {
        lemma_count_prefix_bounded(s, k + 1);
        let p = s.subrange(0, k + 1);
        assert(p.drop_last() =~= s.subrange(0, k));
    } else {
        assert(s.subrange(0, k) =~= s);
    }
}

/// Writes `s` with a `\r` before every `\n` to the start of `buf` and returns the number of
/// bytes written. The rest of `buf` keeps its bytes.
pub fn write_crlf(s: &[u8], buf: &mut [u8]) -> (r: usize)
    requires
        s@.len() + newline_count(s@) <= old(buf)@.len(),
    ensures
        r == s@.len() + newline_count(s@),
        final(buf)@.len() == old(buf)@.len(),
        final(buf)@.subrange(0, r as int) == crlf(s@),
        final(buf)@.subrange(r as int, final(buf)@.len() as int) == old(buf)@.subrange(
            r as int,
            old(buf)@.len() as int,
        ),
{
    let ghost orig = buf@;
    let mut i: usize = 0;
    let mut pos: usize = 0;
    while i < s.len()
        invariant
            i <= s@.len(),
            s@.len() + newline_count(s@) <= orig.len(),
            buf@.len() == orig.len(),
            pos == i + newline_count(s@.subrange(0, i as int)),
            buf@.subrange(0, pos as int) == crlf(s@.subrange(0, i as int)),
            forall|k: int| pos <= k < orig.len() ==> buf@[k] == orig[k],
        decreases s@.len() - i,
    {
        let ghost prefix = s@.subrange(0, i + 1);
        proof {
            assert(prefix.drop_last() =~= s@.subrange(0, i as int));
            lemma_count_prefix_bounded(s@, i + 1);
            lemma_crlf_len(s@.subrange(0, i as int));
        }
        let ghost before = buf@;
        let b = s[i];
        if b == 10 {
            buf[pos] = 13;
            pos += 1;
        }
        buf[pos] = b;
        pos += 1;
        assert(buf@.subrange(0, pos as int) =~= crlf(prefix));
        i += 1;
    }
    assert(s@.subrange(0, s@.len() as int) =~= s@);
    assert(buf@.subrange(pos as int, buf@.len() as int) =~= orig.subrange(pos as int, orig.len() as int));
    pos
}

} // verus!
