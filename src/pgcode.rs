//! The text escaping of PostgreSQL's `COPY ... FROM STDIN` format: a backslash
//! and the tab, newline and carriage-return bytes are written as two-byte
//! backslash escapes, so that a field never holds a raw separator.
use vstd::prelude::*;

verus! {

/// The bytes that stand for one input byte.
pub open spec fn escape_byte(b: u8) -> Seq<u8> {
    if b == 92 {
        seq![92u8, 92u8]
    } else if b == 9 {
        seq![92u8, 116u8]
    } else if b == 10 {
        seq![92u8, 110u8]
    } else if b == 13 {
        seq![92u8, 114u8]
    } else {
        seq![b]
    }
}

/// The escaped form of a byte string.
pub open spec fn pg_encoded(s: Seq<u8>) -> Seq<u8>
    decreases s.len(),
{
    if s.len() == 0 {
        seq![]
    } else {
        escape_byte(s[0]) + pg_encoded(s.drop_first())
    }
}

/// The byte that the escape `\c` stands for.
pub open spec fn unescape(c: u8) -> u8 {
    if c == 116 {
        9
    } else if c == 110 {
        10
    } else if c == 114 {
        13
    } else {
        c
    }
}

/// Read an escaped byte string back.
pub open spec fn pg_decoded(t: Seq<u8>) -> Seq<u8>
    decreases t.len(),
{
    if t.len() == 0 {
        seq![]
    } else if t[0] == 92 && t.len() >= 2 {
        seq![unescape(t[1])] + pg_decoded(t.skip(2))
    } else {
        seq![t[0]] + pg_decoded(t.skip(1))
    }
}

/// Escaping appends: the escape of `s` followed by one byte is the escape of
/// `s` followed by that byte's escape.
proof fn lemma_encoded_push(s: Seq<u8>, b: u8)
    ensures
        pg_encoded(s.push(b)) == pg_encoded(s) + escape_byte(b),
    decreases s.len(),
{
    if s.len() == 0 {
        assert(s.push(b).drop_first() =~= Seq::<u8>::empty());
        assert(pg_encoded(s.push(b)) =~= escape_byte(b) + pg_encoded(Seq::<u8>::empty()));
    } else {
        assert(s.push(b).drop_first() =~= s.drop_first().push(b));
        lemma_encoded_push(s.drop_first(), b);
        assert(pg_encoded(s.push(b)) =~= escape_byte(s[0]) + (pg_encoded(s.drop_first())
            + escape_byte(b)));
    }
}

/// Decoding undoes encoding, so the encoding loses nothing: two byte strings
/// with the same escaped form are equal.
pub proof fn lemma_pg_encoding_reversible(s: Seq<u8>)
    ensures
        pg_decoded(pg_encoded(s)) == s,
    decreases s.len(),
{
    if s.len() > 0 {
        lemma_pg_encoding_reversible(s.drop_first());
        let e = escape_byte(s[0]);
        let t = e + pg_encoded(s.drop_first());
        if e.len() == 2 {
            assert(t.skip(2) =~= pg_encoded(s.drop_first()));
        } else {
            assert(t.skip(1) =~= pg_encoded(s.drop_first()));
        }
        assert(pg_decoded(t) =~= s);
    }
}

/// An escaped byte string holds no raw tab, newline or carriage return.
pub proof fn lemma_pg_encoded_has_no_separators(s: Seq<u8>)
    ensures
        forall|i: int|
            0 <= i < pg_encoded(s).len() ==> #[trigger] pg_encoded(s)[i] != 9 && pg_encoded(s)[i]
                != 10 && pg_encoded(s)[i] != 13,
    decreases s.len(),
{
    if s.len() > 0 {
        lemma_pg_encoded_has_no_separators(s.drop_first());
        let e = escape_byte(s[0]);
        let rest = pg_encoded(s.drop_first());
        assert forall|i: int| 0 <= i < (e + rest).len() implies #[trigger] (e + rest)[i] != 9 && (e
            + rest)[i] != 10 && (e + rest)[i] != 13 by {
            if i >= e.len() {
                assert((e + rest)[i] == rest[i - e.len()]);
            }
        }
    }
}

/// Append the escaped form of `buf` to `out`.
pub fn write_pgencoded(out: &mut Vec<u8>, buf: &[u8])
    ensures
        final(out)@ == old(out)@ + pg_encoded(buf@),
{
    let ghost start = out@;
    for i in 0..buf.len()
        invariant
            out@ == start + pg_encoded(buf@.take(i as int)),
    {
        let b = buf[i];
        proof {
            assert(buf@.take(i + 1) =~= buf@.take(i as int).push(b));
            lemma_encoded_push(buf@.take(i as int), b);
        }
        if b == 92u8 {
            out.push(92u8);
            out.push(92u8);
        } else if b == 9u8 {
            out.push(92u8);
            out.push(116u8);
        } else if b == 10u8 {
            out.push(92u8);
            out.push(110u8);
        } else if b == 13u8 {
            out.push(92u8);
            out.push(114u8);
        } else {
            out.push(b);
        }
        assert(out@ =~= start + pg_encoded(buf@.take(i + 1)));
    }
    assert(buf@.take(buf@.len() as int) =~= buf@);
}

} // verus!
