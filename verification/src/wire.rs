//! Primitive wire encodings: big-endian `u16`, length-prefixed strings and
//! string lists. Every writer appends to a byte buffer; every reader walks a
//! byte buffer from a position and returns the value with the next position.
//!
//! A string is encoded as a 2-byte big-endian length followed by that many
//! UTF-8 bytes. The length prefix is the byte length truncated to 16 bits.
//! A reader takes at most the declared length but never fails on a short
//! buffer: it decodes whatever bytes remain (lossily for invalid UTF-8).
use vstd::prelude::*;
use vstd::slice::slice_subrange;
use vstd::utf8::decode_utf8;
use vstd::utf8::encode_utf8;
use vstd::utf8::valid_utf8;

verus! {

/// The characters `String::from_utf8_lossy` yields for a byte sequence.
/// It depends on the bytes alone; on valid UTF-8 it agrees with
/// `decode_utf8` (stated at the one call site, below).
pub uninterp spec fn lossy_decode(bytes: Seq<u8>) -> Seq<char>;

/// The characters obtained by decoding a byte sequence, replacing invalid
/// sequences rather than failing.
pub open spec fn spec_lossy_str(bytes: Seq<u8>) -> Seq<char> {
    if valid_utf8(bytes) {
        decode_utf8(bytes)
    } else {
        lossy_decode(bytes)
    }
}

/// Relies on `String::from_utf8_lossy`: valid UTF-8 decodes to exactly the
/// characters it encodes, and invalid sequences are replaced with
/// U+FFFD, depending on the input bytes alone.
#[verifier::external_body]
fn bytes_to_string_lossy(bytes: &[u8]) -> (r: String)
    ensures
        r@ == lossy_decode(bytes@),
        valid_utf8(bytes@) ==> r@ == decode_utf8(bytes@),
{
    String::from_utf8_lossy(bytes).into_owned()
}

/// The two big-endian bytes of a 16-bit value.
pub open spec fn spec_u16_be(n: u16) -> Seq<u8> {
    seq![(n / 256) as u8, (n % 256) as u8]
}

/// Appends the two big-endian bytes of `n`; returns the number of bytes
/// written.
pub fn write_u16(n: u16, buffer: &mut Vec<u8>) -> (written: usize)
    ensures
        final(buffer)@ == old(buffer)@ + spec_u16_be(n),
        written == 2,
{
    buffer.push((n / 256) as u8);
    buffer.push((n % 256) as u8);
    proof {
        assert(buffer@ =~= old(buffer)@ + spec_u16_be(n));
    }
    2
}

/// The byte at `pos`, with the position after it.
pub open spec fn spec_read_u8(bytes: Seq<u8>, pos: int) -> Option<(u8, int)> {
    if 0 <= pos && pos + 1 <= bytes.len() {
        Some((bytes[pos], pos + 1))
    } else {
        None
    }
}

/// Reads one byte at `pos`.
pub fn read_u8(bytes: &Vec<u8>, pos: usize) -> (r: Option<(u8, usize)>)
    ensures
        match r {
            Some((b, next)) => spec_read_u8(bytes@, pos as int) == Some((b, next as int)),
            None => spec_read_u8(bytes@, pos as int) is None,
        },
{
    if pos < bytes.len() {
        Some((bytes[pos], pos + 1))
    } else {
        None
    }
}

/// The big-endian 16-bit value at `pos`, with the position after it.
pub open spec fn spec_read_u16(bytes: Seq<u8>, pos: int) -> Option<(u16, int)> {
    if 0 <= pos && pos + 2 <= bytes.len() {
        Some(((bytes[pos] as int * 256 + bytes[pos + 1] as int) as u16, pos + 2))
    } else {
        None
    }
}

/// Reads a big-endian `u16` at `pos`.
pub fn read_u16(bytes: &Vec<u8>, pos: usize) -> (r: Option<(u16, usize)>)
    ensures
        match r {
            Some((n, next)) => spec_read_u16(bytes@, pos as int) == Some((n, next as int)),
            None => spec_read_u16(bytes@, pos as int) is None,
        },
{
    if pos < bytes.len() && bytes.len() - pos >= 2 {
        let n: u16 = (bytes[pos] as u16) * 256 + (bytes[pos + 1] as u16);
        Some((n, pos + 2))
    } else {
        None
    }
}

/// The encoding of a string: 2-byte big-endian byte length (truncated to 16
/// bits), then the UTF-8 bytes.
pub open spec fn spec_write_str(s: Seq<char>) -> Seq<u8> {
    spec_u16_be(encode_utf8(s).len() as u16) + encode_utf8(s)
}

/// Appends the length-prefixed UTF-8 encoding of `s`; returns the number of
/// bytes written.
pub fn write_str(s: &str, buffer: &mut Vec<u8>) -> (written: usize)
    ensures
        final(buffer)@ == old(buffer)@ + spec_write_str(s@),
        written == spec_write_str(s@).len(),
{
    let start = buffer.len();
    let bytes = s.as_bytes();
    let len16: u16 = #[verifier::truncate] (bytes.len() as u16);
    write_u16(len16, buffer);
    buffer.extend_from_slice(bytes);
    proof {
        assert(buffer@ =~= old(buffer)@ + spec_write_str(s@));
    }
    buffer.len() - start
}

/// The string at `pos`: its declared length, then at most that many bytes
/// (fewer if the buffer ends sooner), decoded lossily.
pub open spec fn spec_read_str(bytes: Seq<u8>, pos: int) -> Option<(Seq<char>, int)> {
    match spec_read_u16(bytes, pos) {
        None => None,
        Some((n, p)) => {
            let take = if n as int <= bytes.len() - p {
                n as int
            } else {
                bytes.len() - p
            };
            Some((spec_lossy_str(bytes.subrange(p, p + take)), p + take))
        },
    }
}

/// Reads a length-prefixed string at `pos`.
pub fn read_str(bytes: &Vec<u8>, pos: usize) -> (r: Option<(String, usize)>)
    ensures
        match r {
            Some((s, next)) => spec_read_str(bytes@, pos as int) == Some((s@, next as int)),
            None => spec_read_str(bytes@, pos as int) is None,
        },
{
    match read_u16(bytes, pos) {
        None => None,
        Some((n, p)) => {
            let avail = bytes.len() - p;
            let take = if (n as usize) < avail {
                n as usize
            } else {
                avail
            };
            let sub = slice_subrange(bytes.as_slice(), p, p + take);
            let s = bytes_to_string_lossy(sub);
            Some((s, p + take))
        },
    }
}

/// The concatenated encodings of a sequence of strings (no count prefix).
pub open spec fn spec_write_strs(l: Seq<Seq<char>>) -> Seq<u8>
    decreases l.len(),
{
    if l.len() == 0 {
        Seq::empty()
    } else {
        spec_write_str(l[0]) + spec_write_strs(l.drop_first())
    }
}

/// The encoding of a string list: 2-byte big-endian count (truncated to 16
/// bits), then each string length-prefixed.
pub open spec fn spec_write_str_list(l: Seq<Seq<char>>) -> Seq<u8> {
    spec_u16_be(l.len() as u16) + spec_write_strs(l)
}

proof fn lemma_write_strs_snoc(l: Seq<Seq<char>>, x: Seq<char>)
    ensures
        spec_write_strs(l.push(x)) == spec_write_strs(l) + spec_write_str(x),
    decreases l.len(),
{
    if l.len() == 0 {
        assert(l.push(x)[0] == x);
        assert(l.push(x).drop_first() =~= Seq::<Seq<char>>::empty());
        assert(spec_write_strs(l.push(x)) == spec_write_str(x) + spec_write_strs(
            Seq::<Seq<char>>::empty(),
        ));
        assert(spec_write_strs(l.push(x)) =~= spec_write_strs(l) + spec_write_str(x));
    } else {
        assert(l.push(x).drop_first() =~= l.drop_first().push(x));
        lemma_write_strs_snoc(l.drop_first(), x);
        assert(spec_write_strs(l.push(x)) =~= spec_write_strs(l) + spec_write_str(x));
    }
}

/// Appends the count-prefixed encoding of a string list; returns the number
/// of bytes written.
pub fn write_str_list(list: &Vec<String>, buffer: &mut Vec<u8>) -> (written: usize)
    ensures
        final(buffer)@ == old(buffer)@ + spec_write_str_list(list.deep_view()),
        written == spec_write_str_list(list.deep_view()).len(),
{
    let ghost l = list.deep_view();
    let start = buffer.len();
    let count: u16 = #[verifier::truncate] (list.len() as u16);
    proof {
        assert(l.len() == list@.len());
    }
    write_u16(count, buffer);
    let mut i: usize = 0;
    while i < list.len()
        invariant
            i <= list.len(),
            l == list.deep_view(),
            l.len() == list@.len(),
            buffer@ == old(buffer)@ + spec_u16_be(count) + spec_write_strs(l.take(i as int)),
            count == l.len() as u16,
        decreases list.len() - i,
    {
        proof {
            assert(l[i as int] == list@[i as int]@);
        }
        write_str(list[i].as_str(), buffer);
        proof {
            lemma_write_strs_snoc(l.take(i as int), l[i as int]);
            assert(l.take(i as int).push(l[i as int]) =~= l.take(i as int + 1));
        }
        i = i + 1;
    }
    proof {
        assert(l.take(l.len() as int) =~= l);
        assert(buffer@ =~= old(buffer)@ + spec_write_str_list(l));
    }
    buffer.len() - start
}

/// The `count` strings at `pos`, with the position after them.
pub open spec fn spec_read_strs(bytes: Seq<u8>, pos: int, count: int) -> Option<
    (Seq<Seq<char>>, int),
>
    decreases count,
{
    if count <= 0 {
        Some((Seq::empty(), pos))
    } else {
        match spec_read_str(bytes, pos) {
            None => None,
            Some((s, p)) => match spec_read_strs(bytes, p, count - 1) {
                None => None,
                Some((rest, e)) => Some((seq![s] + rest, e)),
            },
        }
    }
}

/// Reads `count` length-prefixed strings at `pos`.
pub fn read_strs(bytes: &Vec<u8>, pos: usize, count: u16) -> (r: Option<(Vec<String>, usize)>)
    ensures
        match r {
            Some((v, next)) => spec_read_strs(bytes@, pos as int, count as int) == Some(
                (v.deep_view(), next as int),
            ),
            None => spec_read_strs(bytes@, pos as int, count as int) is None,
        },
    decreases count,
{
    if count == 0 {
        let v: Vec<String> = Vec::new();
        proof {
            assert(v.deep_view() =~= Seq::<Seq<char>>::empty());
        }
        Some((v, pos))
    } else {
        match read_str(bytes, pos) {
            None => None,
            Some((s, p)) => match read_strs(bytes, p, count - 1) {
                None => None,
                Some((v, e)) => {
                    let ghost rest = v.deep_view();
                    let ghost sv = s@;
                    let mut v = v;
                    v.insert(0, s);
                    proof {
                        assert(v.deep_view() =~= seq![sv] + rest);
                    }
                    Some((v, e))
                },
            },
        }
    }
}

/// Reads a count-prefixed string list at `pos`.
pub fn read_str_list(bytes: &Vec<u8>, pos: usize) -> (r: Option<(Vec<String>, usize)>)
    ensures
        match r {
            Some((v, next)) => spec_read_str_list(bytes@, pos as int) == Some(
                (v.deep_view(), next as int),
            ),
            None => spec_read_str_list(bytes@, pos as int) is None,
        },
{
    match read_u16(bytes, pos) {
        None => None,
        Some((count, p)) => read_strs(bytes, p, count),
    }
}

/// The count-prefixed string list at `pos`, with the position after it.
pub open spec fn spec_read_str_list(bytes: Seq<u8>, pos: int) -> Option<(Seq<Seq<char>>, int)> {
    match spec_read_u16(bytes, pos) {
        None => None,
        Some((count, p)) => spec_read_strs(bytes, p, count as int),
    }
}

/// Reading a 16-bit value back from its own encoding, at any position,
/// yields the value written.
pub proof fn lemma_read_u16_round(prefix: Seq<u8>, n: u16, suffix: Seq<u8>)
    ensures
        spec_read_u16(prefix + spec_u16_be(n) + suffix, prefix.len() as int) == Some(
            (n, prefix.len() as int + 2),
        ),
{
    let bytes = prefix + spec_u16_be(n) + suffix;
    let pos = prefix.len() as int;
    assert(bytes[pos] == (n / 256) as u8);
    assert(bytes[pos + 1] == (n % 256) as u8);
    assert((n / 256) as u8 as int * 256 + (n % 256) as u8 as int == n as int);
}

/// Reading a string back from its own encoding, at any position, yields the
/// characters written, provided their UTF-8 form fits the 16-bit length.
pub proof fn lemma_read_str_round(prefix: Seq<u8>, s: Seq<char>, suffix: Seq<u8>)
    requires
        encode_utf8(s).len() <= 0xFFFF,
    ensures
        spec_read_str(prefix + spec_write_str(s) + suffix, prefix.len() as int) == Some(
            (s, prefix.len() as int + spec_write_str(s).len()),
        ),
{
    broadcast use vstd::utf8::encode_utf8_valid_utf8;
    broadcast use vstd::utf8::encode_utf8_decode_utf8;

    let eb = encode_utf8(s);
    let n = eb.len() as u16;
    let bytes = prefix + spec_write_str(s) + suffix;
    assert(bytes =~= prefix + spec_u16_be(n) + (eb + suffix));
    lemma_read_u16_round(prefix, n, eb + suffix);
    let p = prefix.len() as int + 2;
    assert(n as int == eb.len());
    assert(bytes.len() - p == eb.len() + suffix.len());
    assert(bytes.subrange(p, p + eb.len()) =~= eb);
    assert(spec_lossy_str(eb) == s);
}

/// Reading a sequence of strings back from its own encoding yields the
/// strings written, provided each fits the 16-bit length.
pub proof fn lemma_read_strs_round(prefix: Seq<u8>, l: Seq<Seq<char>>, suffix: Seq<u8>)
    requires
        forall|i: int| 0 <= i < l.len() ==> encode_utf8(#[trigger] l[i]).len() <= 0xFFFF,
    ensures
        spec_read_strs(prefix + spec_write_strs(l) + suffix, prefix.len() as int, l.len() as int)
            == Some((l, prefix.len() as int + spec_write_strs(l).len())),
    decreases l.len(),
{
    let bytes = prefix + spec_write_strs(l) + suffix;
    if l.len() == 0 {
        assert(spec_write_strs(l) =~= Seq::<u8>::empty());
        assert(spec_read_strs(bytes, prefix.len() as int, 0) == Some(
            (Seq::<Seq<char>>::empty(), prefix.len() as int),
        ));
        assert(l =~= Seq::<Seq<char>>::empty());
    } else {
        let first = l[0];
        let rest = l.drop_first();
        assert(bytes =~= prefix + spec_write_str(first) + (spec_write_strs(rest) + suffix));
        lemma_read_str_round(prefix, first, spec_write_strs(rest) + suffix);
        let p2 = prefix.len() + spec_write_str(first).len();
        assert(bytes =~= (prefix + spec_write_str(first)) + spec_write_strs(rest) + suffix);
        lemma_read_strs_round(prefix + spec_write_str(first), rest, suffix);
        assert(seq![first] + rest =~= l);
    }
}

} // verus!
