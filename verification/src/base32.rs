//! RFC 4648 base32 (lower-case alphabet, no padding), the multibase `b` encoding.
use vstd::prelude::*;

verus! {

/// The alphabet character for a 5-bit value.
pub open spec fn b32_char(v: u8) -> char {
    if v < 26 {
        (97 + v) as char
    } else {
        (24 + v) as char
    }
}

/// The 5-bit value of an alphabet character.
pub open spec fn b32_value(c: char) -> Option<u8> {
    if 'a' <= c && c <= 'z' {
        Some((c as u32 - 97) as u8)
    } else if '2' <= c && c <= '7' {
        Some((c as u32 - 24) as u8)
    } else {
        None
    }
}

/// Five bytes read as one big-endian 40-bit number.
pub open spec fn block_value(b0: u8, b1: u8, b2: u8, b3: u8, b4: u8) -> u64 {
    ((b0 as u64) << 32u64) | ((b1 as u64) << 24u64) | ((b2 as u64) << 16u64) | ((b3 as u64)
        << 8u64) | (b4 as u64)
}

/// The `i`-th 5-bit group (from the top) of a 40-bit number.
pub open spec fn group(x: u64, i: u64) -> u8 {
    ((x >> (35 - 5 * i) as u64) & 31u64) as u8
}

/// The `i`-th byte (from the top) of a 40-bit number.
pub open spec fn byte_of(x: u64, i: u64) -> u8 {
    ((x >> (32 - 8 * i) as u64) & 255u64) as u8
}

/// Eight 5-bit groups read as one 40-bit number.
pub open spec fn groups_value(g: Seq<u8>) -> u64 {
    ((g[0] as u64) << 35u64) | ((g[1] as u64) << 30u64) | ((g[2] as u64) << 25u64) | ((
    g[3] as u64) << 20u64) | ((g[4] as u64) << 15u64) | ((g[5] as u64) << 10u64) | ((g[6] as u64)
        << 5u64) | (g[7] as u64)
}

/// The first five bytes of `b`, where missing bytes count as zero.
pub open spec fn byte_at(b: Seq<u8>, i: int) -> u8 {
    if 0 <= i < b.len() {
        b[i]
    } else {
        0
    }
}

/// The 40-bit value of the block of `b` that starts at `b[0]`.
pub open spec fn head_value(b: Seq<u8>) -> u64 {
    block_value(byte_at(b, 0), byte_at(b, 1), byte_at(b, 2), byte_at(b, 3), byte_at(b, 4))
}

/// The eight characters of the block starting at `b[0]` (zero-padded).
pub open spec fn encode_head(b: Seq<u8>) -> Seq<char> {
    Seq::new(8, |i: int| b32_char(group(head_value(b), i as u64)))
}

/// Number of characters that encode `r` bytes.
pub open spec fn chars_for(r: nat) -> nat {
    (8 * r + 4) / 5
}

/// Number of bytes that `c` characters of a final block carry.
pub open spec fn bytes_for(c: nat) -> nat {
    (5 * c) / 8
}

/// Base32 encoding of a byte sequence.
pub open spec fn encode(b: Seq<u8>) -> Seq<char>
    decreases b.len(),
{
    if b.len() == 0 {
        Seq::empty()
    } else if b.len() >= 5 {
        encode_head(b) + encode(b.skip(5))
    } else {
        encode_head(b).take(chars_for(b.len()) as int)
    }
}

/// The character at position `i`, where missing characters count as `'a'` (zero).
pub open spec fn char_at(s: Seq<char>, i: int) -> char {
    if 0 <= i < s.len() {
        s[i]
    } else {
        'a'
    }
}

/// The block of (at most) eight characters starting at `s[0]`, decoded to five bytes.
pub open spec fn decode_head(s: Seq<char>) -> Option<Seq<u8>> {
    let vs = Seq::new(8, |i: int| b32_value(char_at(s, i)));
    if forall|i: int| 0 <= i < 8 ==> vs[i] is Some {
        let x = groups_value(Seq::new(8, |i: int| vs[i]->0));
        Some(Seq::new(5, |i: int| byte_of(x, i as u64)))
    } else {
        None
    }
}

/// Whether `c` characters can end a base32 string.
pub open spec fn valid_tail_len(c: nat) -> bool {
    c == 0 || c == 2 || c == 4 || c == 5 || c == 7
}

/// Base32 decoding; `None` for a character outside the alphabet or an impossible length.
pub open spec fn decode(s: Seq<char>) -> Option<Seq<u8>>
    decreases s.len(),
{
    if s.len() == 0 {
        Some(Seq::empty())
    } else if s.len() >= 8 {
        match (decode_head(s), decode(s.skip(8))) {
            (Some(a), Some(r)) => Some(a + r),
            _ => None,
        }
    } else if valid_tail_len(s.len()) {
        match decode_head(s) {
            Some(a) => Some(a.take(bytes_for(s.len()) as int)),
            None => None,
        }
    } else {
        None
    }
}

proof fn lemma_char_value(v: u8)
    requires
        v < 32,
    ensures
        b32_value(b32_char(v)) == Some(v),
{
}

proof fn lemma_block_bits(b0: u8, b1: u8, b2: u8, b3: u8, b4: u8)
    ensures
        ({
            let x = block_value(b0, b1, b2, b3, b4);
            let g = seq![group(x, 0), group(x, 1), group(x, 2), group(x, 3), group(x, 4), group(x, 5), group(x, 6), group(x, 7)];
            let y = groups_value(g);
            &&& byte_of(y, 0) == b0
            &&& byte_of(y, 1) == b1
            &&& byte_of(y, 2) == b2
            &&& byte_of(y, 3) == b3
            &&& byte_of(y, 4) == b4
        }),
{
    let x = block_value(b0, b1, b2, b3, b4);
    let g0 = group(x, 0);
    let g1 = group(x, 1);
    let g2 = group(x, 2);
    let g3 = group(x, 3);
    let g4 = group(x, 4);
    let g5 = group(x, 5);
    let g6 = group(x, 6);
    let g7 = group(x, 7);
    assert(((g0 as u64) << 35u64) | ((g1 as u64) << 30u64) | ((g2 as u64) << 25u64) | ((g3 as u64)
        << 20u64) | ((g4 as u64) << 15u64) | ((g5 as u64) << 10u64) | ((g6 as u64) << 5u64) | (g7 as u64)
        == x) by (bit_vector)
        requires
            x == ((b0 as u64) << 32u64) | ((b1 as u64) << 24u64) | ((b2 as u64) << 16u64) | ((
            b3 as u64) << 8u64) | (b4 as u64),
            g0 == ((x >> 35u64) & 31u64) as u8,
            g1 == ((x >> 30u64) & 31u64) as u8,
            g2 == ((x >> 25u64) & 31u64) as u8,
            g3 == ((x >> 20u64) & 31u64) as u8,
            g4 == ((x >> 15u64) & 31u64) as u8,
            g5 == ((x >> 10u64) & 31u64) as u8,
            g6 == ((x >> 5u64) & 31u64) as u8,
            g7 == ((x >> 0u64) & 31u64) as u8,
    ;
    let g = seq![g0, g1, g2, g3, g4, g5, g6, g7];
    assert(groups_value(g) == x);
    assert(((x >> 32u64) & 255u64) as u8 == b0 && ((x >> 24u64) & 255u64) as u8 == b1 && ((x
        >> 16u64) & 255u64) as u8 == b2 && ((x >> 8u64) & 255u64) as u8 == b3 && ((x >> 0u64)
        & 255u64) as u8 == b4) by (bit_vector)
        requires
            x == ((b0 as u64) << 32u64) | ((b1 as u64) << 24u64) | ((b2 as u64) << 16u64) | ((
            b3 as u64) << 8u64) | (b4 as u64),
    ;
}


proof fn lemma_group_small(x: u64, i: u64)
    ensures
        group(x, i) < 32,
{
    let s = (35 - 5 * i) as u64;
    assert(((x >> s) & 31u64) < 32u64) by (bit_vector);
}

proof fn lemma_tail_groups_zero(b: Seq<u8>)
    requires
        1 <= b.len() <= 4,
    ensures
        forall|i: u64| chars_for(b.len()) <= i < 8 ==> group(head_value(b), i) == 0,
{
    let b0 = byte_at(b, 0);
    let b1 = byte_at(b, 1);
    let b2 = byte_at(b, 2);
    let b3 = byte_at(b, 3);
    let x = head_value(b);
    if b.len() == 1 {
        assert(((x >> 25u64) & 31u64) == 0 && ((x >> 20u64) & 31u64) == 0 && ((x >> 15u64) & 31u64)
            == 0 && ((x >> 10u64) & 31u64) == 0 && ((x >> 5u64) & 31u64) == 0 && ((x >> 0u64)
            & 31u64) == 0) by (bit_vector)
            requires
                x == ((b0 as u64) << 32u64) | ((0u8 as u64) << 24u64) | ((0u8 as u64) << 16u64) | ((
                0u8 as u64) << 8u64) | (0u8 as u64),
        ;
    } else if b.len() == 2 {
        assert(((x >> 15u64) & 31u64) == 0 && ((x >> 10u64) & 31u64) == 0 && ((x >> 5u64) & 31u64)
            == 0 && ((x >> 0u64) & 31u64) == 0) by (bit_vector)
            requires
                x == ((b0 as u64) << 32u64) | ((b1 as u64) << 24u64) | ((0u8 as u64) << 16u64) | ((
                0u8 as u64) << 8u64) | (0u8 as u64),
        ;
    } else if b.len() == 3 {
        assert(((x >> 10u64) & 31u64) == 0 && ((x >> 5u64) & 31u64) == 0 && ((x >> 0u64) & 31u64)
            == 0) by (bit_vector)
            requires
                x == ((b0 as u64) << 32u64) | ((b1 as u64) << 24u64) | ((b2 as u64) << 16u64) | ((
                0u8 as u64) << 8u64) | (0u8 as u64),
        ;
    } else {
        assert(((x >> 0u64) & 31u64) == 0) by (bit_vector)
            requires
                x == ((b0 as u64) << 32u64) | ((b1 as u64) << 24u64) | ((b2 as u64) << 16u64) | ((
                b3 as u64) << 8u64) | (0u8 as u64),
        ;
    }
}

/// Decoding the eight characters of a block gives back its five bytes (zero-padded).
proof fn lemma_head_roundtrip(b: Seq<u8>, s: Seq<char>)
    requires
        forall|i: int| 0 <= i < 8 ==> #[trigger] char_at(s, i) == encode_head(b)[i],
    ensures
        decode_head(s) == Some(Seq::new(5, |i: int| byte_at(b, i))),
{
    let x = head_value(b);
    let vs = Seq::new(8, |i: int| b32_value(char_at(s, i)));
    assert forall|i: int| 0 <= i < 8 implies vs[i] == Some(group(x, i as u64)) by {
        lemma_group_small(x, i as u64);
        lemma_char_value(group(x, i as u64));
        assert(char_at(s, i) == encode_head(b)[i]);
    }
    let gs = Seq::new(8, |i: int| vs[i]->0);
    lemma_block_bits(byte_at(b, 0), byte_at(b, 1), byte_at(b, 2), byte_at(b, 3), byte_at(b, 4));
    let g = seq![group(x, 0), group(x, 1), group(x, 2), group(x, 3), group(x, 4), group(x, 5), group(x, 6), group(x, 7)];
    assert(gs =~= g);
    let y = groups_value(gs);
    assert(Seq::new(5, |i: int| byte_of(y, i as u64)) =~= Seq::new(5, |i: int| byte_at(b, i)));
}

/// Decoding an encoding gives back the bytes.
pub proof fn lemma_decode_encode(b: Seq<u8>)
    ensures
        decode(encode(b)) == Some(b),
    decreases b.len(),
{
    let s = encode(b);
    if b.len() == 0 {
    } else if b.len() >= 5 {
        let h = encode_head(b);
        assert(s.take(8) =~= h);
        assert(s.skip(8) =~= encode(b.skip(5)));
        assert forall|i: int| 0 <= i < 8 implies #[trigger] char_at(s, i) == h[i] by {}
        lemma_head_roundtrip(b, s);
        lemma_decode_encode(b.skip(5));
        assert(Seq::new(5, |i: int| byte_at(b, i)) + b.skip(5) =~= b);
    } else {
        let h = encode_head(b);
        let c = chars_for(b.len());
        lemma_tail_groups_zero(b);
        assert forall|i: int| 0 <= i < 8 implies #[trigger] char_at(s, i) == h[i] by {
            if i >= c {
                assert(group(head_value(b), i as u64) == 0);
            }
        }
        lemma_head_roundtrip(b, s);
        assert(Seq::new(5, |i: int| byte_at(b, i)).take(bytes_for(c) as int) =~= b);
    }
}


fn char_of(v: u8) -> (c: char)
    requires
        v < 32,
    ensures
        c == b32_char(v),
{
    if v < 26 {
        (97 + v) as char
    } else {
        (24 + v) as char
    }
}

fn value_of(c: char) -> (r: Option<u8>)
    ensures
        r == b32_value(c),
{
    if 'a' <= c && c <= 'z' {
        Some((c as u32 - 97) as u8)
    } else if '2' <= c && c <= '7' {
        Some((c as u32 - 24) as u8)
    } else {
        None
    }
}

fn push_head(out: &mut Vec<char>, b: &[u8], at: usize)
    requires
        at <= b@.len(),
    ensures
        final(out)@ == old(out)@ + encode_head(b@.skip(at as int)),
{
    let n = b.len();
    let ghost t = b@.skip(at as int);
    let b0: u8 = if at < n { b[at] } else { 0 };
    let b1: u8 = if n - at > 1 { b[at + 1] } else { 0 };
    let b2: u8 = if n - at > 2 { b[at + 2] } else { 0 };
    let b3: u8 = if n - at > 3 { b[at + 3] } else { 0 };
    let b4: u8 = if n - at > 4 { b[at + 4] } else { 0 };
    assert(b0 == byte_at(t, 0) && b1 == byte_at(t, 1) && b2 == byte_at(t, 2) && b3 == byte_at(t, 3)
        && b4 == byte_at(t, 4));
    let x: u64 = ((b0 as u64) << 32u64) | ((b1 as u64) << 24u64) | ((b2 as u64) << 16u64) | ((
    b3 as u64) << 8u64) | (b4 as u64);
    assert(x == head_value(t));
    let ghost start = out@;
    let mut i: u64 = 0;
    while i < 8
        invariant
            i <= 8,
            x == head_value(t),
            out@ == start + encode_head(t).take(i as int),
        decreases 8 - i,
    {
        proof {
            lemma_group_small(x, i);
        }
        let g: u8 = ((x >> (35 - 5 * i)) & 31u64) as u8;
        out.push(char_of(g));
        assert(encode_head(t).take(i + 1) =~= encode_head(t).take(i as int).push(b32_char(g)));
        i += 1;
    }
    assert(encode_head(t).take(8) =~= encode_head(t));
}

/// Base32 encoding of a byte slice.
pub fn encode_bytes(b: &[u8]) -> (out: Vec<char>)
    ensures
        out@ == encode(b@),
{
    let n = b.len();
    let mut out: Vec<char> = Vec::new();
    let mut at: usize = 0;
    assert(b@.skip(0) =~= b@);
    assert(out@ + encode(b@) =~= encode(b@));
    while n - at >= 5
        invariant
            at <= n,
            n == b@.len(),
            out@ + encode(b@.skip(at as int)) == encode(b@),
        decreases n - at,
    {
        let ghost t = b@.skip(at as int);
        push_head(&mut out, b, at);
        assert(t.skip(5) =~= b@.skip(at + 5));
        at += 5;
    }
    let ghost t = b@.skip(at as int);
    if at < n {
        let ghost start = out@;
        let mut tmp: Vec<char> = Vec::new();
        push_head(&mut tmp, b, at);
        let c: usize = (8 * (n - at) + 4) / 5;
        let mut k: usize = 0;
        while k < c
            invariant
                k <= c,
                c == chars_for(t.len()),
                c <= 8,
                tmp@ == encode_head(t),
                out@ == start + tmp@.take(k as int),
            decreases c - k,
        {
            out.push(tmp[k]);
            assert(tmp@.take(k + 1) =~= tmp@.take(k as int).push(tmp@[k as int]));
            k += 1;
        }
    } else {
        assert(out@ =~= out@ + encode(t));
    }
    out
}

/// Base32 decoding of a character slice; `None` where `decode` is `None`.
pub fn decode_chars(s: &[char]) -> (out: Option<Vec<u8>>)
    ensures
        match decode(s@) {
            Some(b) => out matches Some(v) && v@ == b,
            None => out is None,
        },
{
    let n = s.len();
    let mut out: Vec<u8> = Vec::new();
    let mut at: usize = 0;
    assert(s@.skip(0) =~= s@);
    assert(out@ + decode(s@)->0 =~= decode(s@)->0);
    while at < n
        invariant
            at <= n,
            n == s@.len(),
            decode(s@) == (match decode(s@.skip(at as int)) {
                Some(r) => Some(out@ + r),
                None => None::<Seq<u8>>,
            }),
        decreases n - at,
    {
        let ghost t = s@.skip(at as int);
        let rest = n - at;
        if rest < 8 && !(rest == 2 || rest == 4 || rest == 5 || rest == 7) {
            return None;
        }
        let ghost vs = Seq::new(8, |j: int| b32_value(char_at(t, j)));
        let mut vals: Vec<u8> = Vec::new();
        let mut i: usize = 0;
        while i < 8
            invariant
                i <= 8,
                at < n,
                n == s@.len(),
                t == s@.skip(at as int),
                vs == Seq::new(8, |j: int| b32_value(char_at(t, j))),
                vals@.len() == i,
                forall|j: int| 0 <= j < i ==> vs[j] == Some(#[trigger] vals@[j]),
                rest == n - at,
                rest >= 8 || valid_tail_len(rest as nat),
                decode(s@) == (match decode(s@.skip(at as int)) {
                    Some(r) => Some(out@ + r),
                    None => None::<Seq<u8>>,
                }),
            decreases 8 - i,
        {
            let c = if n - at > i { s[at + i] } else { 'a' };
            assert(c == char_at(t, i as int));
            match value_of(c) {
                None => {
                    proof {
                        assert(!(vs[i as int] is Some));
                        assert(!(forall|j: int| 0 <= j < 8 ==> vs[j] is Some));
                        assert(decode_head(t) is None);
                    }
                    return None;
                },
                Some(v) => {
                    vals.push(v);
                },
            }
            i += 1;
        }
        let ghost gs = Seq::new(8, |j: int| vs[j]->0);
        assert(vals@ =~= gs);
        let x: u64 = ((vals[0] as u64) << 35u64) | ((vals[1] as u64) << 30u64) | ((vals[2] as u64)
            << 25u64) | ((vals[3] as u64) << 20u64) | ((vals[4] as u64) << 15u64) | ((vals[5] as u64)
            << 10u64) | ((vals[6] as u64) << 5u64) | (vals[7] as u64);
        assert(x == groups_value(gs));
        let ghost head = Seq::new(5, |j: int| byte_of(x, j as u64));
        assert(decode_head(t) == Some(head));
        let keep: usize = if rest >= 8 { 5 } else { (5 * rest) / 8 };
        let mut k: usize = 0;
        let ghost start = out@;
        while k < keep
            invariant
                k <= keep <= 5,
                head == Seq::new(5, |j: int| byte_of(x, j as u64)),
                out@ == start + head.take(k as int),
            decreases keep - k,
        {
            let byte: u8 = ((x >> (32 - 8 * k as u64)) & 255u64) as u8;
            out.push(byte);
            assert(head.take(k + 1) =~= head.take(k as int).push(byte));
            k += 1;
        }
        if rest < 8 {
            assert(decode(t) == Some(head.take(keep as int)));
            assert(s@.skip(n as int) =~= Seq::<char>::empty());
            assert(out@ + Seq::<u8>::empty() =~= out@);
            return Some(out);
        }
        assert(head.take(5) =~= head);
        assert(t.skip(8) =~= s@.skip(at + 8));
        assert(start + (head + decode(t.skip(8))->0) =~= out@ + decode(t.skip(8))->0);
        at += 8;
    }
    assert(s@.skip(n as int) =~= Seq::<char>::empty());
    assert(out@ + Seq::<u8>::empty() =~= out@);
    Some(out)
}

} // verus!
