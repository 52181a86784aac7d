use vstd::prelude::*;

verus! {

/// One atomic timing unit of a Morse transmission.
#[derive(Clone, Copy, Debug, PartialEq, Eq, Structural)]
pub enum MorseCode {
    EndOfChar,
    Dot,
    Space,
    Dash,
}

/// An ASCII letter of either case (`a`..=`z` is 97..=122, `A`..=`Z` is 65..=90).
pub open spec fn is_letter(b: u8) -> bool {
    (97u8 <= b <= 122u8) || (65u8 <= b <= 90u8)
}

/// The lower-case form of an ASCII letter; other bytes are left alone.
pub open spec fn to_lower(b: u8) -> u8 {
    if 65u8 <= b <= 90u8 {
        (b + 32) as u8
    } else {
        b
    }
}

/// The dots and dashes of a lower-case letter, left to right.
pub open spec fn letter_pattern(l: u8) -> Seq<MorseCode> {
    let o = MorseCode::Dot;
    let a = MorseCode::Dash;
    if l == 97u8 { seq![o, a] }  // 'a'
    else if l == 98u8 { seq![a, o, o, o] }  // 'b'
    else if l == 99u8 { seq![a, o, a, o] }  // 'c'
    else if l == 100u8 { seq![a, o, o] }  // 'd'
    else if l == 101u8 { seq![o] }  // 'e'
    else if l == 102u8 { seq![o, o, a, o] }  // 'f'
    else if l == 103u8 { seq![a, a, o] }  // 'g'
    else if l == 104u8 { seq![o, o, o, o] }  // 'h'
    else if l == 105u8 { seq![o, o] }  // 'i'
    else if l == 106u8 { seq![o, a, a, a] }  // 'j'
    else if l == 107u8 { seq![a, o, a] }  // 'k'
    else if l == 108u8 { seq![o, a, o, o] }  // 'l'
    else if l == 109u8 { seq![a, a] }  // 'm'
    else if l == 110u8 { seq![a, o] }  // 'n'
    else if l == 111u8 { seq![a, a, a] }  // 'o'
    else if l == 112u8 { seq![o, a, a, o] }  // 'p'
    else if l == 113u8 { seq![a, a, o, a] }  // 'q'
    else if l == 114u8 { seq![o, a, o] }  // 'r'
    else if l == 115u8 { seq![o, o, o] }  // 's'
    else if l == 116u8 { seq![a] }  // 't'
    else if l == 117u8 { seq![o, o, a] }  // 'u'
    else if l == 118u8 { seq![o, o, o, a] }  // 'v'
    else if l == 119u8 { seq![o, a, a] }  // 'w'
    else if l == 120u8 { seq![a, o, o, a] }  // 'x'
    else if l == 121u8 { seq![a, o, a, a] }  // 'y'
    else { seq![a, a, o, o] }
}

/// The symbols of one input byte: a letter is its pattern closed by one
/// `EndOfChar`, a space is one `Space`, and anything else is dropped.
pub open spec fn encode_byte(b: u8) -> Seq<MorseCode> {
    if is_letter(b) {
        letter_pattern(to_lower(b)).push(MorseCode::EndOfChar)
    } else if b == 32u8 {  // ' '
        seq![MorseCode::Space]
    } else {
        seq![]
    }
}

/// The symbols of a whole message: the per-byte encodings, in order.
pub open spec fn encode_bytes(s: Seq<u8>) -> Seq<MorseCode>
    decreases s.len(),
{
    if s.len() == 0 {
        seq![]
    } else {
        encode_bytes(s.drop_last()) + encode_byte(s.last())
    }
}

/// Encodes one byte into its Morse symbols.
pub fn encode(c: u8) -> (r: Vec<MorseCode>)
    ensures
        r@ == encode_byte(c),
{
    let o = MorseCode::Dot;
    let a = MorseCode::Dash;
    let e = MorseCode::EndOfChar;
    let l: u8 = if 65u8 <= c && c <= 90u8 { c + 32 } else { c };
    let r = match l {
        97u8 => vec![o, a, e],  // 'a'
        98u8 => vec![a, o, o, o, e],  // 'b'
        99u8 => vec![a, o, a, o, e],  // 'c'
        100u8 => vec![a, o, o, e],  // 'd'
        101u8 => vec![o, e],  // 'e'
        102u8 => vec![o, o, a, o, e],  // 'f'
        103u8 => vec![a, a, o, e],  // 'g'
        104u8 => vec![o, o, o, o, e],  // 'h'
        105u8 => vec![o, o, e],  // 'i'
        106u8 => vec![o, a, a, a, e],  // 'j'
        107u8 => vec![a, o, a, e],  // 'k'
        108u8 => vec![o, a, o, o, e],  // 'l'
        109u8 => vec![a, a, e],  // 'm'
        110u8 => vec![a, o, e],  // 'n'
        111u8 => vec![a, a, a, e],  // 'o'
        112u8 => vec![o, a, a, o, e],  // 'p'
        113u8 => vec![a, a, o, a, e],  // 'q'
        114u8 => vec![o, a, o, e],  // 'r'
        115u8 => vec![o, o, o, e],  // 's'
        116u8 => vec![a, e],  // 't'
        117u8 => vec![o, o, a, e],  // 'u'
        118u8 => vec![o, o, o, a, e],  // 'v'
        119u8 => vec![o, a, a, e],  // 'w'
        120u8 => vec![a, o, o, a, e],  // 'x'
        121u8 => vec![a, o, a, a, e],  // 'y'
        122u8 => vec![a, a, o, o, e],  // 'z'
        32u8 => vec![MorseCode::Space],  // ' '
        _ => Vec::new(),
    };
    proof {
        assert(r@ =~= encode_byte(c));
    }
    r
}

/// Encodes a whole message, byte by byte.
pub fn encode_message(s: &[u8]) -> (r: Vec<MorseCode>)
    ensures
        r@ == encode_bytes(s@),
{
    let mut r: Vec<MorseCode> = Vec::new();
    let mut i: usize = 0;
    while i < s.len()
        invariant
            i <= s@.len(),
            r@ == encode_bytes(s@.take(i as int)),
        decreases s@.len() - i,
    {
        let codes = encode(s[i]);
        let mut j: usize = 0;
        while j < codes.len()
            invariant
                i < s@.len(),
                j <= codes@.len(),
                codes@ == encode_byte(s@[i as int]),
                r@ == encode_bytes(s@.take(i as int)) + codes@.take(j as int),
            decreases codes@.len() - j,
        {
            r.push(codes[j]);
            proof {
                assert(codes@.take(j as int).push(codes@[j as int]) =~= codes@.take(j + 1));
            }
            j = j + 1;
        }
        proof {
            assert(s@.take(i + 1).drop_last() =~= s@.take(i as int));
            assert(codes@.take(j as int) =~= codes@);
        }
        i = i + 1;
    }
    proof {
        assert(s@.take(i as int) =~= s@);
    }
    r
}

/// Encoding is a concatenation: a message made of two parts encodes to the
/// encoding of the first part followed by that of the second.
pub proof fn lemma_encode_concat(a: Seq<u8>, b: Seq<u8>)
    ensures
        encode_bytes(a + b) == encode_bytes(a) + encode_bytes(b),
    decreases b.len(),
{
    if b.len() == 0 {
        assert(a + b =~= a);
        assert(encode_bytes(a) + encode_bytes(b) =~= encode_bytes(a));
    } else {
        assert((a + b).drop_last() =~= a + b.drop_last());
        assert((a + b).last() == b.last());
        lemma_encode_concat(a, b.drop_last());
        assert(encode_bytes(a) + encode_bytes(b.drop_last()) + encode_byte(b.last())
            =~= encode_bytes(a) + (encode_bytes(b.drop_last()) + encode_byte(b.last())));
    }
}

/// The encoding of a letter ends with `EndOfChar`, and that is the only
/// `EndOfChar` in it.
pub proof fn lemma_letter_run(b: u8)
    requires
        is_letter(b),
    ensures
        encode_byte(b).len() >= 2,
        encode_byte(b).last() == MorseCode::EndOfChar,
        forall|k: int| 0 <= k < encode_byte(b).len() - 1 ==> encode_byte(b)[k] != MorseCode::EndOfChar,
{
    let l = to_lower(b);
    assert(97u8 <= l <= 122u8);
    let p = letter_pattern(l);
    assert(p.len() >= 1 && forall|k: int| 0 <= k < p.len() ==> p[k] != MorseCode::EndOfChar);
}

/// In the encoding of any message, the symbols of each letter stand together
/// where that letter stands, and they end with exactly one `EndOfChar`: the
/// last symbol of the run.
pub proof fn lemma_letter_runs_closed(s: Seq<u8>, i: int)
    requires
        0 <= i < s.len(),
        is_letter(s[i]),
    ensures
        ({
            let start = encode_bytes(s.take(i)).len() as int;
            let run = encode_byte(s[i]);
            &&& encode_bytes(s).subrange(start, start + run.len()) == run
            &&& run.last() == MorseCode::EndOfChar
            &&& forall|k: int| 0 <= k < run.len() - 1 ==> run[k] != MorseCode::EndOfChar
        }),
{
    lemma_letter_run(s[i]);
    let front = s.take(i);
    let back = s.subrange(i + 1, s.len() as int);
    assert(s =~= front + seq![s[i]] + back);
    lemma_encode_concat(front + seq![s[i]], back);
    lemma_encode_concat(front, seq![s[i]]);
    let single = seq![s[i]];
    assert(single.drop_last() =~= Seq::<u8>::empty());
    assert(encode_bytes(single.drop_last()) =~= Seq::<MorseCode>::empty());
    assert(encode_bytes(single) =~= encode_byte(s[i]));
    let start = encode_bytes(front).len() as int;
    let run = encode_byte(s[i]);
    assert(encode_bytes(s).subrange(start, start + run.len()) =~= run);
}

} // verus!
