//! Rendering of bytes as decimal numbers and as lowercase hexadecimal.
use vstd::prelude::*;

verus! {

/// The sixteen digit characters, in order of value.
pub open spec fn digit_chars() -> Seq<char> {
    seq!['0', '1', '2', '3', '4', '5', '6', '7', '8', '9', 'a', 'b', 'c', 'd', 'e', 'f']
}

/// The character of a digit value below sixteen.
pub open spec fn digit_char(d: nat) -> char
    recommends
        d < 16,
{
    digit_chars()[d as int]
}

/// The decimal representation of `n`, without leading zeros.
pub open spec fn decimal(n: nat) -> Seq<char>
    decreases n,
{
    if n < 10 {
        seq![digit_char(n)]
    } else {
        decimal(n / 10).push(digit_char(n % 10))
    }
}

/// A byte as exactly two lowercase hexadecimal digits.
pub open spec fn hex_byte(b: u8) -> Seq<char> {
    seq![digit_char(b as nat / 16), digit_char(b as nat % 16)]
}

/// Every byte of `s` as two hexadecimal digits, concatenated without separator.
pub open spec fn hex_dump(s: Seq<u8>) -> Seq<char>
    decreases s.len(),
{
    if s.len() == 0 {
        Seq::empty()
    } else {
        hex_dump(s.drop_last()) + hex_byte(s.last())
    }
}

/// The one-character string of a digit value.
fn digit_str(d: u8) -> (r: &'static str)
    requires
        d < 16,
    ensures
        r@ == seq![digit_char(d as nat)],
{
    proof {
        reveal_strlit("0");
        reveal_strlit("1");
        reveal_strlit("2");
        reveal_strlit("3");
        reveal_strlit("4");
        reveal_strlit("5");
        reveal_strlit("6");
        reveal_strlit("7");
        reveal_strlit("8");
        reveal_strlit("9");
        reveal_strlit("a");
        reveal_strlit("b");
        reveal_strlit("c");
        reveal_strlit("d");
        reveal_strlit("e");
        reveal_strlit("f");
    }
    match d {
        0 => "0",
        1 => "1",
        2 => "2",
        3 => "3",
        4 => "4",
        5 => "5",
        6 => "6",
        7 => "7",
        8 => "8",
        9 => "9",
        10 => "a",
        11 => "b",
        12 => "c",
        13 => "d",
        14 => "e",
        _ => "f",
    }
}

/// Appends the decimal representation of `n` to `out`.
pub fn push_decimal(out: &mut String, n: u8)
    ensures
        final(out)@ == old(out)@ + decimal(n as nat),
{
    let ghost start = out@;
    let ghost k = n as nat;
    if n >= 100 {
        out.append(digit_str(n / 100));
    }
    if n >= 10 {
        out.append(digit_str((n / 10) % 10));
    }
    let ghost before_last = out@;
    out.append(digit_str(n % 10));
    proof {
        if k >= 100 {
            assert(k / 10 / 10 == k / 100);
            assert(decimal(k / 10 / 10) == seq![digit_char(k / 100)]);
            assert(before_last =~= start + decimal(k / 10));
        } else if k >= 10 {
            assert(decimal(k / 10) == seq![digit_char(k / 10)]);
            assert(before_last =~= start + decimal(k / 10));
        }
        assert(out@ =~= start + decimal(k));
    }
}

/// Appends two lowercase hexadecimal digits for each byte of `bytes` to `out`.
pub fn push_hex(out: &mut String, bytes: &[u8])
    ensures
        final(out)@ == old(out)@ + hex_dump(bytes@),
{
    let ghost start = out@;
    let mut i: usize = 0;
    while i < bytes.len()
        invariant
            i <= bytes@.len(),
            out@ == start + hex_dump(bytes@.subrange(0, i as int)),
        decreases bytes@.len() - i,
    {
        let b = bytes[i];
        out.append(digit_str(b / 16));
        out.append(digit_str(b % 16));
        proof {
            let next = bytes@.subrange(0, i + 1);
            assert(next.drop_last() =~= bytes@.subrange(0, i as int));
            assert(next.last() == b);
            assert(out@ =~= start + hex_dump(next));
        }
        i = i + 1;
    }
    assert(bytes@.subrange(0, bytes@.len() as int) =~= bytes@);
}

/// No character of `s` is a newline.
pub open spec fn has_no_newline(s: Seq<char>) -> bool {
    forall|i: int| 0 <= i < s.len() ==> s[i] != '\n'
}

/// No digit character is a newline.
pub proof fn lemma_digit_not_newline(d: nat)
    requires
        d < 16,
    ensures
        digit_char(d) != '\n',
{
    let ds = digit_chars();
    assert(ds[0] != '\n' && ds[1] != '\n' && ds[2] != '\n' && ds[3] != '\n');
    assert(ds[4] != '\n' && ds[5] != '\n' && ds[6] != '\n' && ds[7] != '\n');
    assert(ds[8] != '\n' && ds[9] != '\n' && ds[10] != '\n' && ds[11] != '\n');
    assert(ds[12] != '\n' && ds[13] != '\n' && ds[14] != '\n' && ds[15] != '\n');
}

/// A decimal representation holds no newline.
pub proof fn lemma_decimal_no_newline(n: nat)
    ensures
        has_no_newline(decimal(n)),
    decreases n,
{
    if n < 10 {
        lemma_digit_not_newline(n);
    } else {
        lemma_decimal_no_newline(n / 10);
        lemma_digit_not_newline(n % 10);
    }
}

/// A hexadecimal dump holds no newline.
pub proof fn lemma_hex_dump_no_newline(s: Seq<u8>)
    ensures
        has_no_newline(hex_dump(s)),
    decreases s.len(),
{
    if s.len() > 0 {
        lemma_hex_dump_no_newline(s.drop_last());
        lemma_digit_not_newline(s.last() as nat / 16);
        lemma_digit_not_newline(s.last() as nat % 16);
    }
}

} // verus!
