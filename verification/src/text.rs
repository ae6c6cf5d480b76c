//! Rendering numbers as text.
use vstd::prelude::*;
use vstd::string::*;

verus! {

/// The character of the digit `d` in bases up to sixteen, letters in lower case.
pub open spec fn digit_char(d: nat) -> char {
    if d == 0 {
        '0'
    } else if d == 1 {
        '1'
    } else if d == 2 {
        '2'
    } else if d == 3 {
        '3'
    } else if d == 4 {
        '4'
    } else if d == 5 {
        '5'
    } else if d == 6 {
        '6'
    } else if d == 7 {
        '7'
    } else if d == 8 {
        '8'
    } else if d == 9 {
        '9'
    } else if d == 10 {
        'a'
    } else if d == 11 {
        'b'
    } else if d == 12 {
        'c'
    } else if d == 13 {
        'd'
    } else if d == 14 {
        'e'
    } else {
        'f'
    }
}

/// The decimal numeral of `n`, without leading zeros.
pub open spec fn decimal(n: nat) -> Seq<char>
    decreases n,
{
    if n < 10 {
        seq![digit_char(n)]
    } else {
        decimal(n / 10).push(digit_char(n % 10))
    }
}

/// The numeral of `word` in base sixteen: `0x` and four digits in lower case.
pub open spec fn hex_word(word: u16) -> Seq<char> {
    seq![
        '0',
        'x',
        digit_char((word as nat / 4096) % 16),
        digit_char((word as nat / 256) % 16),
        digit_char((word as nat / 16) % 16),
        digit_char(word as nat % 16),
    ]
}

/// The numeral of `n` in base sixteen, without leading zeros and with its
/// letters in lower case.
pub open spec fn hexadecimal(n: nat) -> Seq<char>
    decreases n,
{
    if n < 16 {
        seq![digit_char(n)]
    } else {
        hexadecimal(n / 16).push(digit_char(n % 16))
    }
}

/// The character of the bit `i` of `word`, counted from the lowest.
pub open spec fn bit_char(word: u16, i: u16) -> char {
    if (word >> i) & 1 == 1 {
        '1'
    } else {
        '0'
    }
}

/// The numeral of `word` in base two: `0b` and sixteen digits, the highest
/// bit first.
pub open spec fn binary_word(word: u16) -> Seq<char> {
    seq!['0', 'b'] + Seq::new(16, |i: int| bit_char(word, (15 - i) as u16))
}

/// The one-character text of the digit `d`.
fn digit_text(d: u8) -> (text: &'static str)
    requires
        d < 16,
    ensures
        text@ == seq![digit_char(d as nat)],
{
    proof {
        reveal_strlit("0");
        reveal_strlit("1");
        reveal_strlit("2");
        reveal_strlit("3");
        reveal_strlit("4");
        reveal_strlit("5");
        reveal_strlit("6");
        reveal_strlit("7");
        reveal_strlit("8");
        reveal_strlit("9");
        reveal_strlit("a");
        reveal_strlit("b");
        reveal_strlit("c");
        reveal_strlit("d");
        reveal_strlit("e");
        reveal_strlit("f");
    }
    let text = match d {
        0 => "0",
        1 => "1",
        2 => "2",
        3 => "3",
        4 => "4",
        5 => "5",
        6 => "6",
        7 => "7",
        8 => "8",
        9 => "9",
        10 => "a",
        11 => "b",
        12 => "c",
        13 => "d",
        14 => "e",
        _ => "f",
    };
    assert(text@ =~= seq![digit_char(d as nat)]);
    text
}

/// Appends the decimal numeral of `n` to `out`.
pub fn push_decimal(out: &mut String, n: u64)
    ensures
        final(out)@ == old(out)@ + decimal(n as nat),
    decreases n,
{
    if n >= 10 {
        push_decimal(out, n / 10);
    }
    out.append(digit_text((n % 10) as u8));
    assert(out@ =~= old(out)@ + decimal(n as nat));
}

/// Appends the hexadecimal numeral of `n` to `out`.
pub fn push_hexadecimal(out: &mut String, n: u64)
    ensures
        final(out)@ == old(out)@ + hexadecimal(n as nat),
    decreases n,
{
    if n >= 16 {
        push_hexadecimal(out, n / 16);
    }
    out.append(digit_text((n % 16) as u8));
    assert(out@ =~= old(out)@ + hexadecimal(n as nat));
}

/// Appends `0b` and the sixteen binary digits of `word` to `out`.
pub fn push_binary_word(out: &mut String, word: u16)
    ensures
        final(out)@ == old(out)@ + binary_word(word),
{
    proof {
        reveal_strlit("0b");
    }
    out.append("0b");
    let mut i: u16 = 0;
    assert(out@ =~= old(out)@ + seq!['0', 'b'] + Seq::new(
        0,
        |j: int| bit_char(word, (15 - j) as u16),
    ));
    while i < 16
        invariant
            i <= 16,
            out@ == old(out)@ + seq!['0', 'b'] + Seq::new(
                i as nat,
                |j: int| bit_char(word, (15 - j) as u16),
            ),
        decreases 16 - i,
    {
        if (word >> (15 - i)) & 1 == 1 {
            out.append(digit_text(1));
        } else {
            out.append(digit_text(0));
        }
        i += 1;
        assert(out@ =~= old(out)@ + seq!['0', 'b'] + Seq::new(
            i as nat,
            |j: int| bit_char(word, (15 - j) as u16),
        ));
    }
    assert(out@ =~= old(out)@ + binary_word(word));
}

/// Appends `0x` and the four hexadecimal digits of `word` to `out`.
pub fn push_hex_word(out: &mut String, word: u16)
    ensures
        final(out)@ == old(out)@ + hex_word(word),
{
    proof {
        reveal_strlit("0x");
    }
    out.append("0x");
    out.append(digit_text(((word / 4096) % 16) as u8));
    out.append(digit_text(((word / 256) % 16) as u8));
    out.append(digit_text(((word / 16) % 16) as u8));
    out.append(digit_text((word % 16) as u8));
    assert(out@ =~= old(out)@ + hex_word(word));
}

} // verus!
