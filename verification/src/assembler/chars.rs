//! Texts as sequences of characters: splitting, trimming and numerals.
use vstd::prelude::*;
use vstd::std_specs::iter::IteratorSpec;
use vstd::string::*;

verus! {

/// The characters of `text`, in order.
pub fn chars_of(text: &str) -> (chars: Vec<char>)
    ensures
        chars@ == text@,
{
    broadcast use vstd::string::group_string_axioms;

    let mut chars: Vec<char> = Vec::new();
    let mut rest = text.chars();
    loop
        invariant
            rest.obeys_prophetic_iter_laws(),
            chars@ + rest.remaining() == text@,
        decreases text@.len() - chars@.len(),
    {
        match rest.next() {
            Some(c) => {
                chars.push(c);
                assert(chars@ + rest.remaining() =~= text@);
            },
            None => {
                assert(chars@ =~= text@);
                return chars;
            },
        }
    }
}

/// `String::push`: the text is afterwards what it was, with `c` at its end.
#[verifier::external_body]
fn push_char(text: &mut String, c: char)
    ensures
        final(text)@ == old(text)@.push(c),
{
    text.push(c)
}

/// The string that holds the characters `chars`.
pub fn text_of(chars: &Vec<char>) -> (text: String)
    ensures
        text@ == chars@,
{
    let mut text = String::new();
    let mut i: usize = 0;
    while i < chars.len()
        invariant
            i <= chars@.len(),
            text@ == chars@.subrange(0, i as int),
        decreases chars@.len() - i,
    {
        push_char(&mut text, chars[i]);
        i += 1;
        assert(text@ =~= chars@.subrange(0, i as int));
    }
    assert(text@ =~= chars@);
    text
}

/// Whether `chars` spells `literal`.
pub fn spells(chars: &Vec<char>, literal: &str) -> (same: bool)
    ensures
        same == (chars@ == literal@),
{
    let wanted = chars_of(literal);
    if wanted.len() != chars.len() {
        return false;
    }
    let mut i: usize = 0;
    while i < chars.len()
        invariant
            i <= chars@.len(),
            wanted@.len() == chars@.len(),
            wanted@ == literal@,
            chars@.subrange(0, i as int) == wanted@.subrange(0, i as int),
        decreases chars@.len() - i,
    {
        if chars[i] != wanted[i] {
            return false;
        }
        i += 1;
        assert(chars@.subrange(0, i as int) =~= wanted@.subrange(0, i as int)) by {
            assert(chars@.subrange(0, i as int) =~= chars@.subrange(0, i - 1).push(chars@[i - 1]));
            assert(wanted@.subrange(0, i as int) =~= wanted@.subrange(0, i - 1).push(
                wanted@[i - 1],
            ));
        }
    }
    assert(chars@ =~= chars@.subrange(0, chars@.len() as int));
    assert(wanted@ =~= wanted@.subrange(0, chars@.len() as int));
    true
}

/// The characters of `chars` from position `from` up to, not including, `to`.
pub(crate) fn part_of(chars: &Vec<char>, from: usize, to: usize) -> (part: Vec<char>)
    requires
        from <= to <= chars@.len(),
    ensures
        part@ == chars@.subrange(from as int, to as int),
{
    let mut part: Vec<char> = Vec::new();
    let mut i: usize = from;
    while i < to
        invariant
            from <= i <= to <= chars@.len(),
            part@ == chars@.subrange(from as int, i as int),
        decreases to - i,
    {
        part.push(chars[i]);
        i += 1;
        assert(part@ =~= chars@.subrange(from as int, i as int));
    }
    part
}

/// White space: the characters that separate the words of a line.
pub open spec fn is_space(c: char) -> bool {
    let n = c as u32;
    (0x09 <= n <= 0x0D) || n == 0x20 || n == 0x85 || n == 0xA0 || n == 0x1680 || (0x2000 <= n
        <= 0x200A) || n == 0x2028 || n == 0x2029 || n == 0x202F || n == 0x205F || n == 0x3000
}

/// Whether `c` is white space.
pub fn space(c: char) -> (found: bool)
    ensures
        found == is_space(c),
{
    let n = c as u32;
    (0x09 <= n && n <= 0x0D) || n == 0x20 || n == 0x85 || n == 0xA0 || n == 0x1680 || (0x2000 <= n
        && n <= 0x200A) || n == 0x2028 || n == 0x2029 || n == 0x202F || n == 0x205F || n == 0x3000
}

/// The texts that the strings of `words` hold.
pub open spec fn texts(words: Seq<Vec<char>>) -> Seq<Seq<char>> {
    Seq::new(words.len(), |i: int| words[i]@)
}

/// The word `current` as a list of words: none if it is empty.
pub open spec fn finished(current: Seq<char>) -> Seq<Seq<char>> {
    if current.len() == 0 {
        Seq::empty()
    } else {
        seq![current]
    }
}

/// The words of `text` from position `at` on, where `current` holds the
/// characters of the word that is being read.
pub open spec fn words_from(text: Seq<char>, at: int, current: Seq<char>) -> Seq<Seq<char>>
    decreases text.len() - at,
{
    if at < 0 || at >= text.len() {
        finished(current)
    } else if is_space(text[at]) {
        finished(current) + words_from(text, at + 1, Seq::empty())
    } else {
        words_from(text, at + 1, current.push(text[at]))
    }
}

/// The words of `text`: its longest runs of characters that are not white
/// space, in order.
pub open spec fn words(text: Seq<char>) -> Seq<Seq<char>> {
    words_from(text, 0, Seq::empty())
}

/// Splits `text` into its words.
pub fn split_words(text: &Vec<char>) -> (found: Vec<Vec<char>>)
    ensures
        texts(found@) == words(text@),
{
    let mut found: Vec<Vec<char>> = Vec::new();
    let mut current: Vec<char> = Vec::new();
    let mut i: usize = 0;
    assert(texts(found@) + words_from(text@, 0, current@) =~= words(text@));
    while i < text.len()
        invariant
            i <= text@.len(),
            texts(found@) + words_from(text@, i as int, current@) == words(text@),
        decreases text@.len() - i,
    {
        let c = text[i];
        if space(c) {
            if current.len() > 0 {
                let ghost before = texts(found@);
                let ghost word = current@;
                found.push(current);
                current = Vec::new();
                assert(texts(found@) =~= before + seq![word]);
                assert(texts(found@) + words_from(text@, i + 1, current@) =~= before + (seq![word]
                    + words_from(text@, i + 1, Seq::empty())));
            } else {
                assert(current@ =~= Seq::<char>::empty());
                assert(finished(current@) + words_from(text@, i + 1, Seq::empty())
                    =~= words_from(text@, i + 1, current@));
            }
        } else {
            current.push(c);
        }
        i += 1;
    }
    if current.len() > 0 {
        let ghost before = texts(found@);
        let ghost word = current@;
        found.push(current);
        assert(texts(found@) =~= before + seq![word]);
    } else {
        assert(texts(found@) + Seq::<Seq<char>>::empty() =~= texts(found@));
    }
    found
}

/// `text` without the characters `c` at its end.
pub open spec fn without_trailing(text: Seq<char>, c: char) -> Seq<char>
    decreases text.len(),
{
    if text.len() > 0 && text.last() == c {
        without_trailing(text.drop_last(), c)
    } else {
        text
    }
}

/// `text` without the characters `c` at its start.
pub open spec fn without_leading(text: Seq<char>, c: char) -> Seq<char>
    decreases text.len(),
{
    if text.len() > 0 && text.first() == c {
        without_leading(text.drop_first(), c)
    } else {
        text
    }
}

/// `text` without the white space at its end.
pub open spec fn without_trailing_space(text: Seq<char>) -> Seq<char>
    decreases text.len(),
{
    if text.len() > 0 && is_space(text.last()) {
        without_trailing_space(text.drop_last())
    } else {
        text
    }
}

/// `text` without the white space at its start.
pub open spec fn without_leading_space(text: Seq<char>) -> Seq<char>
    decreases text.len(),
{
    if text.len() > 0 && is_space(text.first()) {
        without_leading_space(text.drop_first())
    } else {
        text
    }
}

/// `text` without the white space at its start and at its end.
pub open spec fn trimmed(text: Seq<char>) -> Seq<char> {
    without_leading_space(without_trailing_space(text))
}

/// Removes every `c` from the end of `text`.
pub fn trim_end_matches(text: &Vec<char>, c: char) -> (kept: Vec<char>)
    ensures
        kept@ == without_trailing(text@, c),
{
    let mut end: usize = text.len();
    assert(text@.subrange(0, end as int) =~= text@);
    while end > 0 && text[end - 1] == c
        invariant
            end <= text@.len(),
            without_trailing(text@, c) == without_trailing(text@.subrange(0, end as int), c),
        decreases end,
    {
        assert(text@.subrange(0, end as int).drop_last() =~= text@.subrange(0, end - 1));
        end -= 1;
    }
    part_of(text, 0, end)
}

/// Removes every `c` from the start of `text`.
pub fn trim_start_matches(text: &Vec<char>, c: char) -> (kept: Vec<char>)
    ensures
        kept@ == without_leading(text@, c),
{
    let mut start: usize = 0;
    assert(text@.subrange(0, text@.len() as int) =~= text@);
    while start < text.len() && text[start] == c
        invariant
            start <= text@.len(),
            without_leading(text@, c) == without_leading(
                text@.subrange(start as int, text@.len() as int),
                c,
            ),
        decreases text@.len() - start,
    {
        assert(text@.subrange(start as int, text@.len() as int).drop_first() =~= text@.subrange(
            start + 1,
            text@.len() as int,
        ));
        start += 1;
    }
    part_of(text, start, text.len())
}

/// Removes the white space from both ends of `text`.
pub fn trim(text: &Vec<char>) -> (kept: Vec<char>)
    ensures
        kept@ == trimmed(text@),
{
    let mut end: usize = text.len();
    assert(text@.subrange(0, end as int) =~= text@);
    while end > 0 && space(text[end - 1])
        invariant
            end <= text@.len(),
            without_trailing_space(text@) == without_trailing_space(
                text@.subrange(0, end as int),
            ),
        decreases end,
    {
        assert(text@.subrange(0, end as int).drop_last() =~= text@.subrange(0, end - 1));
        end -= 1;
    }
    let ghost head = text@.subrange(0, end as int);
    assert(without_trailing_space(text@) == head);
    let mut start: usize = 0;
    assert(head.subrange(0, end as int) =~= head);
    while start < end && space(text[start])
        invariant
            start <= end <= text@.len(),
            head == text@.subrange(0, end as int),
            without_leading_space(head) == without_leading_space(
                head.subrange(start as int, end as int),
            ),
        decreases end - start,
    {
        assert(head.subrange(start as int, end as int).drop_first() =~= head.subrange(
            start + 1,
            end as int,
        ));
        start += 1;
    }
    assert(head.subrange(start as int, end as int) =~= text@.subrange(start as int, end as int));
    part_of(text, start, end)
}

/// The value of `c` as a digit of the base `base`, a base up to sixteen;
/// the letters count in both cases.
pub open spec fn digit_value(c: char, base: nat) -> Option<nat> {
    let n = c as u32;
    let value: nat = if '0' <= c <= '9' {
        (n - 48) as nat
    } else if 'a' <= c <= 'f' {
        (n - 87) as nat
    } else if 'A' <= c <= 'F' {
        (n - 55) as nat
    } else {
        base
    };
    if value < base {
        Some(value)
    } else {
        None
    }
}

/// The number that `digits` spell in the base `base`; `None` if one of them
/// is no digit of that base.
pub open spec fn digits_value(digits: Seq<char>, base: nat) -> Option<nat>
    decreases digits.len(),
{
    if digits.len() == 0 {
        Some(0)
    } else {
        match (digits_value(digits.drop_last(), base), digit_value(digits.last(), base)) {
            (Some(high), Some(low)) => Some(high * base + low),
            _ => None,
        }
    }
}

/// The 16-bit number that `text` spells in the base `base`: an optional
/// `+`, then at least one digit, and a value of at most 65535.
pub open spec fn number_of(text: Seq<char>, base: nat) -> Option<u16> {
    let digits = if text.len() > 0 && text[0] == '+' {
        text.drop_first()
    } else {
        text
    };
    if digits.len() == 0 {
        None
    } else {
        match digits_value(digits, base) {
            Some(value) => if value <= u16::MAX {
                Some(value as u16)
            } else {
                None
            },
            None => None,
        }
    }
}

/// More digits never spell a smaller number.
pub proof fn lemma_digits_grow(digits: Seq<char>, base: nat, shorter: int)
    requires
        0 <= shorter <= digits.len(),
        digits_value(digits, base) is Some,
    ensures
        digits_value(digits.subrange(0, shorter), base) is Some,
        digits_value(digits.subrange(0, shorter), base)->0 <= digits_value(digits, base)->0,
    decreases digits.len(),
{
    if shorter == digits.len() {
        assert(digits.subrange(0, shorter) =~= digits);
    } else {
        assert(digits.drop_last().subrange(0, shorter) =~= digits.subrange(0, shorter));
        lemma_digits_grow(digits.drop_last(), base, shorter);
        let high = digits_value(digits.drop_last(), base)->0;
        assert(high <= high * base) by (nonlinear_arith)
            requires
                base >= 1,
                high >= 0,
        ;
    }
}

/// Reads `text` as a decimal number.
pub fn parse_decimal(text: &Vec<char>) -> (value: Option<u16>)
    ensures
        value == number_of(text@, 10),
{
    parse_number(text, 10)
}

/// Reads `text` as a hexadecimal number.
pub fn parse_hexadecimal(text: &Vec<char>) -> (value: Option<u16>)
    ensures
        value == number_of(text@, 16),
{
    parse_number(text, 16)
}

/// Reads `text` as a number of the base `base`, which is ten or sixteen.
fn parse_number(text: &Vec<char>, base: u32) -> (value: Option<u16>)
    requires
        base == 10 || base == 16,
    ensures
        value == number_of(text@, base as nat),
{
    let start: usize = if text.len() > 0 && text[0] == '+' {
        1
    } else {
        0
    };
    if start == text.len() {
        return None;
    }
    let ghost digits = text@.subrange(start as int, text@.len() as int);
    assert(digits =~= if text@.len() > 0 && text@[0] == '+' {
        text@.drop_first()
    } else {
        text@
    });
    let mut value: u32 = 0;
    let mut i: usize = start;
    assert(digits.subrange(0, 0) =~= Seq::<char>::empty());
    while i < text.len()
        invariant
            start <= i <= text@.len(),
            base == 10 || base == 16,
            digits == text@.subrange(start as int, text@.len() as int),
            digits.len() > 0,
            digits == if text@.len() > 0 && text@[0] == '+' {
                text@.drop_first()
            } else {
                text@
            },
            digits_value(digits.subrange(0, i - start), base as nat) == Some(value as nat),
            value <= u16::MAX,
        decreases text@.len() - i,
    {
        let c = text[i];
        let n = c as u32;
        let digit: u32 = if '0' <= c && c <= '9' {
            n - 48
        } else if 'a' <= c && c <= 'f' {
            n - 87
        } else if 'A' <= c && c <= 'F' {
            n - 55
        } else {
            base
        };
        let ghost longer = digits.subrange(0, i + 1 - start);
        assert(longer.drop_last() =~= digits.subrange(0, i - start));
        assert(longer.last() == c);
        if digit >= base {
            proof {
                assert(digits_value(longer, base as nat) is None);
                if digits_value(digits, base as nat) is Some {
                    lemma_digits_grow(digits, base as nat, i + 1 - start);
                }
            }
            return None;
        }
        let next = value * base + digit;
        assert(digits_value(longer, base as nat) == Some(next as nat)) by {
            assert(value as nat * base as nat + digit as nat == next as nat) by (nonlinear_arith)
                requires
                    next == value * base + digit,
            ;
        }
        if next > 0xFFFF {
            proof {
                if digits_value(digits, base as nat) is Some {
                    lemma_digits_grow(digits, base as nat, i + 1 - start);
                }
            }
            return None;
        }
        value = next;
        i += 1;
    }
    assert(digits.subrange(0, i - start) =~= digits);
    Some(value as u16)
}

} // verus!
