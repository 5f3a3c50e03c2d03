//! Numbers and bytes as text.

use vstd::prelude::*;

verus! {

/// The lower-case hexadecimal digit of a number below sixteen.
pub open spec fn hex_digit(n: int) -> char {
    if n < 10 {
        ('0' as int + n) as char
    } else {
        ('a' as int + n - 10) as char
    }
}

/// Whether a character is a lower-case hexadecimal digit.
pub open spec fn is_hex_digit(c: char) -> bool {
    ('0' <= c && c <= '9') || ('a' <= c && c <= 'f')
}

/// Two digits for each byte, the high one first.
pub open spec fn hex_text(bytes: Seq<u8>) -> Seq<char> {
    Seq::new(
        2 * bytes.len(),
        |i: int|
            if i % 2 == 0 {
                hex_digit(bytes[i / 2] as int / 16)
            } else {
                hex_digit(bytes[i / 2] as int % 16)
            },
    )
}

/// A number in decimal, without leading zeros.
pub open spec fn decimal_text(n: nat) -> Seq<char>
    decreases n,
{
    if n < 10 {
        seq![hex_digit(n as int)]
    } else {
        decimal_text(n / 10).push(hex_digit(n as int % 10))
    }
}

/// A number in decimal, filled up with leading zeros to a width that it may
/// exceed.
pub open spec fn padded_text(n: nat, width: nat) -> Seq<char> {
    let digits = decimal_text(n);
    if digits.len() >= width {
        digits
    } else {
        Seq::new((width - digits.len()) as nat, |i: int| '0') + digits
    }
}

/// The text of one digit.
fn digit_str(n: u8) -> (digit: &'static str)
    requires
        n < 16,
    ensures
        digit@ == seq![hex_digit(n as int)],
{
    proof {
        reveal_strlit("0");
        reveal_strlit("1");
        reveal_strlit("2");
        reveal_strlit("3");
        reveal_strlit("4");
        reveal_strlit("5");
        reveal_strlit("6");
        reveal_strlit("7");
        reveal_strlit("8");
        reveal_strlit("9");
        reveal_strlit("a");
        reveal_strlit("b");
        reveal_strlit("c");
        reveal_strlit("d");
        reveal_strlit("e");
        reveal_strlit("f");
    }
    match n {
        0 => "0",
        1 => "1",
        2 => "2",
        3 => "3",
        4 => "4",
        5 => "5",
        6 => "6",
        7 => "7",
        8 => "8",
        9 => "9",
        10 => "a",
        11 => "b",
        12 => "c",
        13 => "d",
        14 => "e",
        _ => "f",
    }
}

/// Writes bytes as lower-case hexadecimal.
pub fn hex_encode(bytes: &[u8]) -> (text: String)
    ensures
        text@ == hex_text(bytes@),
{
    let mut text: String = String::new();
    let mut i: usize = 0;
    while i < bytes.len()
        invariant
            i <= bytes.len(),
            text@ == hex_text(bytes@.take(i as int)),
        decreases bytes.len() - i,
    {
        let byte: u8 = bytes[i];
        text.append(digit_str(byte / 16));
        text.append(digit_str(byte % 16));
        assert(text@ =~= hex_text(bytes@.take(i + 1)));
        i = i + 1;
    }
    text
}

/// Writes a number in decimal.
fn decimal(n: u64) -> (text: String)
    ensures
        text@ == decimal_text(n as nat),
    decreases n,
{
    if n < 10 {
        digit_str(n as u8).to_owned()
    } else {
        let mut text = decimal(n / 10);
        text.append(digit_str((n % 10) as u8));
        text
    }
}

/// Writes a number in decimal, filled up with leading zeros to a width.
pub fn padded(n: u64, width: usize) -> (text: String)
    ensures
        text@ == padded_text(n as nat, width as nat),
{
    let digits = decimal(n);
    let count: usize = digits.as_str().unicode_len();
    let mut text: String = String::new();
    let mut filled: usize = count;
    while filled < width
        invariant
            count <= filled,
            filled <= width || filled == count,
            text@ == Seq::new((filled - count) as nat, |i: int| '0'),
        decreases width - filled,
    {
        text.append(digit_str(0));
        filled = filled + 1;
    }
    text.append(digits.as_str());
    text
}

proof fn lemma_decimal_len(n: nat)
    ensures
        decimal_text(n).len() >= 1,
        n < 10 ==> decimal_text(n).len() == 1,
        10 <= n < 100 ==> decimal_text(n).len() == 2,
        100 <= n < 1000 ==> decimal_text(n).len() == 3,
        1000 <= n < 10000 ==> decimal_text(n).len() == 4,
    decreases n,
{
    if n >= 10 {
        lemma_decimal_len(n / 10);
    }
}

/// A number that fits a width of up to four digits takes exactly that width.
pub proof fn padded_text_fits(n: nat, width: nat)
    requires
        (width == 2 && n < 100) || (width == 3 && n < 1000) || (width == 4 && n < 10000),
    ensures
        padded_text(n, width).len() == width,
{
    lemma_decimal_len(n);
}

/// The hexadecimal text of bytes has two characters for each byte, all of
/// them lower-case hexadecimal digits.
pub proof fn hex_text_is_hex(bytes: Seq<u8>)
    ensures
        hex_text(bytes).len() == 2 * bytes.len(),
        forall|i: int| 0 <= i < hex_text(bytes).len() ==> is_hex_digit(#[trigger] hex_text(bytes)[i]),
{
}

/// Different bytes have different hexadecimal texts.
pub proof fn hex_text_tells_bytes_apart(a: Seq<u8>, b: Seq<u8>)
    requires
        hex_text(a) == hex_text(b),
    ensures
        a == b,
{
    assert(hex_text(b).len() == 2 * b.len());
    assert forall|i: int| 0 <= i < a.len() implies a[i] == b[i] by {
        assert(hex_text(b)[2 * i] == hex_digit(b[i] as int / 16));
        assert(hex_text(b)[2 * i + 1] == hex_digit(b[i] as int % 16));
    }
}

/// The hexadecimal text of bytes reads back as those bytes: of the two digits
/// of a byte the first counts sixteen times, and the letters from `a` on stand
/// for ten and more.
pub proof fn hex_text_reads_back(bytes: Seq<u8>, i: int)
    requires
        0 <= i < bytes.len(),
    ensures
        ({
            let high = hex_text(bytes)[2 * i] as int;
            let low = hex_text(bytes)[2 * i + 1] as int;
            bytes[i] == 16 * (if high <= '9' as int {
                high - '0' as int
            } else {
                high - 'a' as int + 10
            }) + (if low <= '9' as int {
                low - '0' as int
            } else {
                low - 'a' as int + 10
            })
        }),
{
    assert(hex_text(bytes)[2 * i] == hex_digit(bytes[i] as int / 16));
    assert(hex_text(bytes)[2 * i + 1] == hex_digit(bytes[i] as int % 16));
}

/// The number that decimal digits stand for.
pub open spec fn decimal_value(digits: Seq<char>) -> int
    decreases digits.len(),
{
    if digits.len() == 0 {
        0
    } else {
        10 * decimal_value(digits.drop_last()) + (digits.last() as int - '0' as int)
    }
}

proof fn lemma_decimal_reads_back(n: nat)
    ensures
        decimal_value(decimal_text(n)) == n,
        forall|i: int|
            0 <= i < decimal_text(n).len() ==> '0' <= (#[trigger] decimal_text(n)[i]) <= '9',
        decimal_text(n).len() >= 1,
        decimal_text(n).len() > 1 ==> decimal_text(n)[0] != '0',
    decreases n,
{
    if n < 10 {
        assert(decimal_text(n).drop_last() =~= Seq::<char>::empty());
        assert(decimal_value(Seq::<char>::empty()) == 0);
    } else {
        let front = decimal_text(n / 10);
        lemma_decimal_reads_back(n / 10);
        assert(decimal_text(n).drop_last() =~= front);
        assert forall|i: int| 0 <= i < decimal_text(n).len() implies '0' <= (
        #[trigger] decimal_text(n)[i]) <= '9' by {
            if i < front.len() {
                assert(decimal_text(n)[i] == front[i]);
            }
        }
        assert(decimal_text(n)[0] == front[0]);
        if front.len() == 1 {
            assert(front[0] != '0') by {
                if n / 10 >= 10 {
                    lemma_decimal_reads_back(n / 10 / 10);
                }
            }
        }
    }
}

proof fn lemma_leading_zeros(count: nat, digits: Seq<char>)
    ensures
        decimal_value(Seq::new(count, |i: int| '0') + digits) == decimal_value(digits),
    decreases digits.len(), count,
{
    let zeros = Seq::new(count, |i: int| '0');
    if digits.len() > 0 {
        lemma_leading_zeros(count, digits.drop_last());
        assert((zeros + digits).drop_last() =~= zeros + digits.drop_last());
    } else if count > 0 {
        let fewer = Seq::new((count - 1) as nat, |i: int| '0');
        lemma_leading_zeros((count - 1) as nat, digits);
        assert((zeros + digits).drop_last() =~= fewer + digits);
        assert((zeros + digits).last() == '0');
    } else {
        assert(zeros + digits =~= digits);
    }
}

/// A padded number consists of decimal digits that stand for it. It has at
/// least the given width, and where it has more it does not start with a zero.
pub proof fn padded_text_reads_back(n: nat, width: nat)
    ensures
        decimal_value(padded_text(n, width)) == n,
        forall|i: int|
            0 <= i < padded_text(n, width).len() ==> '0' <= (#[trigger] padded_text(n, width)[i])
                <= '9',
        padded_text(n, width).len() >= width,
        padded_text(n, width).len() >= 1,
        padded_text(n, width).len() > width && padded_text(n, width).len() > 1 ==> padded_text(
            n,
            width,
        )[0] != '0',
{
    let digits = decimal_text(n);
    lemma_decimal_reads_back(n);
    if digits.len() < width {
        let count = (width - digits.len()) as nat;
        let zeros = Seq::new(count, |i: int| '0');
        lemma_leading_zeros(count, digits);
        assert forall|i: int| 0 <= i < padded_text(n, width).len() implies '0' <= (
        #[trigger] padded_text(n, width)[i]) <= '9' by {
            if i >= count {
                assert(padded_text(n, width)[i] == digits[i - count]);
            } else {
                assert(padded_text(n, width)[i] == zeros[i]);
            }
        }
    }
}

} // verus!
