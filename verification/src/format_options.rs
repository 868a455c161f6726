//! Format options, and how an unsigned integer is written under them.
use vstd::prelude::*;

verus! {

/// `String::push` of the standard library appends one character to the end of
/// the string.
pub assume_specification[ String::push ](s: &mut String, ch: char)
    ensures
        final(s)@ == old(s)@.push(ch),
;

/// The number system in which integers are written.
#[derive(Clone, Copy, Debug, PartialEq, Eq)]
pub enum Radix {
    /// Base ten, as in `{:?}`.
    Decimal,
    /// Base sixteen with the digits `a` to `f`, as in `{:x?}`.
    LowerHex,
    /// Base sixteen with the digits `A` to `F`, as in `{:X?}`.
    UpperHex,
}

/// Where the text stands inside a field that is wider than it.
#[derive(Clone, Copy, Debug, PartialEq, Eq)]
pub enum Alignment {
    /// At the left end, as in `{:<8?}`.
    Left,
    /// In the middle, as in `{:^8?}`.
    Center,
    /// At the right end, as in `{:>8?}`.
    Right,
}

/// The format options that a debug request such as `{:#06x?}` carries.
///
/// A precision is not among them: it has no effect on integers.
#[derive(Clone, Copy, Debug)]
pub struct FormatOptions {
    /// The flag `#`: one field or element per line, and `0x` before
    /// hexadecimal digits.
    pub alternate: bool,
    /// The number system for integers.
    pub radix: Radix,
    /// The flag `+`: a plus sign before each integer.
    pub sign_plus: bool,
    /// The flag `0`: zeros between the sign and prefix and the digits, up to
    /// the width.
    pub zero_pad: bool,
    /// The least number of characters for each integer.
    pub width: Option<u16>,
    /// The character that fills a field up to its width.
    pub fill: char,
    /// The alignment of integers in their fields; to the right if unset.
    pub align: Option<Alignment>,
}

/// `count` times the character `ch`.
pub open spec fn repeated(ch: char, count: nat) -> Seq<char> {
    Seq::new(count, |i: int| ch)
}

/// The digits of `n`, the most significant first, with no leading zeros.
pub open spec fn digits(radix: Radix, n: nat) -> Seq<char>
    decreases n,
{
    if n < radix.base() {
        seq![radix.digit(n)]
    } else {
        digits(radix, n / radix.base()).push(radix.digit(n % radix.base()))
    }
}

impl Radix {
    /// The base of the number system.
    pub open spec fn base(self) -> nat {
        if self is Decimal {
            10
        } else {
            16
        }
    }

    /// The character of the digit with value `d`.
    pub open spec fn digit(self, d: nat) -> char
        recommends
            d < self.base(),
    {
        if d < 10 {
            ('0' as nat + d) as char
        } else if self is UpperHex {
            ('A' as nat + d - 10) as char
        } else {
            ('a' as nat + d - 10) as char
        }
    }

    /// The character of the digit with value `d`.
    fn digit_char(self, d: usize) -> (ch: char)
        requires
            d < self.base(),
        ensures
            ch == self.digit(d as nat),
    {
        let value: u8 = d as u8;
        if value < 10 {
            (48u8 + value) as char
        } else {
            match self {
                Radix::UpperHex => (55u8 + value) as char,
                _ => (87u8 + value) as char,
            }
        }
    }

    /// Appends the digits of `n` to `out`.
    fn push_digits(self, out: &mut String, n: usize)
        ensures
            final(out)@ == old(out)@ + digits(self, n as nat),
        decreases n,
    {
        let base: usize = match self {
            Radix::Decimal => 10,
            _ => 16,
        };
        if n >= base {
            self.push_digits(out, n / base);
        }
        out.push(self.digit_char(n % base));
    }
}

/// Appends `count` times the character `ch` to `out`.
fn push_repeated(out: &mut String, ch: char, count: usize)
    ensures
        final(out)@ == old(out)@ + repeated(ch, count as nat),
{
    let ghost start = out@;
    assert(out@ =~= start + repeated(ch, 0));
    for i in 0..count
        invariant
            out@ == start + repeated(ch, i as nat),
    {
        out.push(ch);
        assert(out@ =~= start + repeated(ch, (i + 1) as nat));
    }
}

impl FormatOptions {
    /// The options of a bare `{:?}`.
    pub open spec fn plain() -> FormatOptions {
        FormatOptions {
            alternate: false,
            radix: Radix::Decimal,
            sign_plus: false,
            zero_pad: false,
            width: None,
            fill: ' ',
            align: None,
        }
    }

    /// What stands before the digits of an integer: the sign and the prefix of
    /// the number system.
    pub open spec fn lead(self) -> Seq<char> {
        let sign = if self.sign_plus {
            seq!['+']
        } else {
            seq![]
        };
        let prefix = if self.alternate && !(self.radix is Decimal) {
            seq!['0', 'x']
        } else {
            seq![]
        };
        sign + prefix
    }

    /// How many characters a text of `len` characters falls short of the width.
    pub open spec fn shortfall(self, len: nat) -> nat {
        match self.width {
            Some(width) if width > len => (width - len) as nat,
            _ => 0,
        }
    }

    /// How many of `gap` fill characters stand to the left of the text.
    pub open spec fn left_share(self, gap: nat) -> nat {
        match self.align {
            Some(Alignment::Left) => 0,
            Some(Alignment::Center) => gap / 2,
            _ => gap,
        }
    }

    /// The text of the unsigned integer `n`.
    pub open spec fn integer_text(self, n: nat) -> Seq<char> {
        let number = self.lead() + digits(self.radix, n);
        let gap = self.shortfall(number.len());
        let left = self.left_share(gap);
        if self.zero_pad {
            self.lead() + repeated('0', gap) + digits(self.radix, n)
        } else {
            repeated(self.fill, left) + number + repeated(self.fill, (gap - left) as nat)
        }
    }

    /// The options of a bare `{:?}`.
    pub fn new() -> (options: FormatOptions)
        ensures
            options == FormatOptions::plain(),
            !options.alternate,
            options.radix == Radix::Decimal,
            !options.sign_plus,
            !options.zero_pad,
            options.width is None,
            options.fill == ' ',
            options.align is None,
    {
        FormatOptions {
            alternate: false,
            radix: Radix::Decimal,
            sign_plus: false,
            zero_pad: false,
            width: None,
            fill: ' ',
            align: None,
        }
    }

    /// Appends what stands before the digits of an integer to `out`.
    fn push_lead(&self, out: &mut String)
        ensures
            final(out)@ == old(out)@ + self.lead(),
    {
        if self.sign_plus {
            out.push('+');
        }
        if self.alternate {
            match self.radix {
                Radix::Decimal => {},
                _ => {
                    out.push('0');
                    out.push('x');
                },
            }
        }
    }

    /// The text of the unsigned integer `n`, as its `Debug` form has it.
    pub(crate) fn integer(&self, n: usize) -> (text: String)
        ensures
            text@ == self.integer_text(n as nat),
    {
        let mut number = String::new();
        self.push_lead(&mut number);
        self.radix.push_digits(&mut number, n);
        let len: usize = number.as_str().unicode_len();
        let gap: usize = match self.width {
            Some(width) => if width as usize > len {
                width as usize - len
            } else {
                0
            },
            None => 0,
        };
        let mut text = String::new();
        if self.zero_pad {
            self.push_lead(&mut text);
            push_repeated(&mut text, '0', gap);
            self.radix.push_digits(&mut text, n);
        } else {
            let left: usize = match self.align {
                Some(Alignment::Left) => 0,
                Some(Alignment::Center) => gap / 2,
                _ => gap,
            };
            push_repeated(&mut text, self.fill, left);
            text.append(number.as_str());
            push_repeated(&mut text, self.fill, gap - left);
        }
        text
    }
}

} // verus!
