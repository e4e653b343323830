//! What the machine shows: numbers in decimal and hexadecimal, the dump of a
//! state, the text of a failure, and the coloured headings.

use vstd::prelude::*;
use vstd::string::StringExecFns;
use crate::error::{Error, ErrorView};
use crate::state::{as_signed, State};
use crate::text::{all_digits, digit, number};

verus! {

/// The sixteen numerals, in order.
pub open spec fn numerals() -> Seq<char> {
    "0123456789ABCDEF"@
}

/// `n` in decimal, without leading zeros.
pub open spec fn decimal(n: nat) -> Seq<char>
    decreases n,
{
    if n < 10 {
        seq![numerals()[n as int]]
    } else {
        decimal(n / 10).push(numerals()[(n % 10) as int])
    }
}

/// `i` in decimal, with `-` before it if it is negative.
pub open spec fn signed_decimal(i: int) -> Seq<char> {
    if i < 0 {
        seq!['-'] + decimal((-i) as nat)
    } else {
        decimal(i as nat)
    }
}

/// The last `width` digits of `n` in hexadecimal, in upper case.
pub open spec fn hexadecimal(n: nat, width: nat) -> Seq<char>
    decreases width,
{
    if width == 0 {
        Seq::empty()
    } else {
        hexadecimal(n / 16, (width - 1) as nat).push(numerals()[(n % 16) as int])
    }
}

/// `text` with blanks before it to make `width` characters; `text` itself if
/// it has that many.
pub open spec fn padded(text: Seq<char>, width: nat) -> Seq<char> {
    if text.len() < width {
        Seq::new((width - text.len()) as nat, |i: int| ' ') + text
    } else {
        text
    }
}

/// The line of a dump that shows register `reg` holding `value`: unsigned,
/// signed and in hexadecimal.
pub open spec fn register_line(reg: nat, value: u64) -> Seq<char> {
    "R"@ + decimal(reg) + ":  "@ + padded(decimal(value as nat), 20) + "  "@ + padded(
        signed_decimal(as_signed(value)),
        20,
    ) + "  0x"@ + hexadecimal(value as nat, 16)
}

/// The line of a dump that shows the zero flag.
pub open spec fn flag_line(zero: bool) -> Seq<char> {
    if zero {
        "Zero: true"@
    } else {
        "Zero: false"@
    }
}

/// The line of a dump that heads the three columns.
pub open spec fn heading_line() -> Seq<char> {
    "                 unsigned                signed                 hex"@
}

/// What is read back from the decimal text of a number is that number.
pub proof fn lemma_decimal_reads_back(n: nat)
    ensures
        decimal(n).len() > 0,
        all_digits(decimal(n)),
        number(decimal(n)) == n,
    decreases n,
{
    reveal_strlit("0123456789ABCDEF");
    if n < 10 {
        assert(decimal(n).drop_last() =~= Seq::<char>::empty());
        assert(number(decimal(n).drop_last()) == 0);
    } else {
        lemma_decimal_reads_back(n / 10);
        assert(decimal(n).drop_last() =~= decimal(n / 10));
        assert(digit(numerals()[(n % 10) as int]) == n % 10);
    }
}

/// The numeral of `d`.
fn numeral(d: u64) -> (c: char)
    requires
        d < 16,
    ensures
        c == numerals()[d as int],
{
    proof {
        reveal_strlit("0123456789ABCDEF");
    }
    "0123456789ABCDEF".get_char(d as usize)
}

/// Appends `n` in decimal to `out`.
pub fn push_decimal(out: &mut String, n: u64)
    ensures
        final(out)@ == old(out)@ + decimal(n as nat),
    decreases n,
{
    if n >= 10 {
        push_decimal(out, n / 10);
    }
    out.push(numeral(n % 10));
    assert(final(out)@ =~= old(out)@ + decimal(n as nat));
}

/// Appends the signed reading of `value` in decimal to `out`.
pub fn push_signed(out: &mut String, value: u64)
    ensures
        final(out)@ == old(out)@ + signed_decimal(as_signed(value)),
{
    if value < 0x8000_0000_0000_0000 {
        push_decimal(out, value);
    } else {
        out.push('-');
        push_decimal(out, 0u64.wrapping_sub(value));
        assert(final(out)@ =~= old(out)@ + signed_decimal(as_signed(value)));
    }
}

/// Appends the last `width` digits of `n` in hexadecimal to `out`.
pub fn push_hexadecimal(out: &mut String, n: u64, width: usize)
    ensures
        final(out)@ == old(out)@ + hexadecimal(n as nat, width as nat),
    decreases width,
{
    if width > 0 {
        push_hexadecimal(out, n / 16, width - 1);
        out.push(numeral(n % 16));
    }
    assert(final(out)@ =~= old(out)@ + hexadecimal(n as nat, width as nat));
}

/// Appends `text` to `out`, with blanks before it to make `width` characters.
pub fn push_padded(out: &mut String, text: &str, width: usize)
    ensures
        final(out)@ == old(out)@ + padded(text@, width as nat),
{
    let len: usize = text.unicode_len();
    if len >= width {
        out.append(text);
        return ;
    }
    let ghost blanks = Seq::new((width - len) as nat, |i: int| ' ');
    let mut i: usize = len;
    while i < width
        invariant
            len <= i <= width,
            len == text@.len(),
            blanks == Seq::new((width - len) as nat, |i: int| ' '),
            out@ == old(out)@ + blanks.take(i - len),
        decreases width - i,
    {
        out.push(' ');
        assert(out@ =~= old(out)@ + blanks.take(i + 1 - len));
        i += 1;
    }
    out.append(text);
    proof {
        assert(blanks.take(width - len) =~= blanks);
        assert(out@ =~= old(out)@ + padded(text@, width as nat));
    }
}

/// `n` in decimal.
pub fn decimal_text(n: u64) -> (r: String)
    ensures
        r@ == decimal(n as nat),
{
    let mut out: String = String::new();
    push_decimal(&mut out, n);
    assert(out@ =~= decimal(n as nat));
    out
}

/// The line of a dump that shows register `reg` holding `value`.
pub fn register_text(reg: usize, value: u64) -> (r: String)
    ensures
        r@ == register_line(reg as nat, value),
{
    let mut unsigned: String = String::new();
    push_decimal(&mut unsigned, value);
    let mut signed: String = String::new();
    push_signed(&mut signed, value);
    let mut out: String = String::new();
    out.append("R");
    push_decimal(&mut out, reg as u64);
    out.append(":  ");
    push_padded(&mut out, unsigned.as_str(), 20);
    out.append("  ");
    push_padded(&mut out, signed.as_str(), 20);
    out.append("  0x");
    push_hexadecimal(&mut out, value, 16);
    assert(out@ =~= register_line(reg as nat, value)) by {
        assert(unsigned@ =~= decimal(value as nat));
        assert(signed@ =~= signed_decimal(as_signed(value)));
    }
    out
}

impl State {
    /// The dump of the state: the zero flag, the heading, and a line for each
    /// register.
    pub fn dump(&self) -> (lines: Vec<String>)
        ensures
            lines.len() == 10,
            lines[0]@ == flag_line(self@.zero),
            lines[1]@ == heading_line(),
            forall|j: int| 2 <= j < 10 ==> (#[trigger] lines[j])@ == register_line(
                (j - 2) as nat,
                self@.registers[j - 2],
            ),
    {
        let mut lines: Vec<String> = Vec::new();
        if self.zero() {
            lines.push(String::from_str("Zero: true"));
        } else {
            lines.push(String::from_str("Zero: false"));
        }
        lines.push(
            String::from_str("                 unsigned                signed                 hex"),
        );
        let mut reg: usize = 0;
        while reg < 8
            invariant
                reg <= 8,
                lines.len() == reg + 2,
                lines[0]@ == flag_line(self@.zero),
                lines[1]@ == heading_line(),
                forall|j: int| 2 <= j < reg + 2 ==> (#[trigger] lines[j])@ == register_line(
                    (j - 2) as nat,
                    self@.registers[j - 2],
                ),
            decreases 8 - reg,
        {
            lines.push(register_text(reg, self.get(reg)));
            reg += 1;
        }
        lines
    }
}

impl ErrorView {
    /// What the failure says.
    pub open spec fn message(self) -> Seq<char> {
        match self {
            ErrorView::NoSuchRegister { reg } => "r"@ + decimal(reg as nat) + " does not exist"@,
            ErrorView::GarbageOperands { line } => "garbage following instruction on line "@
                + decimal(line as nat),
            ErrorView::GarbageInstruction { text } => "garbage instruction `"@ + text + "`"@,
            ErrorView::UnknownLabel { label, line } => "unknown label `"@ + label
                + "` on line "@ + decimal(line as nat),
            ErrorView::BadArgument { arg } => "Unable to parse arg: `"@ + arg + "`"@,
        }
    }
}

impl Error {
    /// What the failure says.
    pub fn message(&self) -> (r: String)
        ensures
            r@ == self@.message(),
    {
        let mut out: String = String::new();
        match self {
            Error::NoSuchRegister { reg } => {
                out.append("r");
                push_decimal(&mut out, *reg as u64);
                out.append(" does not exist");
            },
            Error::GarbageOperands { line } => {
                out.append("garbage following instruction on line ");
                push_decimal(&mut out, *line as u64);
            },
            Error::GarbageInstruction { text } => {
                out.append("garbage instruction `");
                out.append(text.as_str());
                out.append("`");
            },
            Error::UnknownLabel { label, line } => {
                out.append("unknown label `");
                out.append(label.as_str());
                out.append("` on line ");
                push_decimal(&mut out, *line as u64);
            },
            Error::BadArgument { arg } => {
                out.append("Unable to parse arg: `");
                out.append(arg.as_str());
                out.append("`");
            },
        }
        assert(out@ =~= self@.message());
        out
    }
}

/// The colours of the headings.
#[derive(Clone, Copy, Debug, PartialEq, Eq)]
pub enum Colour {
    Red,
    Green,
    Yellow,
    Blue,
}

impl Colour {
    /// The number by which a terminal knows the colour as that of the text.
    pub open spec fn code(self) -> Seq<char> {
        match self {
            Colour::Red => "31"@,
            Colour::Green => "32"@,
            Colour::Yellow => "33"@,
            Colour::Blue => "34"@,
        }
    }
}

/// `text` between the escape sequence that sets the colour of the text and
/// the one that resets it.
pub open spec fn painted(colour: Colour, text: Seq<char>) -> Seq<char> {
    "\u{1b}["@ + colour.code() + "m"@ + text + "\u{1b}[0m"@
}

/// `ansi_term::Colour::paint`, and the painted string written out. It writes
/// the prefix of the colour's plain style, which is `ESC [`, the colour's
/// foreground code and `m`; then the text; then the reset sequence `ESC [ 0 m`.
#[verifier::external_body]
fn paint(colour: Colour, text: &str) -> (r: String)
    ensures
        r@ == painted(colour, text@),
{
    let colour = match colour {
        Colour::Red => ansi_term::Colour::Red,
        Colour::Green => ansi_term::Colour::Green,
        Colour::Yellow => ansi_term::Colour::Yellow,
        Colour::Blue => ansi_term::Colour::Blue,
    };
    colour.paint(text).to_string()
}

/// The line that reports a failure which says `message`.
pub open spec fn error_line(message: Seq<char>) -> Seq<char> {
    painted(Colour::Red, "Error: "@) + " "@ + message
}

/// The line that reports `error`.
pub open spec fn failure_line(error: ErrorView) -> Seq<char> {
    error_line(error.message())
}

/// The line that announces the breakpoint at instruction `at`, by its line
/// counted from 1.
pub open spec fn breakpoint_line(at: usize) -> Seq<char> {
    painted(Colour::Yellow, "Debug:"@) + " "@ + painted(
        Colour::Blue,
        "line "@ + decimal((at + 1) as nat),
    )
}

/// The line that announces the end of a run.
pub open spec fn finished_line() -> Seq<char> {
    painted(Colour::Green, "Finished:"@)
}

/// The line that reports a failure which says `message`.
pub fn error_text(message: &str) -> (r: String)
    ensures
        r@ == error_line(message@),
{
    let mut out: String = paint(Colour::Red, "Error: ");
    out.append(" ");
    out.append(message);
    out
}

/// The line that reports `error`.
pub fn failure_text(error: &Error) -> (r: String)
    ensures
        r@ == failure_line(error@),
{
    error_text(error.message().as_str())
}

/// The line that announces the breakpoint at instruction `at`.
pub fn breakpoint_text(at: usize) -> (r: String)
    requires
        at < usize::MAX,
    ensures
        r@ == breakpoint_line(at),
{
    let mut place: String = String::from_str("line ");
    push_decimal(&mut place, (at + 1) as u64);
    let mut out: String = paint(Colour::Yellow, "Debug:");
    out.append(" ");
    out.append(paint(Colour::Blue, place.as_str()).as_str());
    out
}

/// The line that announces the end of a run.
pub fn finished_text() -> (r: String)
    ensures
        r@ == finished_line(),
{
    paint(Colour::Green, "Finished:")
}

} // verus!
