//! The textual form of a ranking: one line per cause.
use vstd::prelude::*;
use crate::tally::Entry;
use crate::text::texts;

verus! {

/// The character for a decimal digit.
pub open spec fn digit(d: nat) -> char {
    if d == 0 {
        '0'
    } else if d == 1 {
        '1'
    } else if d == 2 {
        '2'
    } else if d == 3 {
        '3'
    } else if d == 4 {
        '4'
    } else if d == 5 {
        '5'
    } else if d == 6 {
        '6'
    } else if d == 7 {
        '7'
    } else if d == 8 {
        '8'
    } else {
        '9'
    }
}

/// A number in decimal, without sign, padding or leading zeros.
pub open spec fn decimal(n: nat) -> Seq<char>
    decreases n,
{
    if n < 10 {
        seq![digit(n)]
    } else {
        decimal(n / 10).push(digit(n % 10))
    }
}

/// The line for an entry: the cause's spelling, a colon, a space and the
/// count in decimal.
pub open spec fn line_of(entry: Entry) -> Seq<char> {
    entry.cause.spelling() + seq![':', ' '] + decimal(entry.count as nat)
}

/// The line of each entry, in the entries' order.
pub open spec fn lines_of(list: Seq<Entry>) -> Seq<Seq<char>> {
    list.map_values(|entry: Entry| line_of(entry))
}

fn digit_text(d: usize) -> (text: &'static str)
    requires
        d < 10,
    ensures
        text@ == seq![digit(d as nat)],
{
    proof {
        reveal_strlit("0");
        reveal_strlit("1");
        reveal_strlit("2");
        reveal_strlit("3");
        reveal_strlit("4");
        reveal_strlit("5");
        reveal_strlit("6");
        reveal_strlit("7");
        reveal_strlit("8");
        reveal_strlit("9");
    }
    let text = if d == 0 {
        "0"
    } else if d == 1 {
        "1"
    } else if d == 2 {
        "2"
    } else if d == 3 {
        "3"
    } else if d == 4 {
        "4"
    } else if d == 5 {
        "5"
    } else if d == 6 {
        "6"
    } else if d == 7 {
        "7"
    } else if d == 8 {
        "8"
    } else {
        "9"
    };
    assert(text@ =~= seq![digit(d as nat)]);
    text
}

/// Writes a number in decimal.
pub fn decimal_text(n: usize) -> (text: String)
    ensures
        text@ == decimal(n as nat),
{
    let mut text = String::from_str(digit_text(n % 10));
    let mut rest: usize = n / 10;
    while rest > 0
        invariant
            decimal(n as nat) == (if rest == 0 {
                text@
            } else {
                decimal(rest as nat) + text@
            }),
        decreases rest,
    {
        let ghost tail = text@;
        let ghost d = digit((rest % 10) as nat);
        text = String::from_str(digit_text(rest % 10)).concat(text.as_str());
        proof {
            assert(text@ =~= seq![d] + tail);
            if rest >= 10 {
                assert(decimal((rest / 10) as nat) + text@ =~= decimal((rest / 10) as nat).push(d)
                    + tail);
            }
        }
        rest = rest / 10;
    }
    text
}

/// Writes the line for one entry.
pub fn render_line(entry: &Entry) -> (text: String)
    ensures
        text@ == line_of(*entry),
{
    proof {
        reveal_strlit(": ");
    }
    let mut text = entry.cause.name();
    text.append(": ");
    let count = decimal_text(entry.count);
    text.append(count.as_str());
    assert(text@ =~= line_of(*entry));
    text
}

/// Writes a ranking, one line per entry, in the ranking's order.
pub fn render(list: &Vec<Entry>) -> (lines: Vec<String>)
    ensures
        texts(lines@) == lines_of(list@),
{
    let mut lines: Vec<String> = Vec::new();
    let mut i: usize = 0;
    while i < list.len()
        invariant
            i <= list@.len(),
            lines@.len() == i,
            forall|k: int| 0 <= k < i ==> (#[trigger] lines@[k])@ == line_of(list@[k]),
        decreases list@.len() - i,
    {
        let text = render_line(&list[i]);
        lines.push(text);
        i = i + 1;
    }
    assert(texts(lines@) =~= lines_of(list@));
    lines
}

} // verus!
