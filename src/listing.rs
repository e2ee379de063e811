use vstd::prelude::*;
use vstd::string::*;

use crate::workspace::Workspace;

verus! {

/// The character of a decimal digit.
pub open spec fn digit_char(d: nat) -> char {
    "0123456789"@[d as int]
}

/// Decimal digits of `n`, most significant first, with no leading zero.
pub open spec fn digits(n: nat) -> Seq<char>
    decreases n,
{
    if n < 10 {
        seq![digit_char(n)]
    } else {
        digits(n / 10).push(digit_char(n % 10))
    }
}

/// Decimal text of an integer, with a minus sign when it is negative.
pub open spec fn decimal(n: int) -> Seq<char> {
    if n < 0 {
        "-"@ + digits((-n) as nat)
    } else {
        digits(n as nat)
    }
}

/// `s` right-aligned in a field of `width` characters.
pub open spec fn pad_left(s: Seq<char>, width: nat) -> Seq<char> {
    if s.len() < width {
        Seq::new((width - s.len()) as nat, |_i: int| ' ') + s
    } else {
        s
    }
}

/// Field width of a workspace listing: the length of the last workspace's
/// number, or one for an empty snapshot.
pub open spec fn listing_width(s: Seq<Workspace>) -> nat {
    if s.len() == 0 {
        1
    } else {
        decimal(s.last().num as int).len()
    }
}

/// One line of a workspace listing: number and name, each right-aligned.
pub open spec fn listing_line(w: Workspace, width: nat) -> Seq<char> {
    pad_left(decimal(w.num as int), width) + " "@ + pad_left(w.name@, width)
}

/// Appends the decimal digits of `m` to `out`.
fn push_digits(m: u32, out: &mut String)
    ensures
        final(out)@ == old(out)@ + digits(m as nat),
    decreases m,
{
    proof {
        reveal_strlit("0123456789");
    }
    if m >= 10 {
        push_digits(m / 10, out);
    }
    let d = (m % 10) as usize;
    let digit = "0123456789".substring_char(d, d + 1);
    assert(digit@ =~= seq![digit_char(d as nat)]);
    out.append(digit);
    assert(final(out)@ =~= old(out)@ + digits(m as nat));
}

/// Decimal text of `n`.
pub fn decimal_string(n: i32) -> (r: String)
    ensures
        r@ == decimal(n as int),
{
    if n < 0 {
        let mut text = String::from_str("-");
        let magnitude = (0i64 - n as i64) as u32;
        push_digits(magnitude, &mut text);
        text
    } else {
        let mut text = String::new();
        push_digits(n as u32, &mut text);
        proof {
            assert(text@ =~= digits(n as nat));
        }
        text
    }
}

/// `s` right-aligned in a field of `width` characters.
pub fn pad_left_string(s: &str, width: usize) -> (r: String)
    ensures
        r@ == pad_left(s@, width as nat),
{
    let len = s.unicode_len();
    let mut text = String::new();
    if len < width {
        let mut i: usize = 0;
        while i < width - len
            invariant
                len < width,
                i <= width - len,
                text@ == Seq::new(i as nat, |_i: int| ' '),
            decreases width - len - i,
        {
            proof {
                reveal_strlit(" ");
            }
            text.append(" ");
            i = i + 1;
            assert(text@ =~= Seq::new(i as nat, |_i: int| ' '));
        }
    }
    text.append(s);
    proof {
        if len >= width {
            assert(text@ =~= s@);
        }
    }
    text
}

/// The lines of a workspace listing, one for each workspace of the snapshot
/// in snapshot order: number and name, each right-aligned to the width of the
/// last workspace's number.
pub fn workspace_listing(workspaces: &Vec<Workspace>) -> (r: Vec<String>)
    ensures
        r@.len() == workspaces@.len(),
        forall|i: int|
            0 <= i < r@.len() ==> (#[trigger] r@[i])@ == listing_line(
                workspaces@[i],
                listing_width(workspaces@),
            ),
{
    let width: usize = if workspaces.len() == 0 {
        1
    } else {
        let last = decimal_string(workspaces[workspaces.len() - 1].num);
        last.as_str().unicode_len()
    };
    let mut lines: Vec<String> = Vec::new();
    let mut i: usize = 0;
    while i < workspaces.len()
        invariant
            i <= workspaces.len(),
            width as nat == listing_width(workspaces@),
            lines@.len() == i,
            forall|j: int|
                0 <= j < i ==> (#[trigger] lines@[j])@ == listing_line(
                    workspaces@[j],
                    listing_width(workspaces@),
                ),
        decreases workspaces.len() - i,
    {
        let num = decimal_string(workspaces[i].num);
        let mut line = pad_left_string(num.as_str(), width);
        line.append(" ");
        let name = pad_left_string(workspaces[i].name.as_str(), width);
        line.append(name.as_str());
        lines.push(line);
        i = i + 1;
    }
    lines
}

} // verus!
