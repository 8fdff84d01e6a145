//! The path data of SVG paths: shaped signal segments written as SVG path commands.
use vstd::prelude::*;

use crate::path::PathCommand;
use crate::text::push_char;

verus! {

/// The decimal digit for `d < 10`.
pub open spec fn digit_char(d: nat) -> char {
    ((d + '0' as u32) as u32) as char
}

/// The decimal digits of `n`.
pub open spec fn decimal_nat(n: nat) -> Seq<char>
    decreases n,
{
    if n < 10 {
        seq![digit_char(n)]
    } else {
        decimal_nat(n / 10).push(digit_char(n % 10))
    }
}

/// The decimal form of `n`, with a minus sign when it is negative.
pub open spec fn decimal(n: int) -> Seq<char> {
    if n < 0 {
        seq!['-'] + decimal_nat((-n) as nat)
    } else {
        decimal_nat(n as nat)
    }
}

/// Appends the decimal digits of `n` to `out`.
fn push_nat(out: &mut String, n: u64)
    ensures
        final(out)@ == old(out)@ + decimal_nat(n as nat),
    decreases n,
{
    if n >= 10 {
        push_nat(out, n / 10);
    }
    let d = (n % 10) as u32;
    push_char(out, char_of_digit(d));
    assert(out@ =~= old(out)@ + decimal_nat(n as nat));
}

/// The decimal digit for `d < 10`.
fn char_of_digit(d: u32) -> (r: char)
    requires
        d < 10,
    ensures
        r == digit_char(d as nat),
{
    ((d + '0' as u32) as u8) as char
}

/// Appends the decimal form of `n` to `out`.
pub fn push_decimal(out: &mut String, n: i64)
    ensures
        final(out)@ == old(out)@ + decimal(n as int),
{
    if n < 0 {
        push_char(out, '-');
        let m: u64 = if n == i64::MIN {
            0x8000_0000_0000_0000
        } else {
            (-n) as u64
        };
        push_nat(out, m);
        assert(out@ =~= old(out)@ + decimal(n as int));
    } else {
        push_nat(out, n as u64);
    }
}

/// The sign of `v`: -1, 0 or 1.
pub open spec fn sign(v: int) -> int {
    if v < 0 {
        -1
    } else if v > 0 {
        1
    } else {
        0
    }
}

/// A dashed horizontal line over `dx`, of which `done` units are drawn: dashes of four units
/// (`h`) alternating with gaps of four units (`m`), the last one cut short at the end.
pub open spec fn dashes(dx: int, done: int) -> Seq<char>
    decreases (if dx < 0 { -dx } else { dx }) - done,
{
    let len = if dx < 0 {
        -dx
    } else {
        dx
    };
    if done >= len || done < 0 {
        seq![]
    } else {
        let after_dash = if done + 4 < len {
            done + 4
        } else {
            len
        };
        let dash = seq!['h'] + decimal(sign(dx) * 4);
        if after_dash >= len {
            dash
        } else {
            let after_gap = if after_dash + 4 < len {
                after_dash + 4
            } else {
                len
            };
            dash + seq!['m'] + decimal(sign(dx) * 4) + seq![','] + decimal(0) + dashes(
                dx,
                after_gap,
            )
        }
    }
}

/// The path commands of `a`: relative moves (`v`, `h`, `l`, `c`) with their decimal arguments,
/// a dashed line as [`dashes`], and a vertical line without stroke as a plain vertical line when
/// `hidden_as_line` holds, or else as a move.
pub open spec fn command_string(a: PathCommand, hidden_as_line: bool) -> Seq<char> {
    match a {
        PathCommand::LineVerticalNoStroke(dy) => if hidden_as_line {
            seq!['v'] + decimal(dy as int)
        } else {
            seq!['m'] + decimal(0) + seq![','] + decimal(dy as int)
        },
        PathCommand::LineVertical(dy) => seq!['v'] + decimal(dy as int),
        PathCommand::LineHorizontal(dx) => seq!['h'] + decimal(dx as int),
        PathCommand::DashedLineHorizontal(dx) => dashes(dx as int, 0),
        PathCommand::Line(dx, dy) => seq!['l'] + decimal(dx as int) + seq![','] + decimal(
            dy as int,
        ),
        PathCommand::Curve(a, b, c, d, e, f) => seq!['c'] + decimal(a as int) + seq![',']
            + decimal(b as int) + seq![' '] + decimal(c as int) + seq![','] + decimal(d as int)
            + seq![' '] + decimal(e as int) + seq![','] + decimal(f as int),
    }
}

/// The path commands of `actions`, in order.
pub open spec fn commands_string(actions: Seq<PathCommand>, hidden_as_line: bool) -> Seq<char>
    decreases actions.len(),
{
    if actions.len() == 0 {
        seq![]
    } else {
        commands_string(actions.drop_last(), hidden_as_line) + command_string(
            actions.last(),
            hidden_as_line,
        )
    }
}

/// The path data of a segment at (`x`, `y`) with `actions`: a move to the start and the
/// commands, closed with `z` when `close` holds.
pub open spec fn path_data_string(
    x: int,
    y: int,
    actions: Seq<PathCommand>,
    hidden_as_line: bool,
    close: bool,
) -> Seq<char> {
    seq!['M'] + decimal(x) + seq![','] + decimal(y) + commands_string(actions, hidden_as_line) + if close {
        seq!['z']
    } else {
        seq![]
    }
}

/// Appends a dashed horizontal line over `dx` to `out` (see [`dashes`]).
fn push_dashes(out: &mut String, dx: i32)
    ensures
        final(out)@ == old(out)@ + dashes(dx as int, 0),
{
    let len: i64 = if dx < 0 {
        -(dx as i64)
    } else {
        dx as i64
    };
    let step: i64 = if dx < 0 {
        -4
    } else if dx > 0 {
        4
    } else {
        0
    };
    let ghost start = out@;
    let mut done: i64 = 0;
    while done < len
        invariant
            0 <= done <= len,
            len == if dx < 0 {
                -dx
            } else {
                dx as int
            },
            step == sign(dx as int) * 4,
            start + dashes(dx as int, 0) == out@ + dashes(dx as int, done as int),
        decreases len - done,
    {
        let ghost before = out@;
        push_char(out, 'h');
        push_decimal(out, step);
        let after_dash = if done + 4 < len {
            done + 4
        } else {
            len
        };
        if after_dash >= len {
            assert(out@ =~= before + dashes(dx as int, done as int));
            assert(dashes(dx as int, len as int) =~= Seq::<char>::empty());
            assert(out@ + dashes(dx as int, len as int) =~= out@);
            done = len;
        } else {
            push_char(out, 'm');
            push_decimal(out, step);
            push_char(out, ',');
            push_decimal(out, 0);
            let after_gap = if after_dash + 4 < len {
                after_dash + 4
            } else {
                len
            };
            assert(before + dashes(dx as int, done as int) =~= out@ + dashes(
                dx as int,
                after_gap as int,
            ));
            done = after_gap;
        }
    }
    assert(dashes(dx as int, done as int) =~= Seq::<char>::empty());
    assert(out@ + dashes(dx as int, done as int) =~= out@);
}

/// Appends the path commands of `a` to `out` (see [`command_string`]).
fn push_command(out: &mut String, a: PathCommand, hidden_as_line: bool)
    ensures
        final(out)@ == old(out)@ + command_string(a, hidden_as_line),
{
    let ghost start = out@;
    match a {
        PathCommand::LineVerticalNoStroke(dy) => {
            if hidden_as_line {
                push_char(out, 'v');
                push_decimal(out, dy as i64);
            } else {
                push_char(out, 'm');
                push_decimal(out, 0);
                push_char(out, ',');
                push_decimal(out, dy as i64);
            }
        },
        PathCommand::LineVertical(dy) => {
            push_char(out, 'v');
            push_decimal(out, dy as i64);
        },
        PathCommand::LineHorizontal(dx) => {
            push_char(out, 'h');
            push_decimal(out, dx as i64);
        },
        PathCommand::DashedLineHorizontal(dx) => {
            push_dashes(out, dx);
        },
        PathCommand::Line(dx, dy) => {
            push_char(out, 'l');
            push_decimal(out, dx as i64);
            push_char(out, ',');
            push_decimal(out, dy as i64);
        },
        PathCommand::Curve(a1, b1, c1, d1, e1, f1) => {
            push_char(out, 'c');
            push_decimal(out, a1 as i64);
            push_char(out, ',');
            push_decimal(out, b1 as i64);
            push_char(out, ' ');
            push_decimal(out, c1 as i64);
            push_char(out, ',');
            push_decimal(out, d1 as i64);
            push_char(out, ' ');
            push_decimal(out, e1 as i64);
            push_char(out, ',');
            push_decimal(out, f1 as i64);
        },
    }
    assert(out@ =~= start + command_string(a, hidden_as_line));
}

/// The path data of a segment at (`x`, `y`) with `actions` (see [`path_data_string`]). A
/// vertical line without stroke is written as a line where `hidden_as_line` holds (to fill the
/// segment) and as a move otherwise (to stroke it).
pub fn path_data(x: i32, y: i32, actions: &[PathCommand], hidden_as_line: bool, close: bool) -> (r:
    String)
    ensures
        r@ == path_data_string(x as int, y as int, actions@, hidden_as_line, close),
{
    let mut out = String::new();
    push_char(&mut out, 'M');
    push_decimal(&mut out, x as i64);
    push_char(&mut out, ',');
    push_decimal(&mut out, y as i64);
    let ghost head = out@;
    let mut i: usize = 0;
    while i < actions.len()
        invariant
            i <= actions@.len(),
            out@ == head + commands_string(actions@.subrange(0, i as int), hidden_as_line),
        decreases actions@.len() - i,
    {
        let ghost next = actions@.subrange(0, i + 1);
        assert(next.drop_last() =~= actions@.subrange(0, i as int));
        push_command(&mut out, actions[i], hidden_as_line);
        i = i + 1;
        assert(out@ =~= head + commands_string(actions@.subrange(0, i as int), hidden_as_line));
    }
    assert(actions@.subrange(0, actions@.len() as int) =~= actions@);
    if close {
        push_char(&mut out, 'z');
    }
    assert(out@ =~= path_data_string(x as int, y as int, actions@, hidden_as_line, close));
    out
}

} // verus!
