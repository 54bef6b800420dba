//! Small text building blocks: decimal numbers, padding and joining.

use vstd::prelude::*;

verus! {

/// The contents of a sequence of strings, in order.
pub open spec fn string_views(texts: Seq<String>) -> Seq<Seq<char>> {
    texts.map_values(|text: String| text@)
}

/// `count` blanks.
pub open spec fn blanks(count: nat) -> Seq<char> {
    Seq::new(count, |i: int| ' ')
}

/// `text` filled up with blanks on the right to `width` characters; a text
/// that is already that long is left as it is.
pub open spec fn padded(text: Seq<char>, width: nat) -> Seq<char> {
    if text.len() >= width {
        text
    } else {
        text + blanks((width - text.len()) as nat)
    }
}

/// What separates two columns of a line.
pub open spec fn column_gap() -> Seq<char> {
    seq![' ', ' ']
}

/// The cells of a line put one after the other with a gap between
/// neighbours.
pub open spec fn joined(cells: Seq<Seq<char>>) -> Seq<char>
    decreases cells.len(),
{
    if cells.len() == 0 {
        Seq::empty()
    } else if cells.len() == 1 {
        cells[0]
    } else {
        joined(cells.drop_last()) + column_gap() + cells.last()
    }
}

/// The character that stands for a value below ten.
pub open spec fn digit(value: nat) -> char {
    if value == 0 {
        '0'
    } else if value == 1 {
        '1'
    } else if value == 2 {
        '2'
    } else if value == 3 {
        '3'
    } else if value == 4 {
        '4'
    } else if value == 5 {
        '5'
    } else if value == 6 {
        '6'
    } else if value == 7 {
        '7'
    } else if value == 8 {
        '8'
    } else {
        '9'
    }
}

/// A number written in base ten, without leading zeros.
pub open spec fn decimal(value: nat) -> Seq<char>
    decreases value,
{
    if value < 10 {
        seq![digit(value)]
    } else {
        decimal(value / 10).push(digit(value % 10))
    }
}

/// Fills `text` up with blanks on the right to `width` characters.
pub fn pad(text: &str, width: usize) -> (out: String)
    ensures
        out@ == padded(text@, width as nat),
{
    let mut out = String::from_str(text);
    let mut length: usize = text.unicode_len();
    proof {
        reveal_strlit(" ");
        assert(out@ =~= text@ + blanks(0));
    }
    while length < width
        invariant
            text@.len() <= length,
            text@.len() < width ==> length <= width,
            text@.len() >= width ==> length == text@.len(),
            out@ == text@ + blanks((length - text@.len()) as nat),
            " "@ == seq![' '],
        decreases width - length,
    {
        out.append(" ");
        length += 1;
        assert(out@ =~= text@ + blanks((length - text@.len()) as nat));
    }
    assert(text@ + blanks(0) =~= text@);
    out
}

/// Puts the cells of a line one after the other, two blanks between
/// neighbours.
pub fn join_columns(cells: &Vec<String>) -> (line: String)
    ensures
        line@ == joined(string_views(cells@)),
{
    let mut line = String::new();
    let mut i: usize = 0;
    proof {
        reveal_strlit("  ");
        assert(string_views(cells@).take(0) =~= Seq::<Seq<char>>::empty());
    }
    while i < cells.len()
        invariant
            i <= cells.len(),
            line@ == joined(string_views(cells@).take(i as int)),
            "  "@ == column_gap(),
        decreases cells.len() - i,
    {
        let ghost seen = string_views(cells@).take(i as int);
        let ghost next = string_views(cells@).take(i + 1);
        proof {
            assert(next.drop_last() =~= seen);
            assert(next.last() == cells[i as int]@);
        }
        if i > 0 {
            line.append("  ");
        }
        line.append(cells[i].as_str());
        proof {
            if i == 0 {
                assert(line@ =~= cells[i as int]@);
            }
        }
        i += 1;
    }
    assert(string_views(cells@).take(cells.len() as int) =~= string_views(cells@));
    line
}

/// The text of a digit.
fn digit_text(value: u64) -> (text: &'static str)
    requires
        value < 10,
    ensures
        text@ == seq![digit(value as nat)],
{
    proof {
        reveal_strlit("0");
        reveal_strlit("1");
        reveal_strlit("2");
        reveal_strlit("3");
        reveal_strlit("4");
        reveal_strlit("5");
        reveal_strlit("6");
        reveal_strlit("7");
        reveal_strlit("8");
        reveal_strlit("9");
    }
    let text = if value == 0 {
        "0"
    } else if value == 1 {
        "1"
    } else if value == 2 {
        "2"
    } else if value == 3 {
        "3"
    } else if value == 4 {
        "4"
    } else if value == 5 {
        "5"
    } else if value == 6 {
        "6"
    } else if value == 7 {
        "7"
    } else if value == 8 {
        "8"
    } else {
        "9"
    };
    assert(text@ =~= seq![digit(value as nat)]);
    text
}

/// Writes a number in base ten.
pub fn to_decimal(value: u64) -> (text: String)
    ensures
        text@ == decimal(value as nat),
{
    let mut text = String::from_str(digit_text(value % 10));
    let mut rest: u64 = value / 10;
    while rest > 0
        invariant
            decimal(value as nat) == if rest == 0 {
                text@
            } else {
                decimal(rest as nat) + text@
            },
        decreases rest,
    {
        let mut longer = String::from_str(digit_text(rest % 10));
        longer.append(text.as_str());
        proof {
            if rest >= 10 {
                assert(decimal(rest as nat) + text@ =~= decimal((rest / 10) as nat) + longer@);
            } else {
                assert(decimal(rest as nat) + text@ =~= longer@);
            }
        }
        text = longer;
        rest = rest / 10;
    }
    text
}

} // verus!
