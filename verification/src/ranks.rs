//! What a leaderboard is written with: places, written out as `  1st`,
//! ` 22nd`, `113th`, and lines packed into the fields of a message.

use vstd::prelude::*;
use crate::symbols::digit_char;

verus! {

/// The decimal digits of a number.
pub open spec fn decimal_text(n: nat) -> Seq<char>
    decreases n,
{
    if n < 10 {
        seq![digit_char(n as int)]
    } else {
        decimal_text(n / 10) + seq![digit_char((n % 10) as int)]
    }
}

/// The ending of an ordinal number: `th` for the teens of every hundred,
/// else `st`, `nd` and `rd` after a last digit of 1, 2 and 3, and `th` after
/// every other.
pub open spec fn ordinal_ending(rank: nat) -> Seq<char> {
    if (rank / 10) % 10 == 1 {
        "th"@
    } else if rank % 10 == 1 {
        "st"@
    } else if rank % 10 == 2 {
        "nd"@
    } else if rank % 10 == 3 {
        "rd"@
    } else {
        "th"@
    }
}

/// `count` spaces.
pub open spec fn blanks(count: nat) -> Seq<char>
    decreases count,
{
    if count == 0 {
        Seq::empty()
    } else {
        blanks((count - 1) as nat) + " "@
    }
}

/// The text, with blanks before it where it is shorter than `width`.
pub open spec fn right_aligned(text: Seq<char>, width: nat) -> Seq<char> {
    if text.len() >= width {
        text
    } else {
        blanks((width - text.len()) as nat) + text
    }
}

/// A rank as it is written on a leaderboard: the number, right-aligned in
/// three columns, and its ordinal ending.
pub open spec fn rank_text(rank: nat) -> Seq<char> {
    right_aligned(decimal_text(rank), 3) + ordinal_ending(rank)
}

fn digit_str(digit: usize) -> (text: &'static str)
    requires
        digit < 10,
    ensures
        text@ == seq![digit_char(digit as int)],
{
    proof {
        reveal_strlit("0");
        reveal_strlit("1");
        reveal_strlit("2");
        reveal_strlit("3");
        reveal_strlit("4");
        reveal_strlit("5");
        reveal_strlit("6");
        reveal_strlit("7");
        reveal_strlit("8");
        reveal_strlit("9");
    }
    let text: &'static str = if digit == 0 {
        "0"
    } else if digit == 1 {
        "1"
    } else if digit == 2 {
        "2"
    } else if digit == 3 {
        "3"
    } else if digit == 4 {
        "4"
    } else if digit == 5 {
        "5"
    } else if digit == 6 {
        "6"
    } else if digit == 7 {
        "7"
    } else if digit == 8 {
        "8"
    } else {
        "9"
    };
    assert(text@ =~= seq![digit_char(digit as int)]);
    text
}

/// The number in decimal digits.
pub fn decimal(n: usize) -> (text: String)
    ensures
        text@ == decimal_text(n as nat),
    decreases n,
{
    if n < 10 {
        String::from_str(digit_str(n))
    } else {
        let mut text: String = decimal(n / 10);
        text.append(digit_str(n % 10));
        text
    }
}

/// Writes out a rank.
pub fn rank_string(rank: usize) -> (text: String)
    ensures
        text@ == rank_text(rank as nat),
{
    let suffix: &'static str = if (rank / 10) % 10 == 1 {
        "th"
    } else if rank % 10 == 1 {
        "st"
    } else if rank % 10 == 2 {
        "nd"
    } else if rank % 10 == 3 {
        "rd"
    } else {
        "th"
    };
    let digits: String = decimal(rank);
    let len: usize = digits.as_str().unicode_len();
    let mut text: String = String::new();
    let mut pad: usize = len;
    while pad < 3
        invariant
            len <= pad,
            len < 3 ==> pad <= 3,
            len >= 3 ==> pad == len,
            text@ == blanks((pad - len) as nat),
        decreases 3 - pad,
    {
        text.append(" ");
        assert(text@ =~= blanks((pad + 1 - len) as nat));
        pad = pad + 1;
    }
    assert(suffix@ == ordinal_ending(rank as nat));
    assert(text@ + digits@ =~= right_aligned(decimal_text(rank as nat), 3)) by {
        if len >= 3 {
            assert(pad == len);
            assert(text@ =~= Seq::<char>::empty());
        } else {
            assert(pad == 3);
        }
    }
    text.append(digits.as_str());
    text.append(suffix);
    assert(text@ =~= rank_text(rank as nat));
    text
}

/// The most bytes that one field of a message holds.
pub const FIELD_LIMIT: usize = 2000;

/// The number of bytes that a text takes.
pub open spec fn byte_len(text: Seq<char>) -> usize {
    vstd::utf8::encode_utf8(text).len() as usize
}

/// The fields after the first `upto` parts: those that are closed, and the
/// one that is still open. A part that would make the open field longer than
/// `FIELD_LIMIT` closes it and begins the next one.
pub open spec fn packed(parts: Seq<Seq<char>>, upto: nat) -> (Seq<Seq<char>>, Seq<char>)
    decreases upto,
{
    if upto == 0 {
        (Seq::empty(), Seq::empty())
    } else {
        let before = packed(parts, (upto - 1) as nat);
        let part = parts[upto - 1];
        if byte_len(before.1) + byte_len(part) > FIELD_LIMIT {
            (before.0.push(before.1), part)
        } else {
            (before.0, before.1 + part)
        }
    }
}

/// The parts packed into fields: the closed fields, then the open one unless
/// it is empty; and the default alone where that leaves no field.
pub open spec fn fields_of(parts: Seq<Seq<char>>, default: Seq<char>) -> Seq<Seq<char>> {
    let last = packed(parts, parts.len());
    let all = if last.1.len() > 0 {
        last.0.push(last.1)
    } else {
        last.0
    };
    if all.len() == 0 {
        seq![default]
    } else {
        all
    }
}

/// The texts that strings hold.
pub open spec fn texts(strings: Seq<String>) -> Seq<Seq<char>> {
    Seq::new(strings.len(), |i: int| strings[i]@)
}

/// Concatenates a list of strings into larger strings, none of them longer
/// than a field of a message may be unless a single part is.
pub fn split_into_fields(parts: &Vec<String>, default: &str) -> (fields: Vec<String>)
    ensures
        texts(fields@) == fields_of(texts(parts@), default@),
        fields@.len() > 0,
        parts@.len() == 0 ==> fields@.len() == 1 && fields@[0]@ == default@,
{
    let mut fields: Vec<String> = Vec::new();
    let mut field: String = String::new();
    let mut i: usize = 0;
    while i < parts.len()
        invariant
            i <= parts@.len(),
            texts(fields@) == packed(texts(parts@), i as nat).0,
            field@ == packed(texts(parts@), i as nat).1,
        decreases parts.len() - i,
    {
        let part: &str = parts[i].as_str();
        assert(texts(parts@)[i as int] == part@);
        let part_len: usize = part.len();
        let field_len: usize = field.as_str().len();
        assert(part_len == byte_len(part@) && field_len == byte_len(field@));
        if part_len > FIELD_LIMIT || field_len > FIELD_LIMIT - part_len {
            let ghost closed = texts(fields@);
            fields.push(field);
            assert(texts(fields@) =~= closed.push(field@));
            field = String::new();
        }
        let ghost open = field@;
        field.append(part);
        assert(field@ =~= open + part@);
        assert(Seq::<char>::empty() + part@ =~= part@);
        i = i + 1;
    }
    if !field.as_str().is_empty() {
        let ghost closed = texts(fields@);
        fields.push(field);
        assert(texts(fields@) =~= closed.push(field@));
    }
    if fields.len() == 0 {
        fields.push(String::from_str(default));
        assert(texts(fields@) =~= seq![default@]);
    }
    assert(texts(fields@).len() == fields@.len());
    fields
}

} // verus!
