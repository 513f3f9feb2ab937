//! Saving a transcript: its file contents and the names its file may take.

use vstd::prelude::*;
use vstd::string::*;

use crate::dedupe::lines_view;
use crate::text::string_of;

verus! {

/// The decimal digit character for `d < 10`.
pub open spec fn digit_char(d: nat) -> char {
    ((d + 48) as u8) as char
}

/// The decimal representation of `n`, without leading zeros.
pub open spec fn decimal(n: nat) -> Seq<char>
    decreases n,
{
    if n < 10 {
        seq![digit_char(n)]
    } else {
        decimal(n / 10).push(digit_char(n % 10))
    }
}

fn push_decimal(n: u64, out: &mut Vec<char>)
    ensures
        final(out)@ == old(out)@ + decimal(n as nat),
    decreases n,
{
    if n >= 10 {
        push_decimal(n / 10, out);
    }
    let d: u8 = (n % 10) as u8;
    out.push((d + 48) as char);
}

/// The decimal representation of `n`.
pub fn decimal_string(n: u64) -> (r: String)
    ensures
        r@ == decimal(n as nat),
{
    let mut out: Vec<char> = Vec::new();
    push_decimal(n, &mut out);
    proof {
        assert(Seq::<char>::empty() + decimal(n as nat) == decimal(n as nat));
    }
    string_of(&out)
}

/// The file name for `name`'s transcript at attempt `k`: `name.txt` first,
/// then `name_1.txt`, `name_2.txt`, and so on.
pub open spec fn transcript_file(name: Seq<char>, k: nat) -> Seq<char> {
    if k == 0 {
        name + ".txt"@
    } else {
        name + "_"@ + decimal(k) + ".txt"@
    }
}

/// The file name tried at attempt `counter` when saving `name`'s transcript.
pub fn transcript_file_name(name: &str, counter: u64) -> (r: String)
    ensures
        r@ == transcript_file(name@, counter as nat),
{
    let base = String::from_str(name);
    if counter == 0 {
        base.concat(".txt")
    } else {
        let digits = decimal_string(counter);
        base.concat("_").concat(digits.as_str()).concat(".txt")
    }
}

/// `lines` joined with a line feed between each two.
pub open spec fn joined(lines: Seq<Seq<char>>) -> Seq<char>
    decreases lines.len(),
{
    if lines.len() == 0 {
        Seq::empty()
    } else if lines.len() == 1 {
        lines[0]
    } else {
        joined(lines.drop_last()) + "\n"@ + lines.last()
    }
}

/// The contents of a saved transcript: the lines joined by line feeds.
pub fn join_lines(lines: &Vec<String>) -> (r: String)
    ensures
        r@ == joined(lines_view(lines@)),
{
    let mut out = String::new();
    let mut i: usize = 0;
    while i < lines.len()
        invariant
            i <= lines@.len(),
            out@ == joined(lines_view(lines@.subrange(0, i as int))),
        decreases lines@.len() - i,
    {
        proof {
            let v = lines_view(lines@.subrange(0, i + 1));
            assert(v.drop_last() == lines_view(lines@.subrange(0, i as int)));
            assert(v.last() == lines@[i as int]@);
            if i == 0 {
                assert(v.len() == 1);
            }
        }
        if i > 0 {
            out.append("\n");
        }
        out.append(lines[i].as_str());
        i = i + 1;
    }
    proof {
        assert(lines@.subrange(0, lines@.len() as int) == lines@);
    }
    out
}

} // verus!
