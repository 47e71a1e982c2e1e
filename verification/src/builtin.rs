//! The builtin commands' own results: quitting, the version line, and the
//! numbered history listing.
use vstd::prelude::*;

use crate::status::Returns;
use crate::text::{decimal, digits_value, is_digit, law_decimal, push_decimal};

verus! {

/// `exit`: asks the shell to quit.
pub fn exit() -> (r: Returns)
    ensures
        r == Returns::ExitSig,
{
    Returns::ExitSig
}

/// The line that `ver` prints.
pub fn version_text() -> (r: String)
    ensures
        r@ == "version: 0.2.3"@,
{
    String::from_str("version: 0.2.3")
}

/// The line that `history` prints for the entry at 0-based position `i`:
/// its 1-based number, a colon and a space, then the entry.
pub open spec fn history_line(i: int, entry: Seq<char>) -> Seq<char> {
    decimal((i + 1) as nat) + ": "@ + entry
}

/// The line for the entry at position `i` is a decimal number without leading
/// zeros that equals `i + 1`, then `: `, then the entry itself.
pub proof fn law_history_line(i: nat, entry: Seq<char>)
    ensures
        exists|d: Seq<char>|
            #![trigger digits_value(d)]
            history_line(i as int, entry) == d + ": "@ + entry && d.len() > 0 && digits_value(d)
                == i + 1 && (forall|k: int| 0 <= k < d.len() ==> is_digit(#[trigger] d[k])) && (
            d.len() > 1 ==> d[0] != '0'),
{
    law_decimal((i + 1) as nat);
    let d = decimal((i + 1) as nat);
    assert(history_line(i as int, entry) == d + ": "@ + entry);
    assert(digits_value(d) == i + 1);
}

/// The lines that `history` prints for the remembered entries, oldest first.
pub fn history_lines(entries: &Vec<String>) -> (r: Vec<String>)
    ensures
        r.len() == entries.len(),
        forall|i: int| 0 <= i < r.len() ==> (#[trigger] r@[i])@ == history_line(i, entries@[i]@),
{
    let mut out: Vec<String> = Vec::new();
    let mut i: usize = 0;
    while i < entries.len()
        invariant
            i <= entries.len(),
            out.len() == i,
            forall|k: int| 0 <= k < i ==> (#[trigger] out@[k])@ == history_line(k, entries@[k]@),
        decreases entries.len() - i,
    {
        let mut line = String::new();
        push_decimal(&mut line, (i as u64) + 1);
        let line = line.concat(": ").concat(entries[i].as_str());
        assert(line@ =~= history_line(i as int, entries@[i as int]@));
        out.push(line);
        i = i + 1;
    }
    out
}

} // verus!
