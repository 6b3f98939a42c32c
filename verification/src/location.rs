//! Places in a text, and messages that show them.

use crate::document;
use crate::document::Diagnostic;
use crate::listing;
use crate::scan;
use crate::scan::{split, text_of};
use crate::text;
use crate::text::{chars_of, push_wide_decimal};
use vstd::prelude::*;
use vstd::utf8;

verus! {

/// The bytes of a text before an offset.
pub open spec fn before(bytes: Seq<u8>, offset: int) -> Seq<u8> {
    if offset < bytes.len() {
        bytes.take(offset)
    } else {
        bytes
    }
}

/// The number of the line that follows some bytes, which counts from one.
pub open spec fn line(bytes: Seq<u8>) -> int
    decreases bytes.len(),
{
    if bytes.len() == 0 {
        1
    } else if bytes.last() == 10 {
        line(bytes.drop_last()) + 1
    } else {
        line(bytes.drop_last())
    }
}

/// The number of the column that follows some bytes, which counts the bytes of a line from one.
pub open spec fn column(bytes: Seq<u8>) -> int
    decreases bytes.len(),
{
    if bytes.len() == 0 || bytes.last() == 10 {
        1
    } else {
        column(bytes.drop_last()) + 1
    }
}

/// The line and the column of an offset in a text.
pub fn locate(contents: &str, offset: usize) -> (r: (u128, u128))
    ensures
        r.0 == line(before(utf8::encode_utf8(contents@), offset as int)),
        r.1 == column(before(utf8::encode_utf8(contents@), offset as int)),
{
    let bytes: &[u8] = contents.as_bytes();
    let end: usize = if offset < bytes.len() { offset } else { bytes.len() };
    let mut at: u128 = 1;
    let mut across: u128 = 1;
    let mut i: usize = 0;
    assert(bytes@.take(0) =~= Seq::<u8>::empty());
    while i < end
        invariant
            i <= end <= bytes@.len(),
            at == line(bytes@.take(i as int)),
            across == column(bytes@.take(i as int)),
            1 <= at <= i + 1,
            1 <= across <= i + 1,
        decreases end - i,
    {
        proof {
            assert(bytes@.take(i + 1).drop_last() =~= bytes@.take(i as int));
            assert(bytes@.take(i + 1).last() == bytes@[i as int]);
        }
        if bytes[i] == 10 {
            at = at + 1;
            across = 1;
        } else {
            across = across + 1;
        }
        i = i + 1;
    }
    assert(bytes@.take(end as int) =~= before(bytes@, offset as int));
    (at, across)
}

/// A line of a text without its ending; an empty one where the text has no such line.
pub open spec fn line_text(contents: Seq<char>, n: int) -> Seq<char> {
    let all = scan::pieces(contents, '\n');
    if 1 <= n <= all.len() {
        let whole = all[n - 1];
        if n < all.len() && whole.len() > 0 && whole.last() == '\r' {
            whole.drop_last()
        } else {
            whole
        }
    } else {
        Seq::empty()
    }
}

fn copy_line(contents: &str, n: u128) -> (r: String)
    ensures
        r@ == line_text(contents@, n as int),
{
    let chars: Vec<char> = chars_of(contents);
    let all: Vec<Vec<char>> = split(&chars, '\n');
    assert(listing::each(all@).len() == all@.len());
    if n < 1 || n > all.len() as u128 {
        let r: String = String::new();
        assert(r@ =~= line_text(contents@, n as int));
        return r;
    }
    let i: usize = (n - 1) as usize;
    let ghost whole = listing::each(all@)[i as int];
    assert(whole == all@[i as int]@);
    let mut end: usize = all[i].len();
    if i + 1 < all.len() && end > 0 && all[i][end - 1] == '\r' {
        end = end - 1;
    }
    let kept: Vec<char> = scan::part_of(&all[i], 0, end);
    assert(kept@ =~= line_text(contents@, n as int));
    text_of(kept.as_slice())
}

/// A number of spaces.
pub open spec fn spaces(n: int) -> Seq<char> {
    Seq::new(
        if n < 0 {
            0
        } else {
            n as nat
        },
        |i: int| ' ',
    )
}

fn push_spaces(text: &mut String, n: u128)
    ensures
        final(text)@ == old(text)@ + spaces(n as int),
{
    let ghost start = text@;
    let mut i: u128 = 0;
    assert(start + spaces(0) =~= start);
    while i < n
        invariant
            i <= n,
            text@ == start + spaces(i as int),
        decreases n - i,
    {
        proof {
            reveal_strlit(" ");
        }
        text.append(" ");
        i = i + 1;
        assert(text@ =~= start + spaces(i as int));
    }
}

/// A number that takes up at least three characters.
pub open spec fn aligned(n: int) -> Seq<char> {
    spaces(3 - text::decimal(n).len()) + text::decimal(n)
}

fn push_aligned(text: &mut String, n: u128)
    ensures
        final(text)@ == old(text)@ + aligned(n as int),
{
    proof {
        reveal_with_fuel(text::decimal, 4);
        if n >= 1000 {
            assert(text::decimal(n as int).len() == text::decimal(n as int / 10).len() + 1);
            long_numbers(n as int / 10);
        }
    }
    let gap: u128 = if n < 10 {
        2
    } else if n < 100 {
        1
    } else {
        0
    };
    let ghost start = text@;
    push_spaces(text, gap);
    push_wide_decimal(text, n);
    assert(spaces(gap as int) =~= spaces(3 - text::decimal(n as int).len()));
    assert(text@ =~= start + aligned(n as int));
}

proof fn long_numbers(n: int)
    requires
        n >= 100,
    ensures
        text::decimal(n).len() >= 3,
    decreases n,
{
    reveal_with_fuel(text::decimal, 4);
    if n >= 1000 {
        long_numbers(n / 10);
    }
}

/// A message with the line of a text that it is about, and a mark under the column.
pub open spec fn located(message: Seq<char>, contents: Seq<char>, offset: int) -> Seq<char> {
    let prefix = before(utf8::encode_utf8(contents), offset);
    message + "\n  --> "@ + text::decimal(line(prefix)) + ":"@ + text::decimal(column(prefix))
        + "\n   |\n"@ + aligned(line(prefix)) + " | "@ + line_text(contents, line(prefix))
        + "\n   | "@ + spaces(column(prefix) - 1) + "^"@
}

/// A message with the line of a text that it is about, and a mark under the column.
pub fn locate_message(message: &str, contents: &str, offset: usize) -> (r: String)
    ensures
        r@ == located(message@, contents@, offset as int),
{
    let (at, across): (u128, u128) = locate(contents, offset);
    let mut r: String = message.to_owned();
    r.append("\n  --> ");
    push_wide_decimal(&mut r, at);
    r.append(":");
    push_wide_decimal(&mut r, across);
    r.append("\n   |\n");
    push_aligned(&mut r, at);
    r.append(" | ");
    r.append(copy_line(contents, at).as_str());
    r.append("\n   | ");
    proof {
        column_counts(before(utf8::encode_utf8(contents@), offset as int));
    }
    push_spaces(&mut r, across - 1);
    r.append("^");
    r
}

proof fn column_counts(bytes: Seq<u8>)
    ensures
        column(bytes) >= 1,
    decreases bytes.len(),
{
    if bytes.len() > 0 {
        column_counts(bytes.drop_last());
    }
}

/// A diagnostic with its place in the text.
pub open spec fn diagnosed(contents: Seq<char>, diagnostic: document::DiagnosticView) -> Seq<char> {
    let prefix = before(utf8::encode_utf8(contents), diagnostic.offset as int);
    diagnostic.message + " at "@ + text::decimal(line(prefix)) + ":"@ + text::decimal(
        column(prefix),
    )
}

/// The diagnostics of a text, one after the other.
pub open spec fn all_diagnosed(
    contents: Seq<char>,
    list: Seq<document::DiagnosticView>,
) -> Seq<char>
    decreases list.len(),
{
    if list.len() == 0 {
        Seq::empty()
    } else if list.len() == 1 {
        diagnosed(contents, list[0])
    } else {
        all_diagnosed(contents, list.drop_last()) + "; "@ + diagnosed(contents, list.last())
    }
}

fn diagnose(contents: &str, diagnostic: &Diagnostic) -> (r: String)
    ensures
        r@ == diagnosed(contents@, diagnostic@),
{
    let (at, across): (u128, u128) = locate(contents, diagnostic.offset);
    let mut r: String = diagnostic.message.clone();
    r.append(" at ");
    push_wide_decimal(&mut r, at);
    r.append(":");
    push_wide_decimal(&mut r, across);
    r
}

/// The diagnostics of a text, one after the other.
pub fn format_kdl_error(contents: &str, list: &Vec<Diagnostic>) -> (r: String)
    ensures
        r@ == all_diagnosed(contents@, listing::each(list@)),
{
    let ghost all = listing::each(list@);
    let mut r: String = String::new();
    let mut i: usize = 0;
    assert(r@ =~= all_diagnosed(contents@, all.take(0)));
    while i < list.len()
        invariant
            i <= list@.len(),
            all == listing::each(list@),
            r@ == all_diagnosed(contents@, all.take(i as int)),
        decreases list@.len() - i,
    {
        let next: String = diagnose(contents, &list[i]);
        proof {
            assert(all.take(i + 1).drop_last() =~= all.take(i as int));
            assert(all.take(i + 1).last() == list@[i as int]@);
        }
        if i == 0 {
            r = next;
        } else {
            r.append("; ");
            r.append(next.as_str());
        }
        i = i + 1;
    }
    assert(all.take(i as int) =~= all);
    r
}

} // verus!
