//! The texts that events and error messages are made of.

use vstd::prelude::*;

verus! {

/// The decimal digits of `n`, most significant first, without leading zeros.
pub open spec fn decimal(n: nat) -> Seq<char>
    decreases n,
{
    if n < 10 {
        seq!["0123456789"@[n as int]]
    } else {
        decimal(n / 10).push("0123456789"@[(n % 10) as int])
    }
}

/// The parts one after the other, with `separator` between neighbours.
pub open spec fn joined(parts: Seq<Seq<char>>, separator: Seq<char>) -> Seq<char>
    decreases parts.len(),
{
    if parts.len() == 0 {
        seq![]
    } else if parts.len() == 1 {
        parts[0]
    } else {
        joined(parts.drop_last(), separator) + separator + parts.last()
    }
}

/// The contents of each string of a sequence.
pub open spec fn texts(strings: Seq<String>) -> Seq<Seq<char>> {
    strings.map_values(|s: String| s@)
}

/// The text that `{:?}` writes for a string: between double quotes, with the
/// characters escaped that the standard library escapes there.
pub uninterp spec fn quoted(s: Seq<char>) -> Seq<char>;

/// The quoted form of each string of a sequence.
pub open spec fn all_quoted(strings: Seq<Seq<char>>) -> Seq<Seq<char>> {
    strings.map_values(|s: Seq<char>| quoted(s))
}

/// A list as `{:?}` writes it, given what `{:?}` writes for each item.
pub open spec fn listed(items: Seq<Seq<char>>) -> Seq<char> {
    "["@ + joined(items, ", "@) + "]"@
}

/// Writes `n` in decimal.
pub fn decimal_text(n: usize) -> (text: String)
    ensures
        text@ == decimal(n as nat),
    decreases n,
{
    let digits: &str = "0123456789";
    proof {
        reveal_strlit("0123456789");
    }
    let last: usize = n % 10;
    let digit: &str = digits.substring_char(last, last + 1);
    if n < 10 {
        String::from_str(digit)
    } else {
        let mut text = decimal_text(n / 10);
        text.append(digit);
        text
    }
}

/// Writes the parts one after the other, with `separator` between neighbours.
pub fn join(parts: &[String], separator: &str) -> (text: String)
    ensures
        text@ == joined(texts(parts@), separator@),
{
    let mut text = String::new();
    let mut i: usize = 0;
    while i < parts.len()
        invariant
            i <= parts.len(),
            text@ == joined(texts(parts@).take(i as int), separator@),
        decreases parts.len() - i,
    {
        let ghost done = texts(parts@).take(i as int);
        let ghost more = texts(parts@).take(i + 1);
        assert(more.drop_last() == done);
        assert(more.last() == parts@[i as int]@);
        if i > 0 {
            text.append(separator);
        }
        text.append(parts[i].as_str());
        i = i + 1;
    }
    assert(texts(parts@).take(i as int) == texts(parts@));
    text
}

/// Quotes `s`.
///
/// This is `std`'s `Debug` for `str`, reached through `format!`. The contract
/// claims that its text depends on the characters of `s` alone, and names it;
/// which characters are escaped, and how, is left to `std`.
#[verifier::external_body]
pub(crate) fn quote(s: &str) -> (text: String)
    ensures
        text@ == quoted(s@),
{
    format!("{:?}", s)
}

/// Quotes each string of a list.
pub fn quote_all(strings: &[String]) -> (items: Vec<String>)
    ensures
        texts(items@) == all_quoted(texts(strings@)),
{
    let mut items: Vec<String> = Vec::new();
    let mut i: usize = 0;
    while i < strings.len()
        invariant
            i <= strings.len(),
            items@.len() == i,
            forall|j: int| 0 <= j < i ==> (#[trigger] items@[j])@ == quoted(strings@[j]@),
        decreases strings.len() - i,
    {
        items.push(quote(strings[i].as_str()));
        i = i + 1;
    }
    assert(texts(items@) =~= all_quoted(texts(strings@)));
    items
}

/// Writes a list, given the text of each item.
pub fn list(items: &[String]) -> (text: String)
    ensures
        text@ == listed(texts(items@)),
{
    let mut text = String::from_str("[");
    text.append(join(items, ", ").as_str());
    text.append("]");
    text
}

} // verus!
