use vstd::prelude::*;

verus! {

/// The characters of `s`, one per element.
pub fn chars_of(s: &str) -> (r: Vec<char>)
    ensures
        r@ == s@,
{
    let mut r: Vec<char> = Vec::new();
    for c in it: s.chars()
        invariant
            r@ == it.seq().take(it.index() as int),
            it.seq() == s@,
    {
        r.push(c);
    }
    r
}

/// The characters of `s` from index `from` up to, not including, `to`.
pub fn sub_string(s: &str, from: usize, to: usize) -> (r: String)
    requires
        from <= to <= s@.len(),
    ensures
        r@ == s@.subrange(from as int, to as int),
{
    s.substring_char(from, to).to_owned()
}

/// What `str::to_uppercase` makes of a text.
pub uninterp spec fn uppercase_of(s: Seq<char>) -> Seq<char>;

/// Relies on `str::to_uppercase`: the upper-case mapping of the text, which
/// depends on its characters alone.
#[verifier::external_body]
pub(crate) fn uppercase(s: &str) -> (r: String)
    ensures
        r@ == uppercase_of(s@),
{
    s.to_uppercase()
}

/// What `StripMargin::strip_margin` makes of a text.
pub uninterp spec fn margin_stripped(s: Seq<char>) -> Seq<char>;

/// Relies on `stripmargin::StripMargin::strip_margin`: each line of the text
/// with the blanks before a leading `'|'`, and the `'|'`, removed. The result
/// depends on the text alone.
#[verifier::external_body]
pub(crate) fn strip_margin(s: &str) -> (r: String)
    ensures
        r@ == margin_stripped(s@),
{
    stripmargin::StripMargin::strip_margin(&s)
}

} // verus!
