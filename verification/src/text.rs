use vstd::prelude::*;

verus! {

/// Appends one character to a string.
///
/// Trusted: calls `String::push`, which std documents as appending the
/// given `char` to the end of the string.
#[verifier::external_body]
pub(crate) fn push_char(s: &mut String, c: char)
    ensures
        final(s)@ == old(s)@.push(c),
{
    s.push(c);
}

/// Name for what `str::to_lowercase` returns: the lowercase equivalent of a
/// string as defined by the Unicode `Lowercase` property.
pub uninterp spec fn spec_to_lowercase(s: Seq<char>) -> Seq<char>;

/// The ASCII lowercase form of a character: `A`..`Z` become `a`..`z`,
/// everything else is kept.
pub open spec fn ascii_lower(c: char) -> char {
    if 'A' <= c <= 'Z' {
        ((c as u32) + 32) as char
    } else {
        c
    }
}

/// The ASCII lowercase form of a text.
pub open spec fn ascii_lowercase(s: Seq<char>) -> Seq<char> {
    s.map_values(|c: char| ascii_lower(c))
}

/// Whether every character of a text is ASCII.
pub open spec fn all_ascii(s: Seq<char>) -> bool {
    forall|i: int| 0 <= i < s.len() ==> (s[i] as u32) < 128
}

/// Returns the lowercase form of a string.
///
/// Trusted: calls `str::to_lowercase`; the result depends on the argument
/// alone and is named by `spec_to_lowercase`. On ASCII text the Unicode
/// lowercase mapping turns `A`..`Z` into `a`..`z` and keeps every other
/// character, which the second clause states.
#[verifier::external_body]
pub(crate) fn to_lowercase(s: &str) -> (r: String)
    ensures
        r@ == spec_to_lowercase(s@),
        all_ascii(s@) ==> r@ == ascii_lowercase(s@),
{
    s.to_lowercase()
}

/// The decimal digit character for a number below ten.
pub open spec fn digit_char(d: nat) -> char
    recommends
        d < 10,
{
    ((d + 48) as u8) as char
}

/// The decimal representation of a natural number, without leading zeros.
pub open spec fn decimal(n: nat) -> Seq<char>
    decreases n,
{
    if n < 10 {
        seq![digit_char(n)]
    } else {
        decimal(n / 10).push(digit_char(n % 10))
    }
}

fn digit(d: u64) -> (c: char)
    requires
        d < 10,
    ensures
        c == digit_char(d as nat),
{
    if d == 0 {
        '0'
    } else if d == 1 {
        '1'
    } else if d == 2 {
        '2'
    } else if d == 3 {
        '3'
    } else if d == 4 {
        '4'
    } else if d == 5 {
        '5'
    } else if d == 6 {
        '6'
    } else if d == 7 {
        '7'
    } else if d == 8 {
        '8'
    } else {
        '9'
    }
}

/// Appends the decimal representation of `n` to `s`.
pub fn push_decimal(s: &mut String, n: u64)
    ensures
        final(s)@ == old(s)@ + decimal(n as nat),
    decreases n,
{
    if n >= 10 {
        push_decimal(s, n / 10);
    }
    push_char(s, digit(n % 10));
    proof {
        if n >= 10 {
            assert(decimal(n as nat) == decimal((n / 10) as nat).push(digit_char((n % 10) as nat)));
        }
    }
}

/// Appends a string slice to `s`.
pub fn push_str(s: &mut String, t: &str)
    ensures
        final(s)@ == old(s)@ + t@,
{
    s.append(t);
}

/// A text cut into lines of at most `width` characters, at most
/// `max_lines` of them: each line but the last of the text holds exactly
/// `width` characters.
pub open spec fn chunks(s: Seq<char>, width: nat, max_lines: nat) -> Seq<Seq<char>>
    decreases max_lines,
{
    if s.len() == 0 || max_lines == 0 || width == 0 {
        Seq::empty()
    } else if s.len() <= width {
        seq![s]
    } else {
        seq![s.take(width as int)] + chunks(s.skip(width as int), width, (max_lines - 1) as nat)
    }
}

/// Cuts a text into lines of at most `line_chars` characters, keeping at
/// most `max_lines` lines.
pub fn split_lines(text: &str, line_chars: usize, max_lines: usize) -> (r: Vec<String>)
    requires
        line_chars > 0,
    ensures
        r@.map_values(|l: String| l@) == chunks(text@, line_chars as nat, max_lines as nat),
{
    let n = text.unicode_len();
    let ghost whole = chunks(text@, line_chars as nat, max_lines as nat);
    let mut lines: Vec<String> = Vec::new();
    let mut start: usize = 0;
    proof {
        assert(text@.skip(0) =~= text@);
        assert(lines@.map_values(|l: String| l@) =~= Seq::<Seq<char>>::empty());
        assert(Seq::<Seq<char>>::empty() + whole =~= whole);
    }
    while start < n && lines.len() < max_lines
        invariant
            n == text@.len(),
            line_chars > 0,
            start <= n,
            lines.len() <= max_lines,
            whole == chunks(text@, line_chars as nat, max_lines as nat),
            lines@.map_values(|l: String| l@) + chunks(
                text@.skip(start as int),
                line_chars as nat,
                (max_lines - lines.len()) as nat,
            ) == whole,
        decreases n - start,
    {
        let end = if n - start <= line_chars {
            n
        } else {
            start + line_chars
        };
        let mut line = String::new();
        let mut j: usize = start;
        while j < end
            invariant
                n == text@.len(),
                start <= j <= end <= n,
                line@ == text@.subrange(start as int, j as int),
            decreases end - j,
        {
            push_char(&mut line, text.get_char(j));
            j = j + 1;
            proof {
                assert(line@ =~= text@.subrange(start as int, j as int));
            }
        }
        let ghost rest = text@.skip(start as int);
        let ghost old_lines = lines@.map_values(|l: String| l@);
        proof {
            if n - start <= line_chars {
                assert(line@ =~= rest);
                assert(text@.skip(end as int) =~= Seq::<char>::empty());
            } else {
                assert(line@ =~= rest.take(line_chars as int));
                assert(rest.skip(line_chars as int) =~= text@.skip(end as int));
            }
        }
        lines.push(line);
        start = end;
        proof {
            assert(lines@.map_values(|l: String| l@) =~= old_lines.push(line@));
            let tail = chunks(text@.skip(start as int), line_chars as nat, (max_lines - lines.len()) as nat);
            if start == n {
                assert(tail =~= Seq::<Seq<char>>::empty());
            }
            assert(old_lines.push(line@) + tail =~= old_lines + (seq![line@] + tail));
        }
    }
    proof {
        let tail = chunks(text@.skip(start as int), line_chars as nat, (max_lines - lines.len()) as nat);
        if start >= n {
            assert(text@.skip(start as int).len() == 0);
        }
        assert(tail =~= Seq::<Seq<char>>::empty());
        assert(lines@.map_values(|l: String| l@) + tail =~= lines@.map_values(|l: String| l@));
    }
    lines
}

} // verus!
