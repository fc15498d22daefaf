//! Text: lines, decimal numbers and the small edits that the other modules make.

use vstd::prelude::*;

verus! {

/// `String::push` appends one character.
pub assume_specification[ String::push ](s: &mut String, c: char)
    ensures
        final(s)@ == old(s)@.push(c),
;

/// `String::pop` removes the last character and gives it back; an empty text stays empty.
pub assume_specification[ String::pop ](s: &mut String) -> (c: Option<char>)
    ensures
        old(s)@.len() == 0 ==> c is None && final(s)@ == old(s)@,
        old(s)@.len() > 0 ==> c == Some(old(s)@.last()) && final(s)@ == old(s)@.drop_last(),
;

/// The first `n` characters, or all where there are fewer.
pub open spec fn first_chars(s: Seq<char>, n: nat) -> Seq<char> {
    if s.len() <= n {
        s
    } else {
        s.take(n as int)
    }
}

/// A text without the slashes at its end.
pub open spec fn trim_slashes(s: Seq<char>) -> Seq<char>
    decreases s.len(),
{
    if s.len() > 0 && s.last() == '/' {
        trim_slashes(s.drop_last())
    } else {
        s
    }
}

/// The digit of a number below ten.
pub open spec fn digit(d: nat) -> char {
    seq!['0', '1', '2', '3', '4', '5', '6', '7', '8', '9'][d as int]
}

/// A number in decimal.
pub open spec fn decimal(n: nat) -> Seq<char>
    decreases n,
{
    if n < 10 {
        seq![digit(n)]
    } else {
        decimal(n / 10).push(digit(n % 10))
    }
}

/// How many characters come before the first line feed, or in all where there is none.
pub open spec fn line_len(s: Seq<char>) -> nat
    decreases s.len(),
{
    if s.len() == 0 || s[0] == '\n' {
        0
    } else {
        1 + line_len(s.skip(1))
    }
}

/// A line without the carriage return at its end.
pub open spec fn strip_return(line: Seq<char>) -> Seq<char> {
    if line.len() > 0 && line.last() == '\r' {
        line.drop_last()
    } else {
        line
    }
}

/// The lines of a text. A line ends with a line feed, or with a carriage return and a line feed;
/// the end of the last line may be missing.
pub open spec fn lines(s: Seq<char>) -> Seq<Seq<char>>
    decreases s.len(),
{
    if s.len() == 0 {
        Seq::empty()
    } else if line_len(s) >= s.len() {
        seq![s]
    } else {
        seq![strip_return(s.take(line_len(s) as int))] + lines(s.skip(line_len(s) as int + 1))
    }
}

/// Texts joined with a line feed between each two.
pub open spec fn join_lines(parts: Seq<Seq<char>>) -> Seq<char>
    decreases parts.len(),
{
    if parts.len() == 0 {
        Seq::empty()
    } else if parts.len() == 1 {
        parts[0]
    } else {
        join_lines(parts.drop_last()).push('\n') + parts.last()
    }
}

/// Where two line feeds in a row first stand.
pub open spec fn blank_line(s: Seq<char>) -> Option<nat>
    decreases s.len(),
{
    if s.len() < 2 {
        None
    } else if s[0] == '\n' && s[1] == '\n' {
        Some(0)
    } else {
        match blank_line(s.skip(1)) {
            Some(n) => Some(n + 1),
            None => None,
        }
    }
}

/// The characters of a text.
pub fn chars_of(s: &str) -> (chars: Vec<char>)
    ensures
        chars@ == s@,
{
    let mut chars: Vec<char> = Vec::new();
    for c in it: s.chars()
        invariant
            it.seq() == s@,
            chars@ == s@.take(it.index()),
    {
        chars.push(c);
    }
    assert(s@.take(s@.len() as int) == s@);
    chars
}

/// The text of some characters in a row.
pub fn text_between(chars: &Vec<char>, from: usize, to: usize) -> (s: String)
    requires
        from <= to <= chars@.len(),
    ensures
        s@ == chars@.subrange(from as int, to as int),
{
    let mut s = String::new();
    for i in from..to
        invariant
            from <= to <= chars@.len(),
            s@ == chars@.subrange(from as int, i as int),
    {
        s.push(chars[i]);
    }
    s
}

/// The first `n` characters of a text.
pub fn take_chars(s: &str, n: usize) -> (out: String)
    ensures
        out@ == first_chars(s@, n as nat),
{
    let chars = chars_of(s);
    let end: usize = if chars.len() <= n {
        chars.len()
    } else {
        n
    };
    text_between(&chars, 0, end)
}

/// Takes the slashes off the end of a text.
pub fn without_slashes(s: &str) -> (out: String)
    ensures
        out@ == trim_slashes(s@),
{
    let chars = chars_of(s);
    let mut end: usize = chars.len();
    assert(chars@.take(end as int) =~= s@);
    while end > 0 && chars[end - 1] == '/'
        invariant
            end <= chars@.len(),
            chars@ == s@,
            trim_slashes(s@) == trim_slashes(chars@.take(end as int)),
        decreases end,
    {
        assert(chars@.take(end as int).drop_last() == chars@.take(end - 1));
        end = end - 1;
    }
    text_between(&chars, 0, end)
}

/// What follows a prefix.
pub fn after_prefix(s: &str, prefix: &str) -> (rest: Option<String>)
    ensures
        match rest {
            Some(t) => prefix@.is_prefix_of(s@) && t@ == s@.skip(prefix@.len() as int),
            None => !prefix@.is_prefix_of(s@),
        },
{
    let chars = chars_of(s);
    let wanted = chars_of(prefix);
    if chars.len() < wanted.len() {
        return None;
    }
    for i in 0..wanted.len()
        invariant
            chars@ == s@,
            wanted@ == prefix@,
            wanted@.len() <= chars@.len(),
            forall|j: int| 0 <= j < i ==> chars@[j] == wanted@[j],
    {
        if chars[i] != wanted[i] {
            assert(s@.subrange(0, prefix@.len() as int)[i as int] != prefix@[i as int]);
            return None;
        }
    }
    assert(prefix@ =~= s@.subrange(0, prefix@.len() as int));
    Some(text_between(&chars, wanted.len(), chars.len()))
}

fn digit_of(d: u64) -> (c: char)
    requires
        d < 10,
    ensures
        c == digit(d as nat),
{
    match d {
        0 => '0',
        1 => '1',
        2 => '2',
        3 => '3',
        4 => '4',
        5 => '5',
        6 => '6',
        7 => '7',
        8 => '8',
        _ => '9',
    }
}

/// Appends a number in decimal.
pub fn push_decimal(out: &mut String, n: u64)
    ensures
        final(out)@ == old(out)@ + decimal(n as nat),
    decreases n,
{
    if n >= 10 {
        push_decimal(out, n / 10);
    }
    out.push(digit_of(n % 10));
}

proof fn lemma_line_len(s: Seq<char>)
    ensures
        line_len(s) <= s.len(),
        forall|i: int| 0 <= i < line_len(s) ==> s[i] != '\n',
        line_len(s) < s.len() ==> s[line_len(s) as int] == '\n',
    decreases s.len(),
{
    if s.len() > 0 && s[0] != '\n' {
        let rest = s.skip(1);
        lemma_line_len(rest);
        assert forall|i: int| 0 <= i < line_len(s) implies s[i] != '\n' by {
            if i > 0 {
                assert(rest[i - 1] == s[i]);
            }
        }
    }
}

/// A count of characters before a line feed that none of them is: the first line's length.
pub proof fn lemma_line_len_unique(s: Seq<char>, n: int)
    requires
        0 <= n <= s.len(),
        forall|i: int| 0 <= i < n ==> s[i] != '\n',
        n < s.len() ==> s[n] == '\n',
    ensures
        line_len(s) == n,
{
    lemma_line_len(s);
    let m = line_len(s) as int;
    if m < n {
        assert(s[m] != '\n');
    } else if n < m {
        assert(s[n] != '\n');
    }
}

/// Splits a text into its lines.
pub fn split_lines(s: &str) -> (out: Vec<String>)
    ensures
        out.deep_view() == lines(s@),
{
    let chars = chars_of(s);
    let mut out: Vec<String> = Vec::new();
    let mut start: usize = 0;
    assert(chars@.skip(0) == s@);
    assert(out.deep_view() + lines(s@) =~= lines(s@));
    while start < chars.len()
        invariant
            start <= chars@.len(),
            chars@ == s@,
            out.deep_view() + lines(chars@.skip(start as int)) == lines(s@),
        decreases chars@.len() - start,
    {
        let ghost rest = chars@.skip(start as int);
        let ghost before = out.deep_view();
        let mut end: usize = start;
        while end < chars.len() && chars[end] != '\n'
            invariant
                start <= end <= chars@.len(),
                forall|i: int| start <= i < end ==> chars@[i] != '\n',
            decreases chars@.len() - end,
        {
            end = end + 1;
        }
        proof {
            assert forall|i: int| 0 <= i < end - start implies rest[i] != '\n' by {
                assert(rest[i] == chars@[start + i]);
            }
            lemma_line_len_unique(rest, end - start);
        }
        if end == chars.len() {
            out.push(text_between(&chars, start, end));
            proof {
                assert(chars@.subrange(start as int, end as int) =~= rest);
                assert(chars@.skip(end as int) =~= Seq::<char>::empty());
                assert(out.deep_view() =~= before + seq![rest]);
                assert(lines(chars@.skip(end as int)) =~= Seq::<Seq<char>>::empty());
                assert(out.deep_view() + lines(chars@.skip(end as int)) =~= before + lines(rest));
            }
            start = end;
        } else {
            let stop: usize = if end > start && chars[end - 1] == '\r' {
                end - 1
            } else {
                end
            };
            out.push(text_between(&chars, start, stop));
            proof {
                let line = rest.take(end - start);
                assert(chars@.subrange(start as int, stop as int) =~= strip_return(line));
                assert(out.deep_view() =~= before + seq![strip_return(line)]);
                assert(rest.skip(end - start + 1) =~= chars@.skip(end + 1));
                assert(out.deep_view() + lines(chars@.skip(end + 1)) =~= before + lines(rest));
            }
            start = end + 1;
        }
    }
    proof {
        assert(chars@.skip(start as int) =~= Seq::<char>::empty());
        assert(out.deep_view() + lines(chars@.skip(start as int)) =~= out.deep_view());
    }
    out
}

/// Joins texts with a line feed between each two.
pub fn join(parts: &Vec<String>) -> (out: String)
    ensures
        out@ == join_lines(parts.deep_view()),
{
    let mut out = String::new();
    let ghost all = parts.deep_view();
    for i in 0..parts.len()
        invariant
            all == parts.deep_view(),
            out@ == join_lines(all.take(i as int)),
    {
        assert(all.take(i + 1).drop_last() =~= all.take(i as int));
        if i > 0 {
            out.push('\n');
        }
        out.append(parts[i].as_str());
        assert(out@ =~= join_lines(all.take(i + 1)));
    }
    assert(all.take(all.len() as int) =~= all);
    out
}

/// What [`blank_line`] gives, without recursion.
pub proof fn lemma_blank_line(s: Seq<char>)
    ensures
        match blank_line(s) {
            Some(n) => {
                &&& n + 1 < s.len()
                &&& s[n as int] == '\n'
                &&& s[n as int + 1] == '\n'
                &&& forall|i: int| 0 <= i < n ==> !(#[trigger] s[i] == '\n' && s[i + 1] == '\n')
            },
            None => forall|i: int|
                0 <= i < s.len() - 1 ==> !(#[trigger] s[i] == '\n' && s[i + 1] == '\n'),
        },
    decreases s.len(),
{
    if s.len() >= 2 && !(s[0] == '\n' && s[1] == '\n') {
        let rest = s.skip(1);
        lemma_blank_line(rest);
        match blank_line(rest) {
            Some(n) => {
                assert(rest[n as int] == s[n as int + 1]);
                assert forall|i: int| 0 <= i < n + 1 implies !(#[trigger] s[i] == '\n' && s[i + 1]
                    == '\n') by {
                    if i > 0 {
                        assert(rest[i - 1] == s[i]);
                        assert(rest[i] == s[i + 1]);
                    }
                }
            },
            None => {
                assert forall|i: int| 0 <= i < s.len() - 1 implies !(#[trigger] s[i] == '\n' && s[i
                    + 1] == '\n') by {
                    if i > 0 {
                        assert(rest[i - 1] == s[i]);
                        assert(rest[i] == s[i + 1]);
                    }
                }
            },
        }
    }
}

/// A place of two line feeds before which there is none is what [`blank_line`] gives.
pub proof fn lemma_blank_line_first(s: Seq<char>, n: int)
    requires
        0 <= n < s.len() - 1,
        s[n] == '\n',
        s[n + 1] == '\n',
        forall|i: int| 0 <= i < n ==> !(#[trigger] s[i] == '\n' && s[i + 1] == '\n'),
    ensures
        blank_line(s) == Some(n as nat),
{
    lemma_blank_line(s);
    match blank_line(s) {
        Some(m) => {
            if m < n {
                assert(s[m as int] == '\n' && s[m as int + 1] == '\n');
            } else if n < m {
                assert(s[n] == '\n' && s[n + 1] == '\n');
            }
        },
        None => {
            assert(s[n] == '\n' && s[n + 1] == '\n');
        },
    }
}

/// Finds the first two line feeds in a row.
pub fn find_blank_line(chars: &Vec<char>) -> (at: Option<usize>)
    ensures
        match at {
            Some(n) => blank_line(chars@) == Some(n as nat) && n + 1 < chars@.len(),
            None => blank_line(chars@) is None,
        },
{
    let mut i: usize = 0;
    while i < chars.len() && chars.len() - i >= 2
        invariant
            i <= chars@.len(),
            forall|j: int|
                0 <= j < i && j < chars@.len() - 1 ==> !(#[trigger] chars@[j] == '\n' && chars@[j + 1]
                    == '\n'),
        decreases chars@.len() - i,
    {
        if chars[i] == '\n' && chars[i + 1] == '\n' {
            proof {
                lemma_blank_line_first(chars@, i as int);
            }
            return Some(i);
        }
        i = i + 1;
    }
    proof {
        lemma_blank_line(chars@);
        if blank_line(chars@) is Some {
            let n = blank_line(chars@)->0 as int;
            assert(chars@[n] == '\n' && chars@[n + 1] == '\n');
        }
    }
    None
}

} // verus!
