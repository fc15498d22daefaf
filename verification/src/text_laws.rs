//! What holds of texts, their lines and their numbers.

use vstd::prelude::*;

use crate::text::{
    blank_line, decimal, digit, first_chars, join_lines, lemma_blank_line, lemma_line_len_unique,
    lines, trim_slashes,
};

verus! {

/// The number that digits write, the first digit weighing most.
pub open spec fn number_written(digits: Seq<char>) -> int
    decreases digits.len(),
{
    if digits.len() == 0 {
        0
    } else {
        number_written(digits.drop_last()) * 10 + (digits.last() as int - '0' as int)
    }
}

/// A number in decimal is made of digits that write that number, without zeros in front.
pub proof fn law_decimal_digits_write_the_number(n: nat)
    ensures
        number_written(decimal(n)) == n,
        decimal(n).len() > 0,
        forall|i: int|
            0 <= i < decimal(n).len() ==> '0' as int <= #[trigger] decimal(n)[i] as int <= '9' as int,
        decimal(n).len() > 1 ==> decimal(n)[0] != '0',
        n > 0 ==> decimal(n)[0] != '0',
    decreases n,
{
    reveal_with_fuel(number_written, 2);
    let low = n % 10;
    assert('0' as int <= digit(low) as int <= '9' as int && digit(low) as int - '0' as int == low);
    if n < 10 {
        assert(decimal(n).drop_last() =~= Seq::<char>::empty());
        assert(number_written(decimal(n)) == digit(n) as int - '0' as int);
    } else {
        law_decimal_digits_write_the_number(n / 10);
        assert(decimal(n).drop_last() =~= decimal(n / 10));
        assert(decimal(n)[0] == decimal(n / 10)[0]);
    }
}

/// The first characters of a text are a beginning of it, as long as was asked for or as the text.
pub proof fn law_first_characters(s: Seq<char>, n: nat)
    ensures
        first_chars(s, n).len() == (if n < s.len() {
            n
        } else {
            s.len()
        }),
        forall|i: int| 0 <= i < first_chars(s, n).len() ==> #[trigger] first_chars(s, n)[i] == s[i],
{
}

/// A text without the slashes at its end is a beginning of the text, does not end with a slash,
/// and only slashes follow it.
pub proof fn law_slashes_are_taken_off(s: Seq<char>)
    ensures
        trim_slashes(s).len() <= s.len(),
        forall|i: int| 0 <= i < trim_slashes(s).len() ==> #[trigger] trim_slashes(s)[i] == s[i],
        forall|i: int| trim_slashes(s).len() <= i < s.len() ==> #[trigger] s[i] == '/',
        trim_slashes(s).len() > 0 ==> trim_slashes(s).last() != '/',
    decreases s.len(),
{
    if s.len() > 0 && s.last() == '/' {
        let front = s.drop_last();
        law_slashes_are_taken_off(front);
        assert forall|i: int| trim_slashes(s).len() <= i < s.len() implies #[trigger] s[i] == '/' by {
            if i < front.len() {
                assert(front[i] == '/');
            }
        }
        assert forall|i: int| 0 <= i < trim_slashes(s).len() implies #[trigger] trim_slashes(s)[i]
            == s[i] by {
            assert(trim_slashes(front)[i] == front[i]);
        }
    }
}

/// Two line feeds in a row are found where they first stand, and nowhere if they stand nowhere.
pub proof fn law_where_a_blank_line_is(s: Seq<char>, n: nat)
    ensures
        blank_line(s) == Some(n) <==> {
            &&& n + 1 < s.len()
            &&& s[n as int] == '\n'
            &&& s[n as int + 1] == '\n'
            &&& forall|i: int| 0 <= i < n ==> !(#[trigger] s[i] == '\n' && s[i + 1] == '\n')
        },
        blank_line(s) is None <==> (forall|i: int|
            0 <= i < s.len() - 1 ==> !(#[trigger] s[i] == '\n' && s[i + 1] == '\n')),
{
    lemma_blank_line(s);
    if blank_line(s) is Some {
        let m = blank_line(s)->0;
        assert(s[m as int] == '\n' && s[m as int + 1] == '\n');
        if n + 1 < s.len() && s[n as int] == '\n' && s[n as int + 1] == '\n' {
            if n < m {
                assert(s[n as int] == '\n');
            }
        }
    } else if n + 1 < s.len() {
        assert(!(s[n as int] == '\n' && s[n as int + 1] == '\n'));
    }
}

/// Whether no line feed stands in a text.
pub open spec fn on_one_line(s: Seq<char>) -> bool {
    forall|i: int| 0 <= i < s.len() ==> #[trigger] s[i] != '\n'
}

/// A text without a line feed is one line, and no line if it is empty. A line feed ends a line and
/// is not in it, nor is a carriage return right before it; the lines after it are those of the
/// text after it.
pub proof fn law_a_line_feed_ends_a_line(line: Seq<char>, rest: Seq<char>)
    requires
        on_one_line(line),
    ensures
        line.len() == 0 ==> lines(line).len() == 0,
        line.len() > 0 ==> lines(line) == seq![line],
        ({
            let all = lines(line.push('\n') + rest);
            &&& all.len() == lines(rest).len() + 1
            &&& forall|i: int| 0 <= i < lines(rest).len() ==> all[i + 1] == #[trigger] lines(rest)[i]
            &&& line.len() > 0 && line.last() == '\r' ==> all[0].push('\r') == line
            &&& line.len() == 0 || line.last() != '\r' ==> all[0] == line
        }),
{
    lemma_line_len_unique(line, line.len() as int);
    let whole = line.push('\n') + rest;
    let n = line.len() as int;
    assert forall|i: int| 0 <= i < n implies whole[i] != '\n' by {
        assert(line[i] != '\n');
    }
    assert(whole[n] == '\n');
    lemma_line_len_unique(whole, n);
    assert(whole.take(n) =~= line);
    assert(whole.skip(n + 1) =~= rest);
    if n > 0 && line.last() == '\r' {
        assert(line.drop_last().push('\r') =~= line);
    }
}

/// Joined texts: one text alone is itself, and two lists that are joined have a line feed between
/// them.
pub proof fn law_joining(first: Seq<Seq<char>>, second: Seq<Seq<char>>)
    ensures
        first.len() == 0 ==> join_lines(first).len() == 0,
        first.len() == 1 ==> join_lines(first) == first[0],
        first.len() > 0 && second.len() > 0 ==> join_lines(first + second) == join_lines(
            first,
        ).push('\n') + join_lines(second),
    decreases second.len(),
{
    if first.len() > 0 && second.len() > 0 {
        let all = first + second;
        assert(all.drop_last() =~= first + second.drop_last());
        assert(all.last() == second.last());
        if second.len() == 1 {
            assert(all.drop_last() =~= first);
        } else {
            law_joining(first, second.drop_last());
            assert(join_lines(all) =~= join_lines(first).push('\n') + join_lines(second));
        }
    }
}

} // verus!
