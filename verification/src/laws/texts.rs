//! Laws of texts: white space, places, numbers and fenced blocks.
use vstd::prelude::*;
use vstd::string::*;
use crate::fence::{inner_block, whole_block};
use crate::text::{
    decimal, digit, first_place, hexadecimal, is_white, last_place, stands_at, trim_end, trim_start,
    trimmed,
};

verus! {

/// Which characters are white space: the control characters from tab to carriage return, the
/// space, and what Unicode has beyond those that fit in seven bits.
pub proof fn white_space(c: char)
    ensures
        is_white(c) <==> seq![
            0x9u32,
            0xa,
            0xb,
            0xc,
            0xd,
            0x20,
            0x85,
            0xa0,
            0x1680,
            0x2000,
            0x2001,
            0x2002,
            0x2003,
            0x2004,
            0x2005,
            0x2006,
            0x2007,
            0x2008,
            0x2009,
            0x200a,
            0x2028,
            0x2029,
            0x202f,
            0x205f,
            0x3000,
        ].contains(c as u32),
        0x21 <= c as u32 <= 0x7e ==> !is_white(c),
{
    let all = seq![
        0x9u32,
        0xa,
        0xb,
        0xc,
        0xd,
        0x20,
        0x85,
        0xa0,
        0x1680,
        0x2000,
        0x2001,
        0x2002,
        0x2003,
        0x2004,
        0x2005,
        0x2006,
        0x2007,
        0x2008,
        0x2009,
        0x200a,
        0x2028,
        0x2029,
        0x202f,
        0x205f,
        0x3000,
    ];
    let n = c as u32;
    assert(all.len() == 25);
    if 0x9 <= n <= 0xd {
        assert(all[n - 0x9] == n);
    }
    if 0x2000 <= n <= 0x200a {
        assert(all[n - 0x2000 + 9] == n);
    }
    assert(all[5] == 0x20 && all[6] == 0x85 && all[7] == 0xa0 && all[8] == 0x1680);
    assert(all[20] == 0x2028 && all[21] == 0x2029 && all[22] == 0x202f && all[23] == 0x205f);
    assert(all[24] == 0x3000);
}

/// A text without white space at its ends is the text from its first to its last character that is
/// none: nothing but white space was before and behind it. A text of white space alone is empty.
pub proof fn trimming_takes_white_space(s: Seq<char>)
    ensures
        exists|i: int, j: int|
            {
                &&& 0 <= i <= j <= s.len()
                &&& trimmed(s) == #[trigger] s.subrange(i, j)
                &&& forall|k: int| 0 <= k < i || j <= k < s.len() ==> is_white(#[trigger] s[k])
                &&& i < j ==> !is_white(s[i]) && !is_white(s[j - 1])
            },
{
    lemma_start(s);
    let i = choose|i: int|
        0 <= i <= s.len() && trim_start(s) == #[trigger] s.subrange(i, s.len() as int) && (forall|
            k: int,
        |
            0 <= k < i ==> is_white(#[trigger] s[k])) && (i < s.len() ==> !is_white(s[i]));
    let t = trim_start(s);
    lemma_end(t);
    let j = choose|j: int|
        0 <= j <= t.len() && trim_end(t) == #[trigger] t.subrange(0, j) && (forall|k: int|
            j <= k < t.len() ==> is_white(#[trigger] t[k])) && (0 < j ==> !is_white(t[j - 1]));
    assert(t.subrange(0, j) =~= s.subrange(i, i + j));
    assert forall|k: int| 0 <= k < i || i + j <= k < s.len() implies is_white(#[trigger] s[k]) by {
        if k >= i {
            assert(t[k - i] == s[k]);
        }
    }
    if j > 0 {
        assert(t[j - 1] == s[i + j - 1]);
    }
}

proof fn lemma_start(s: Seq<char>)
    ensures
        exists|i: int|
            0 <= i <= s.len() && trim_start(s) == #[trigger] s.subrange(i, s.len() as int) && (
            forall|k: int| 0 <= k < i ==> is_white(#[trigger] s[k])) && (i < s.len() ==> !is_white(
                s[i],
            )),
    decreases s.len(),
{
    if s.len() > 0 && is_white(s.first()) {
        let t = s.drop_first();
        lemma_start(t);
        let i = choose|i: int|
            0 <= i <= t.len() && trim_start(t) == #[trigger] t.subrange(i, t.len() as int) && (
            forall|k: int| 0 <= k < i ==> is_white(#[trigger] t[k])) && (i < t.len() ==> !is_white(
                t[i],
            ));
        assert(t.subrange(i, t.len() as int) =~= s.subrange(i + 1, s.len() as int));
        assert forall|k: int| 0 <= k < i + 1 implies is_white(#[trigger] s[k]) by {
            if k > 0 {
                assert(t[k - 1] == s[k]);
            }
        }
    } else {
        assert(s.subrange(0, s.len() as int) =~= s);
    }
}

proof fn lemma_end(s: Seq<char>)
    ensures
        exists|j: int|
            0 <= j <= s.len() && trim_end(s) == #[trigger] s.subrange(0, j) && (forall|k: int|
                j <= k < s.len() ==> is_white(#[trigger] s[k])) && (0 < j ==> !is_white(s[j - 1])),
    decreases s.len(),
{
    if s.len() > 0 && is_white(s.last()) {
        let t = s.drop_last();
        lemma_end(t);
        let j = choose|j: int|
            0 <= j <= t.len() && trim_end(t) == #[trigger] t.subrange(0, j) && (forall|k: int|
                j <= k < t.len() ==> is_white(#[trigger] t[k])) && (0 < j ==> !is_white(t[j - 1]));
        assert(t.subrange(0, j) =~= s.subrange(0, j));
        assert forall|k: int| j <= k < s.len() implies is_white(#[trigger] s[k]) by {
            if k < t.len() {
                assert(t[k] == s[k]);
            }
        }
    } else {
        assert(s.subrange(0, s.len() as int) =~= s);
    }
}

/// A text stands at a place of another where it fits there and agrees with it character by
/// character.
pub proof fn standing_is_agreeing(hay: Seq<char>, needle: Seq<char>, i: int)
    ensures
        stands_at(hay, needle, i) <==> (0 <= i && i + needle.len() <= hay.len() && forall|k: int|
            0 <= k < needle.len() ==> #[trigger] needle[k] == hay[i + k]),
{
    if 0 <= i && i + needle.len() <= hay.len() {
        let here = hay.subrange(i, i + needle.len());
        if stands_at(hay, needle, i) {
            assert forall|k: int| 0 <= k < needle.len() implies #[trigger] needle[k]
                == hay[i + k] by {
                assert(here[k] == hay[i + k]);
            }
        } else if forall|k: int| 0 <= k < needle.len() ==> #[trigger] needle[k] == hay[i + k] {
            assert(here =~= needle);
        }
    }
}

/// The first place is one at which the text stands, and it stands at none before; there is none
/// exactly where the text stands nowhere.
pub proof fn first_places_are_first(hay: Seq<char>, needle: Seq<char>, from: int)
    requires
        from >= 0,
    ensures
        match first_place(hay, needle, from) {
            Some(i) => from <= i && stands_at(hay, needle, i) && forall|j: int|
                from <= j < i ==> !stands_at(hay, needle, j),
            None => forall|j: int| from <= j ==> !stands_at(hay, needle, j),
        },
    decreases hay.len() - from + 1,
{
    if from + needle.len() <= hay.len() && !stands_at(hay, needle, from) {
        first_places_are_first(hay, needle, from + 1);
    }
}

/// The last place is one at which the text stands, and it stands at none behind; there is none
/// exactly where the text stands nowhere.
pub proof fn last_places_are_last(hay: Seq<char>, needle: Seq<char>, upto: int)
    ensures
        match last_place(hay, needle, upto) {
            Some(i) => 0 <= i <= upto && stands_at(hay, needle, i) && forall|j: int|
                i < j <= upto ==> !stands_at(hay, needle, j),
            None => forall|j: int| j <= upto ==> !stands_at(hay, needle, j),
        },
    decreases upto + 1,
{
    if upto >= 0 && !stands_at(hay, needle, upto) {
        last_places_are_last(hay, needle, upto - 1);
    }
}

/// The number that a character stands for as a digit.
pub open spec fn digit_value(c: char) -> int {
    if '0' <= c <= '9' {
        c as int - '0' as int
    } else {
        c as int - 'a' as int + 10
    }
}

/// The number that digits stand for, to a base.
pub open spec fn read_number(digits: Seq<char>, base: int) -> int
    decreases digits.len(),
{
    if digits.len() == 0 {
        0
    } else {
        read_number(digits.drop_last(), base) * base + digit_value(digits.last())
    }
}

proof fn lemma_digit_value(d: nat)
    requires
        d < 16,
    ensures
        digit_value(digit(d)) == d,
        d < 10 ==> '0' <= digit(d) <= '9',
        d >= 10 ==> 'a' <= digit(d) <= 'f',
{
}

/// A number in decimal consists of decimal digits, has no zero before it, and reads as the number.
pub proof fn decimals_read_back(n: nat)
    ensures
        decimal(n).len() > 0,
        forall|i: int| 0 <= i < decimal(n).len() ==> '0' <= #[trigger] decimal(n)[i] <= '9',
        n > 0 ==> decimal(n)[0] != '0',
        read_number(decimal(n), 10) == n,
    decreases n,
{
    lemma_digit_value(n % 10);
    if n < 10 {
        lemma_digit_value(n);
        let one = decimal(n);
        assert(one.drop_last() =~= Seq::<char>::empty());
        assert(one.last() == digit(n));
        reveal_with_fuel(read_number, 2);
        if n > 0 {
            assert(digit_value('0') == 0);
        }
    } else {
        decimals_read_back(n / 10);
        let d = decimal(n);
        assert(d.drop_last() =~= decimal(n / 10));
        assert(d.last() == digit(n % 10));
        assert forall|i: int| 0 <= i < d.len() implies '0' <= #[trigger] d[i] <= '9' by {
            if i < d.len() - 1 {
                assert(d[i] == decimal(n / 10)[i]);
            }
        }
    }
}

/// A number in hexadecimal consists of hexadecimal digits in lower case, has no zero before it,
/// and reads as the number.
pub proof fn hexadecimals_read_back(n: nat)
    ensures
        hexadecimal(n).len() > 0,
        forall|i: int|
            0 <= i < hexadecimal(n).len() ==> ('0' <= #[trigger] hexadecimal(n)[i] <= '9' || 'a'
                <= hexadecimal(n)[i] <= 'f'),
        n > 0 ==> hexadecimal(n)[0] != '0',
        read_number(hexadecimal(n), 16) == n,
    decreases n,
{
    lemma_digit_value(n % 16);
    if n < 16 {
        lemma_digit_value(n);
        let one = hexadecimal(n);
        assert(one.drop_last() =~= Seq::<char>::empty());
        assert(one.last() == digit(n));
        reveal_with_fuel(read_number, 2);
        if n > 0 {
            assert(digit_value('0') == 0);
        }
    } else {
        hexadecimals_read_back(n / 16);
        let d = hexadecimal(n);
        assert(d.drop_last() =~= hexadecimal(n / 16));
        assert(d.last() == digit(n % 16));
        assert forall|i: int| 0 <= i < d.len() implies ('0' <= #[trigger] d[i] <= '9' || 'a' <= d[i]
            <= 'f') by {
            if i < d.len() - 1 {
                assert(d[i] == hexadecimal(n / 16)[i]);
            }
        }
    }
}

proof fn lemma_first_is(hay: Seq<char>, needle: Seq<char>, from: int, i: int)
    requires
        0 <= from <= i,
        stands_at(hay, needle, i),
        forall|j: int| from <= j < i ==> !stands_at(hay, needle, j),
    ensures
        first_place(hay, needle, from) == Some(i),
{
    first_places_are_first(hay, needle, from);
}

proof fn lemma_last_is(hay: Seq<char>, needle: Seq<char>, upto: int, i: int)
    requires
        0 <= i <= upto,
        stands_at(hay, needle, i),
        forall|j: int| i < j <= upto ==> !stands_at(hay, needle, j),
    ensures
        last_place(hay, needle, upto) == Some(i),
{
    last_places_are_last(hay, needle, upto);
}

/// A text that is a fenced block, whatever its first line says behind the fence, is what stands on
/// the lines between, up to the last fence, without white space at its ends.
pub proof fn blocks_are_what_stands_between(line: Seq<char>, body: Seq<char>)
    requires
        forall|i: int| 0 <= i < line.len() ==> #[trigger] line[i] != '\n',
    ensures
        whole_block("```"@ + line + "\n"@ + body + "```"@) == Some(trimmed(body)),
{
    reveal_strlit("```json");
    reveal_strlit("```");
    reveal_strlit("\n");
    let s = "```"@ + line + "\n"@ + body + "```"@;
    let n = line.len() as int;
    let end = 4 + n + body.len() as int;
    assert(s.len() == end + 3);
    assert(s[0] == '`' && s[1] == '`' && s[2] == '`');
    assert(s.last() == '`');
    assert(trimmed(s) == s);
    standing_is_agreeing(s, "```"@, 0);
    assert(stands_at(s, "```"@, 0));
    standing_is_agreeing(s, "\n"@, 3 + n);
    assert(stands_at(s, "\n"@, 3 + n));
    assert forall|j: int| 0 <= j < 3 + n implies !stands_at(s, "\n"@, j) by {
        standing_is_agreeing(s, "\n"@, j);
        if j >= 3 {
            assert(s[j] == line[j - 3]);
        }
        assert("\n"@[0] == '\n');
    }
    lemma_first_is(s, "\n"@, 0, 3 + n);
    standing_is_agreeing(s, "```"@, end);
    assert(stands_at(s, "```"@, end));
    lemma_last_is(s, "```"@, s.len() as int, end);
    assert(s.subrange(4 + n, end) =~= body);
}

proof fn lemma_one_line(opening: Seq<char>, body: Seq<char>)
    requires
        opening == "```json"@ || opening == "```"@,
        forall|i: int| 0 <= i < body.len() ==> #[trigger] body[i] != '\n',
    ensures
        ({
            let s = opening + body + "```"@;
            let end = (opening.len() + body.len()) as int;
            &&& trimmed(s) == s
            &&& stands_at(s, opening, 0)
            &&& first_place(s, "\n"@, 0) is None
            &&& last_place(s, "```"@, s.len() as int) == Some(end)
            &&& s.subrange(opening.len() as int, end) == body
        }),
{
    reveal_strlit("```json");
    reveal_strlit("```");
    reveal_strlit("\n");
    let s = opening + body + "```"@;
    let end = (opening.len() + body.len()) as int;
    assert(s[0] == '`' && s.last() == '`');
    standing_is_agreeing(s, opening, 0);
    assert forall|j: int| 0 <= j implies !stands_at(s, "\n"@, j) by {
        standing_is_agreeing(s, "\n"@, j);
        assert("\n"@[0] == '\n');
        if j < opening.len() {
            assert(s[j] == opening[j]);
        } else if j < end {
            assert(s[j] == body[j - opening.len()]);
        } else if j < end + 3 {
            assert(s[j] == "```"@[j - end]);
        }
    }
    first_places_are_first(s, "\n"@, 0);
    standing_is_agreeing(s, "```"@, end);
    lemma_last_is(s, "```"@, s.len() as int, end);
    assert(s.subrange(opening.len() as int, end) =~= body);
}

/// A fenced block on one line is what stands between the fences, without the mark.
pub proof fn blocks_on_one_line(body: Seq<char>)
    requires
        forall|i: int| 0 <= i < body.len() ==> #[trigger] body[i] != '\n',
    ensures
        whole_block("```json"@ + body + "```"@) == Some(trimmed(body)),
        !stands_at(body, "json"@, 0) ==> whole_block("```"@ + body + "```"@) == Some(trimmed(body)),
{
    reveal_strlit("```json");
    reveal_strlit("```");
    reveal_strlit("\n");
    reveal_strlit("json");
    lemma_one_line("```json"@, body);
    lemma_one_line("```"@, body);
    let plain = "```"@ + body + "```"@;
    if !stands_at(body, "json"@, 0) && stands_at(plain, "```json"@, 0) {
        standing_is_agreeing(plain, "```json"@, 0);
        assert("```json"@[3] == 'j' && "```json"@[4] == 's' && "```json"@[5] == 'o'
            && "```json"@[6] == 'n');
        assert(plain[3] == 'j' && plain[4] == 's' && plain[5] == 'o' && plain[6] == 'n');
        assert(body.len() >= 4) by {
            if body.len() < 4 {
                assert(plain[3 + body.len() as int] == '`');
            }
        }
        assert(body[0] == plain[3] && body[1] == plain[4] && body[2] == plain[5] && body[3]
            == plain[6]);
        standing_is_agreeing(body, "json"@, 0);
        assert(forall|k: int| 0 <= k < 4 ==> #[trigger] "json"@[k] == body[0 + k]);
    }
}

/// The first block that is marked as JSON is found wherever it stands in a text: what stands in it
/// up to the next fence, without white space at its ends.
pub proof fn marked_blocks_are_found(before: Seq<char>, body: Seq<char>, after: Seq<char>)
    requires
        ({
            let s = before + "```json"@ + body + "```"@ + after;
            &&& trimmed(s) == s
            &&& forall|j: int| 0 <= j < before.len() ==> !stands_at(s, "```json"@, j)
            &&& forall|j: int|
                before.len() + 7 <= j < before.len() + 7 + body.len() ==> !stands_at(s, "```"@, j)
        }),
    ensures
        inner_block(before + "```json"@ + body + "```"@ + after) == trimmed(body),
{
    reveal_strlit("```json");
    reveal_strlit("```");
    let s = before + "```json"@ + body + "```"@ + after;
    let at = before.len() as int;
    let end = at + 7 + body.len();
    standing_is_agreeing(s, "```json"@, at);
    assert(stands_at(s, "```json"@, at));
    lemma_first_is(s, "```json"@, 0, at);
    standing_is_agreeing(s, "```"@, end);
    assert(stands_at(s, "```"@, end));
    lemma_first_is(s, "```"@, at + 7, end);
    assert(s.subrange(at + 7, end) =~= body);
}

/// Where no block is marked as JSON, the first block of a text is found: what stands on the lines
/// between its fences, without white space at its ends.
pub proof fn plain_blocks_are_found(
    before: Seq<char>,
    line: Seq<char>,
    body: Seq<char>,
    after: Seq<char>,
)
    requires
        ({
            let s = before + "```"@ + line + "\n"@ + body + "```"@ + after;
            let start = before.len() + 3 + line.len();
            &&& trimmed(s) == s
            &&& forall|j: int| 0 <= j ==> !stands_at(s, "```json"@, j)
            &&& forall|j: int| 0 <= j < before.len() ==> !stands_at(s, "```"@, j)
            &&& forall|j: int| start <= j < start + 1 + body.len() ==> !stands_at(s, "```"@, j)
            &&& forall|i: int| 0 <= i < line.len() ==> #[trigger] line[i] != '\n'
        }),
    ensures
        inner_block(before + "```"@ + line + "\n"@ + body + "```"@ + after) == trimmed(body),
{
    reveal_strlit("```json");
    reveal_strlit("```");
    reveal_strlit("\n");
    let s = before + "```"@ + line + "\n"@ + body + "```"@ + after;
    let at = before.len() as int;
    let from = at + 3 + line.len();
    let end = from + 1 + body.len();
    first_places_are_first(s, "```json"@, 0);
    standing_is_agreeing(s, "```"@, at);
    assert(stands_at(s, "```"@, at));
    lemma_first_is(s, "```"@, 0, at);
    standing_is_agreeing(s, "\n"@, from);
    assert(stands_at(s, "\n"@, from));
    assert forall|j: int| at + 3 <= j < from implies !stands_at(s, "\n"@, j) by {
        standing_is_agreeing(s, "\n"@, j);
        assert("\n"@[0] == '\n');
        assert(s[j] == line[j - at - 3]);
    }
    lemma_first_is(s, "\n"@, at + 3, from);
    standing_is_agreeing(s, "```"@, end);
    assert(stands_at(s, "```"@, end));
    lemma_first_is(s, "```"@, from, end);
    let between = s.subrange(from, end);
    assert(between =~= seq!['\n'] + body);
    assert(between.drop_first() =~= body);
}

/// Whether this is the first place from `from` on where a text stands: the text stands there and
/// nowhere before, or nowhere at all where there is none.
pub open spec fn is_first(
    hay: Seq<char>,
    needle: Seq<char>,
    from: int,
    place: Option<int>,
) -> bool {
    match place {
        Some(i) => {
            &&& from <= i
            &&& stands_at(hay, needle, i)
            &&& forall|j: int| from <= j < i ==> !stands_at(hay, needle, j)
        },
        None => forall|j: int| from <= j ==> !stands_at(hay, needle, j),
    }
}

proof fn lemma_is_first(hay: Seq<char>, needle: Seq<char>, from: int, place: Option<int>)
    requires
        0 <= from,
        is_first(hay, needle, from, place),
    ensures
        first_place(hay, needle, from) == place,
{
    first_places_are_first(hay, needle, from);
}

/// What a text that begins with a fence is taken for: what stands from the line after the first on,
/// or behind the fence and its mark where there is one line only, up to the last fence. There is
/// nothing where the last fence comes earlier. A text that does not begin with a fence is taken for
/// itself. White space at the ends of either does not count.
pub proof fn whole_blocks_lie_between_places(s: Seq<char>, line_end: Option<int>, last: int)
    requires
        is_first(trimmed(s), "\n"@, 0, line_end),
        stands_at(trimmed(s), "```"@, 0) ==> stands_at(trimmed(s), "```"@, last) && forall|j: int|
            last < j ==> !stands_at(trimmed(s), "```"@, j),
    ensures
        ({
            let t = trimmed(s);
            if stands_at(t, "```"@, 0) {
                let start = match line_end {
                    Some(i) => i + 1,
                    None => if stands_at(t, "```json"@, 0) {
                        7
                    } else {
                        3
                    },
                };
                whole_block(s) == if start <= last {
                    Some(trimmed(t.subrange(start, last)))
                } else {
                    None
                }
            } else {
                whole_block(s) == Some(t)
            }
        }),
{
    reveal_strlit("```json");
    reveal_strlit("```");
    let t = trimmed(s);
    lemma_is_first(t, "\n"@, 0, line_end);
    standing_is_agreeing(t, "```"@, 0);
    standing_is_agreeing(t, "```json"@, 0);
    assert("```"@[0] == '`' && "```"@[1] == '`' && "```"@[2] == '`');
    assert("```json"@[0] == '`' && "```json"@[1] == '`' && "```json"@[2] == '`');
    if stands_at(t, "```"@, 0) {
        standing_is_agreeing(t, "```"@, last);
        lemma_last_is(t, "```"@, t.len() as int, last);
    } else if stands_at(t, "```json"@, 0) {
        assert(forall|k: int| 0 <= k < 3 ==> #[trigger] "```"@[k] == t[0 + k]);
    }
}

/// Which block of a text is taken: the first that is marked as JSON, where a fence closes it;
/// otherwise the first of all, from the end of its first line on, or from behind the fence where no
/// line ends, where a fence closes it; otherwise the text itself. White space at the ends does not
/// count.
pub proof fn inner_blocks_lie_between_places(
    s: Seq<char>,
    marked: Option<int>,
    closing: Option<int>,
    first: Option<int>,
    line_end: Option<int>,
    end: Option<int>,
)
    requires
        ({
            let t = trimmed(s);
            &&& is_first(t, "```json"@, 0, marked)
            &&& marked matches Some(m) ==> is_first(t, "```"@, m + 7, closing)
            &&& is_first(t, "```"@, 0, first)
            &&& first matches Some(f) ==> is_first(t, "\n"@, f + 3, line_end) && is_first(
                t,
                "```"@,
                match line_end {
                    Some(n) => n,
                    None => f + 3,
                },
                end,
            )
        }),
    ensures
        ({
            let t = trimmed(s);
            if marked is Some && closing is Some {
                inner_block(s) == trimmed(t.subrange(marked->0 + 7, closing->0))
            } else if first is Some && end is Some {
                inner_block(s) == trimmed(
                    t.subrange(
                        match line_end {
                            Some(n) => n,
                            None => first->0 + 3,
                        },
                        end->0,
                    ),
                )
            } else {
                inner_block(s) == t
            }
        }),
{
    let t = trimmed(s);
    lemma_is_first(t, "```json"@, 0, marked);
    if let Some(m) = marked {
        lemma_is_first(t, "```"@, m + 7, closing);
    }
    lemma_is_first(t, "```"@, 0, first);
    if let Some(f) = first {
        lemma_is_first(t, "\n"@, f + 3, line_end);
        lemma_is_first(
            t,
            "```"@,
            match line_end {
                Some(n) => n,
                None => f + 3,
            },
            end,
        );
    }
}

} // verus!
