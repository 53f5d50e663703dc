//! JSON that stands in fenced blocks, as language models write it.
use vstd::prelude::*;
use vstd::string::*;
use crate::text::{
    chars_of, find, find_last, first_place, is_white, last_place, stands, stands_at, trim,
    trim_start, trimmed,
};

verus! {

/// What stands in a block: from the line after the first one, or from `opening` on where there
/// is one line only, up to the last fence. There is nothing where the last fence comes earlier.
pub open spec fn block_body(s: Seq<char>, opening: int) -> Option<Seq<char>> {
    let start = match first_place(s, "\n"@, 0) {
        Some(i) => i + 1,
        None => opening,
    };
    let end = match last_place(s, "```"@, s.len() as int) {
        Some(i) => i,
        None => s.len() as int,
    };
    if start <= end {
        Some(trimmed(s.subrange(start, end)))
    } else {
        None
    }
}

/// The text of which a text that is one fenced block consists; any other text is itself, but
/// for white space at its ends.
pub open spec fn whole_block(s: Seq<char>) -> Option<Seq<char>> {
    let t = trimmed(s);
    if stands_at(t, "```json"@, 0) {
        block_body(t, 7)
    } else if stands_at(t, "```"@, 0) {
        block_body(t, 3)
    } else {
        Some(t)
    }
}

/// What stands in the first block that is marked as JSON, if it is closed.
pub open spec fn marked_block(t: Seq<char>) -> Option<Seq<char>> {
    match first_place(t, "```json"@, 0) {
        Some(s) => match first_place(t, "```"@, s + 7) {
            Some(e) => Some(trimmed(t.subrange(s + 7, e))),
            None => None,
        },
        None => None,
    }
}

/// What stands in the first block from the end of its first line on, if it is closed.
pub open spec fn plain_block(t: Seq<char>) -> Option<Seq<char>> {
    match first_place(t, "```"@, 0) {
        Some(s) => {
            let from = match first_place(t, "\n"@, s + 3) {
                Some(n) => n,
                None => s + 3,
            };
            match first_place(t, "```"@, from) {
                Some(e) => Some(trimmed(t.subrange(from, e))),
                None => None,
            }
        },
        None => None,
    }
}

/// What stands in the first block of a text: one marked as JSON before any other, and the whole
/// text, but for white space at its ends, where no block is closed.
pub open spec fn inner_block(s: Seq<char>) -> Seq<char> {
    let t = trimmed(s);
    match marked_block(t) {
        Some(b) => b,
        None => match plain_block(t) {
            Some(b) => b,
            None => t,
        },
    }
}

/// A place that was found lies in the text, with room for what stands there.
pub proof fn lemma_first_place(hay: Seq<char>, needle: Seq<char>, from: int)
    ensures
        first_place(hay, needle, from) matches Some(i) ==> from <= i && stands_at(hay, needle, i),
    decreases hay.len() - from + 1,
{
    if !(from < 0 || from + needle.len() > hay.len()) && !stands_at(hay, needle, from) {
        lemma_first_place(hay, needle, from + 1);
    }
}

/// A last place that was found lies in the text, with room for what stands there.
pub proof fn lemma_last_place(hay: Seq<char>, needle: Seq<char>, upto: int)
    ensures
        last_place(hay, needle, upto) matches Some(i) ==> i <= upto && stands_at(hay, needle, i),
    decreases upto + 1,
{
    if upto >= 0 && !stands_at(hay, needle, upto) {
        lemma_last_place(hay, needle, upto - 1);
    }
}

/// What stands in a block that begins at the start of the text.
fn body_of<'a>(s: &'a str, cs: &Vec<char>, opening: usize) -> (r: Option<&'a str>)
    requires
        cs@ == s@,
        opening <= s@.len(),
    ensures
        match r {
            Some(b) => block_body(s@, opening as int) == Some(b@),
            None => block_body(s@, opening as int) is None,
        },
{
    proof {
        reveal_strlit("\n");
        reveal_strlit("```");
        lemma_first_place(s@, "\n"@, 0);
        lemma_last_place(s@, "```"@, s@.len() as int);
    }
    let length: usize = cs.len();
    let start: usize = match find(cs, &chars_of("\n"), 0) {
        Some(i) => i + 1,
        None => opening,
    };
    let end: usize = match find_last(cs, &chars_of("```")) {
        Some(i) => i,
        None => length,
    };
    if start <= end {
        Some(trim(s.substring_char(start, end)))
    } else {
        None
    }
}

/// The text of a fenced block, or the text itself where it does not begin with a fence. There
/// is none where the block's end stands before its start.
pub fn extract_whole<'a>(s: &'a str) -> (r: Option<&'a str>)
    ensures
        match r {
            Some(b) => whole_block(s@) == Some(b@),
            None => whole_block(s@) is None,
        },
{
    let t = trim(s);
    let cs = chars_of(t);
    proof {
        reveal_strlit("```json");
        reveal_strlit("```");
    }
    if stands(&cs, &chars_of("```json"), 0) {
        body_of(t, &cs, 7)
    } else if stands(&cs, &chars_of("```"), 0) {
        body_of(t, &cs, 3)
    } else {
        Some(t)
    }
}

/// What stands in the first block that is marked as JSON.
fn find_marked<'a>(t: &'a str, cs: &Vec<char>) -> (r: Option<&'a str>)
    requires
        cs@ == t@,
    ensures
        match r {
            Some(b) => marked_block(t@) == Some(b@),
            None => marked_block(t@) is None,
        },
{
    proof {
        reveal_strlit("```json");
        reveal_strlit("```");
        lemma_first_place(t@, "```json"@, 0);
        assert(cs@.len() == cs.len());
    }
    match find(cs, &chars_of("```json"), 0) {
        Some(s) => {
            proof {
                lemma_first_place(t@, "```"@, s + 7);
            }
            match find(cs, &chars_of("```"), s + 7) {
                Some(e) => Some(trim(t.substring_char(s + 7, e))),
                None => None,
            }
        },
        None => None,
    }
}

/// What stands in the first block.
fn find_plain<'a>(t: &'a str, cs: &Vec<char>) -> (r: Option<&'a str>)
    requires
        cs@ == t@,
    ensures
        match r {
            Some(b) => plain_block(t@) == Some(b@),
            None => plain_block(t@) is None,
        },
{
    proof {
        reveal_strlit("```");
        reveal_strlit("\n");
        lemma_first_place(t@, "```"@, 0);
        assert(cs@.len() == cs.len());
    }
    match find(cs, &chars_of("```"), 0) {
        Some(s) => {
            proof {
                lemma_first_place(t@, "\n"@, s + 3);
            }
            let from: usize = match find(cs, &chars_of("\n"), s + 3) {
                Some(n) => n,
                None => s + 3,
            };
            proof {
                lemma_first_place(t@, "```"@, from as int);
            }
            match find(cs, &chars_of("```"), from) {
                Some(e) => Some(trim(t.substring_char(from, e))),
                None => None,
            }
        },
        None => None,
    }
}

/// What stands in the first block of a text, or the text itself where no block is closed.
pub fn extract_inner<'a>(s: &'a str) -> (r: &'a str)
    ensures
        r@ == inner_block(s@),
{
    let t = trim(s);
    let cs = chars_of(t);
    match find_marked(t, &cs) {
        Some(b) => b,
        None => match find_plain(t, &cs) {
            Some(b) => b,
            None => t,
        },
    }
}

/// A text that starts and ends with something else than white space is trimmed already.
proof fn lemma_trimmed_as_is(s: Seq<char>)
    requires
        s.len() > 0,
        !is_white(s[0]),
        !is_white(s.last()),
    ensures
        trimmed(s) == s,
{
}

/// White space behind a text does not matter once the text is trimmed.
proof fn lemma_white_behind(s: Seq<char>, c: char)
    requires
        is_white(c),
    ensures
        trimmed(s.push(c)) == trimmed(s),
    decreases s.len(),
{
    if s.len() > 0 && is_white(s.first()) {
        assert(s.push(c).first() == s.first());
        assert(s.push(c).drop_first() =~= s.drop_first().push(c));
        lemma_white_behind(s.drop_first(), c);
    } else if s.len() > 0 {
        assert(s.push(c).first() == s.first());
        assert(s.push(c).drop_last() =~= s);
    } else {
        assert(s.push(c).drop_first() =~= s);
        assert(trim_start(s.push(c)) == trim_start(s));
    }
}

/// A text in a fenced block that is marked as JSON.
pub open spec fn fenced(body: Seq<char>) -> Seq<char> {
    "```json\n"@ + body + "\n```"@
}

/// Where nothing stands before a place, the first place is there.
proof fn lemma_first_at(hay: Seq<char>, needle: Seq<char>, from: int, i: int)
    requires
        0 <= from <= i,
        stands_at(hay, needle, i),
        forall|j: int| from <= j < i ==> !stands_at(hay, needle, j),
    ensures
        first_place(hay, needle, from) == Some(i),
    decreases i - from,
{
    if from < i {
        lemma_first_at(hay, needle, from + 1, i);
    }
}

/// Where nothing stands at all, there is no first place.
proof fn lemma_first_nowhere(hay: Seq<char>, needle: Seq<char>, from: int)
    requires
        forall|j: int| from <= j ==> !stands_at(hay, needle, j),
    ensures
        first_place(hay, needle, from) is None,
    decreases hay.len() - from + 1,
{
    if !(from < 0 || from + needle.len() > hay.len()) {
        lemma_first_nowhere(hay, needle, from + 1);
    }
}

/// What a fenced block is made of.
proof fn lemma_fenced(body: Seq<char>)
    ensures
        fenced(body).len() == body.len() + 12,
        fenced(body).subrange(0, 7) == "```json"@,
        fenced(body)[7] == '\n',
        fenced(body).subrange(8, 8 + body.len() as int) == body,
        fenced(body)[8 + body.len() as int] == '\n',
        fenced(body).subrange(9 + body.len() as int, 12 + body.len() as int) == "```"@,
        trimmed(fenced(body)) == fenced(body),
{
    reveal_strlit("```json\n");
    reveal_strlit("```json");
    reveal_strlit("\n```");
    reveal_strlit("```");
    let s = fenced(body);
    assert(s.subrange(0, 7) =~= "```json"@);
    assert(s.subrange(8, 8 + body.len() as int) =~= body);
    assert(s.subrange(9 + body.len() as int, 12 + body.len() as int) =~= "```"@);
    assert(s[0] == '`');
    assert(s.last() == '`');
    lemma_trimmed_as_is(s);
}

/// The text of a fenced block, taken as a whole, is what stands between the fences, but for
/// white space at its ends.
pub proof fn whole_block_of_fenced(body: Seq<char>)
    ensures
        whole_block(fenced(body)) == Some(trimmed(body)),
{
    reveal_strlit("```json");
    reveal_strlit("```");
    reveal_strlit("\n");
    let s = fenced(body);
    lemma_fenced(body);
    let end = 9 + body.len() as int;
    assert(stands_at(s, "```json"@, 0));
    assert(s.subrange(7, 8) =~= "\n"@);
    assert forall|j: int| 0 <= j < 7 implies !stands_at(s, "\n"@, j) by {
        assert(s[j] == s.subrange(0, 7)[j]);
        assert(s.subrange(j, j + 1)[0] == s[j]);
    }
    lemma_first_at(s, "\n"@, 0, 7);
    assert(stands_at(s, "```"@, end));
    assert(last_place(s, "```"@, end) == Some(end));
    assert(last_place(s, "```"@, end + 1) == Some(end));
    assert(last_place(s, "```"@, end + 2) == Some(end));
    assert(last_place(s, "```"@, end + 3) == Some(end));
    assert(s.subrange(8, end) =~= body.push('\n'));
    lemma_white_behind(body, '\n');
}

/// The first block of a text that is one fenced block is what stands between the fences, but for
/// white space at its ends, where no fence stands in between.
pub proof fn inner_block_of_fenced(body: Seq<char>)
    requires
        forall|j: int| !stands_at(body, "```"@, j),
    ensures
        inner_block(fenced(body)) == trimmed(body),
{
    reveal_strlit("```json");
    reveal_strlit("```");
    let s = fenced(body);
    lemma_fenced(body);
    let end = 9 + body.len() as int;
    assert(stands_at(s, "```json"@, 0));
    lemma_first_at(s, "```json"@, 0, 0);
    assert(stands_at(s, "```"@, end));
    assert forall|j: int| 7 <= j < end implies !stands_at(s, "```"@, j) by {
        if stands_at(s, "```"@, j) {
            let here = s.subrange(j, j + 3);
            assert(here[0] == '`' && here[1] == '`' && here[2] == '`');
            assert(s[j] == '`' && s[j + 1] == '`' && s[j + 2] == '`');
            assert(j > 7);
            assert(j + 2 < end - 1);
            assert(body.subrange(j - 8, j - 5) =~= here);
            assert(stands_at(body, "```"@, j - 8));
        }
    }
    lemma_first_at(s, "```"@, 7, end);
    assert(s.subrange(7, end) =~= seq!['\n'] + body.push('\n'));
    assert(s.subrange(7, end).drop_first() =~= body.push('\n'));
    lemma_white_behind(body, '\n');
}

/// A text without a fence is itself, but for white space at its ends, whichever way the JSON in
/// it is looked for.
pub proof fn no_fence_no_block(text: Seq<char>)
    requires
        forall|j: int| !stands_at(trimmed(text), "```"@, j),
    ensures
        whole_block(text) == Some(trimmed(text)),
        inner_block(text) == trimmed(text),
{
    reveal_strlit("```json");
    reveal_strlit("```");
    let t = trimmed(text);
    assert forall|j: int| !stands_at(t, "```json"@, j) by {
        if stands_at(t, "```json"@, j) {
            assert(t.subrange(j, j + 3) =~= t.subrange(j, j + 7).subrange(0, 3));
            assert("```json"@.subrange(0, 3) =~= "```"@);
            assert(stands_at(t, "```"@, j));
        }
    }
    lemma_first_nowhere(t, "```json"@, 0);
    lemma_first_nowhere(t, "```"@, 0);
}

} // verus!
