use vstd::prelude::*;
use crate::chars::{is_unicode_alphanumeric, is_unicode_numeric, push_char};
use crate::stream::CharStream;

verus! {

// Raw text scanning shared by the two lexers: maximal alphanumeric runs and
// verbatim scans up to a literal terminator.

/// Length of the maximal alphanumeric prefix of `s`.
pub open spec fn word_len(s: Seq<char>) -> int
    decreases s.len(),
{
    if s.len() > 0 && is_unicode_alphanumeric(s[0]) {
        1 + word_len(s.drop_first())
    } else {
        0
    }
}

/// Index of the first occurrence of `c` in `s`, or `-1` if there is none.
pub open spec fn find_char(s: Seq<char>, c: char) -> int
    decreases s.len(),
{
    if s.len() == 0 {
        -1
    } else if s[0] == c {
        0
    } else {
        let r = find_char(s.drop_first(), c);
        if r < 0 {
            -1
        } else {
            1 + r
        }
    }
}

/// Index of the first occurrence of the two-character marker `$$` in `s`,
/// or `-1` if there is none.
pub open spec fn find_marker(s: Seq<char>) -> int
    decreases s.len(),
{
    if s.len() < 2 {
        -1
    } else if s[0] == '$' && s[1] == '$' {
        0
    } else {
        let r = find_marker(s.drop_first());
        if r < 0 {
            -1
        } else {
            1 + r
        }
    }
}

/// Length of the maximal numeric prefix of `s`.
pub open spec fn num_len(s: Seq<char>) -> int
    decreases s.len(),
{
    if s.len() > 0 && is_unicode_numeric(s[0]) {
        1 + num_len(s.drop_first())
    } else {
        0
    }
}

pub proof fn lemma_word_len_bounds(s: Seq<char>)
    ensures
        0 <= word_len(s) <= s.len(),
    decreases s.len(),
{
    if s.len() > 0 && is_unicode_alphanumeric(s[0]) {
        lemma_word_len_bounds(s.drop_first());
    }
}

pub proof fn lemma_find_char_range(s: Seq<char>, c: char)
    ensures
        find_char(s, c) >= 0 ==> find_char(s, c) < s.len(),
    decreases s.len(),
{
    if s.len() > 0 && s[0] != c {
        lemma_find_char_range(s.drop_first(), c);
    }
}

/// In a text that does not contain `c`, there is no occurrence to find.
pub proof fn lemma_find_char_absent(s: Seq<char>, c: char)
    requires
        !s.contains(c),
    ensures
        find_char(s, c) == -1,
    decreases s.len(),
{
    if s.len() > 0 {
        assert(s[0] != c);
        assert(!s.drop_first().contains(c)) by {
            if s.drop_first().contains(c) {
                let j = choose|j: int| 0 <= j < s.drop_first().len() && s.drop_first()[j] == c;
                assert(s[j + 1] == c);
            }
        }
        lemma_find_char_absent(s.drop_first(), c);
    }
}

/// The first occurrence of `c` after a prefix free of it is right where the
/// suffix starts with it.
pub proof fn lemma_find_char_concat(a: Seq<char>, b: Seq<char>, c: char)
    requires
        !a.contains(c),
        b.len() > 0,
        b[0] == c,
    ensures
        find_char(a + b, c) == a.len(),
    decreases a.len(),
{
    if a.len() == 0 {
        assert(a + b =~= b);
    } else {
        assert(a[0] != c);
        assert((a + b)[0] == a[0]);
        assert((a + b).drop_first() =~= a.drop_first() + b);
        assert(!a.drop_first().contains(c)) by {
            if a.drop_first().contains(c) {
                let j = choose|j: int| 0 <= j < a.drop_first().len() && a.drop_first()[j] == c;
                assert(a[j + 1] == c);
            }
        }
        lemma_find_char_concat(a.drop_first(), b, c);
    }
}

pub proof fn lemma_find_marker_range(s: Seq<char>)
    ensures
        find_marker(s) >= 0 ==> find_marker(s) + 2 <= s.len(),
    decreases s.len(),
{
    if s.len() >= 2 && !(s[0] == '$' && s[1] == '$') {
        lemma_find_marker_range(s.drop_first());
    }
}

/// Read the maximal alphanumeric run at the head of the stream.
pub(crate) fn scan_word(stream: &mut CharStream) -> (w: String)
    ensures
        w@ == old(stream)@.take(word_len(old(stream)@)),
        final(stream)@ == old(stream)@.skip(word_len(old(stream)@)),
{
    let ghost orig = stream@;
    let mut word = String::new();
    let ghost mut i: int = 0;
    proof {
        assert(word@ =~= orig.take(0));
        assert(stream@ =~= orig.skip(0));
    }
    loop
        invariant
            0 <= i <= orig.len(),
            word@ == orig.take(i),
            stream@ == orig.skip(i),
            word_len(orig) == i + word_len(stream@),
        ensures
            word@ == orig.take(word_len(orig)),
            stream@ == orig.skip(word_len(orig)),
        decreases orig.len() - i,
    {
        match stream.peek() {
            Some(c) => {
                if c.is_alphanumeric() {
                    stream.advance();
                    push_char(&mut word, c);
                    proof {
                        assert(orig.skip(i).drop_first() =~= orig.skip(i + 1));
                        assert(orig.take(i).push(c) =~= orig.take(i + 1));
                        i = i + 1;
                    }
                } else {
                    break;
                }
            },
            None => {
                break;
            },
        }
    }
    word
}

/// Read the maximal numeric run at the head of the stream.
pub(crate) fn scan_number(stream: &mut CharStream) -> (w: String)
    ensures
        w@ == old(stream)@.take(num_len(old(stream)@)),
        final(stream)@ == old(stream)@.skip(num_len(old(stream)@)),
{
    let ghost orig = stream@;
    let mut digits = String::new();
    let ghost mut i: int = 0;
    proof {
        assert(digits@ =~= orig.take(0));
        assert(stream@ =~= orig.skip(0));
    }
    loop
        invariant
            0 <= i <= orig.len(),
            digits@ == orig.take(i),
            stream@ == orig.skip(i),
            num_len(orig) == i + num_len(stream@),
        ensures
            digits@ == orig.take(num_len(orig)),
            stream@ == orig.skip(num_len(orig)),
        decreases orig.len() - i,
    {
        match stream.peek() {
            Some(c) => {
                if c.is_numeric() {
                    stream.advance();
                    push_char(&mut digits, c);
                    proof {
                        assert(orig.skip(i).drop_first() =~= orig.skip(i + 1));
                        assert(orig.take(i).push(c) =~= orig.take(i + 1));
                        i = i + 1;
                    }
                } else {
                    break;
                }
            },
            None => {
                break;
            },
        }
    }
    digits
}

/// Copy characters verbatim up to the first occurrence of `stop`, and
/// consume that terminator. Returns `None` when the text ends before `stop`
/// occurs; there is no nesting or escaping rule.
pub(crate) fn scan_until(stream: &mut CharStream, stop: char) -> (r: Option<String>)
    ensures
        find_char(old(stream)@, stop) < 0 ==> r is None,
        find_char(old(stream)@, stop) >= 0 ==> ({
            &&& r matches Some(w) && w@ == old(stream)@.take(find_char(old(stream)@, stop))
            &&& final(stream)@ == old(stream)@.skip(find_char(old(stream)@, stop) + 1)
        }),
{
    let ghost orig = stream@;
    let mut text = String::new();
    let ghost mut i: int = 0;
    proof {
        assert(text@ =~= orig.take(0));
        assert(stream@ =~= orig.skip(0));
    }
    loop
        invariant
            orig == old(stream)@,
            0 <= i <= orig.len(),
            text@ == orig.take(i),
            stream@ == orig.skip(i),
            find_char(orig, stop) >= 0 <==> find_char(stream@, stop) >= 0,
            find_char(stream@, stop) >= 0 ==> find_char(orig, stop) == i + find_char(
                stream@,
                stop,
            ),
        decreases orig.len() - i,
    {
        match stream.peek() {
            None => {
                return None;
            },
            Some(c) => {
                stream.advance();
                if c == stop {
                    proof {
                        assert(stream@ =~= orig.skip(i + 1));
                    }
                    return Some(text);
                } else {
                    push_char(&mut text, c);
                    proof {
                        assert(orig.skip(i).drop_first() =~= orig.skip(i + 1));
                        assert(orig.take(i).push(c) =~= orig.take(i + 1));
                        i = i + 1;
                    }
                }
            },
        }
    }
}

/// Copy characters verbatim up to the first `$$` marker, and consume the
/// marker. Returns `None` when the text ends before a marker occurs; a `$$`
/// inside the copied text is not tracked for nesting.
pub(crate) fn scan_to_marker(stream: &mut CharStream) -> (r: Option<String>)
    ensures
        find_marker(old(stream)@) < 0 ==> r is None,
        find_marker(old(stream)@) >= 0 ==> ({
            &&& r matches Some(w) && w@ == old(stream)@.take(find_marker(old(stream)@))
            &&& final(stream)@ == old(stream)@.skip(find_marker(old(stream)@) + 2)
        }),
{
    let ghost orig = stream@;
    let mut text = String::new();
    let ghost mut i: int = 0;
    proof {
        assert(text@ =~= orig.take(0));
        assert(stream@ =~= orig.skip(0));
    }
    loop
        invariant
            orig == old(stream)@,
            0 <= i <= orig.len(),
            text@ == orig.take(i),
            stream@ == orig.skip(i),
            find_marker(orig) >= 0 <==> find_marker(stream@) >= 0,
            find_marker(stream@) >= 0 ==> find_marker(orig) == i + find_marker(stream@),
        decreases orig.len() - i,
    {
        match stream.peek() {
            None => {
                return None;
            },
            Some(c) => {
                stream.advance();
                if c == '$' {
                    match stream.peek() {
                        None => {
                            return None;
                        },
                        Some(c2) => {
                            if c2 == '$' {
                                stream.advance();
                                proof {
                                    assert(stream@ =~= orig.skip(i + 2));
                                }
                                return Some(text);
                            } else {
                                push_char(&mut text, c);
                                proof {
                                    assert(orig.skip(i).drop_first() =~= orig.skip(i + 1));
                                    assert(orig.take(i).push(c) =~= orig.take(i + 1));
                                    i = i + 1;
                                }
                            }
                        },
                    }
                } else {
                    push_char(&mut text, c);
                    proof {
                        assert(orig.skip(i).drop_first() =~= orig.skip(i + 1));
                        assert(orig.take(i).push(c) =~= orig.take(i + 1));
                        i = i + 1;
                    }
                }
            },
        }
    }
}

} // verus!
