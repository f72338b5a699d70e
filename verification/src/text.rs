//! Text helpers: the std string operations that vstd leaves unspecified, and
//! the string logic of the `print` and `sub` functions.
use vstd::prelude::*;
use vstd::std_specs::iter::IteratorSpec;
use vstd::utf8::{decode_utf8, valid_utf8};

use crate::plan::{add_script_functions, script_steps, AppPlan};

verus! {

/// Calls `String::push`, which appends one character to the end of the string.
#[verifier::external_body]
pub(crate) fn string_push(s: &mut String, c: char)
    ensures
        final(s)@ == old(s)@.push(c),
{
    s.push(c);
}

/// Calls `String::from_utf8`, which succeeds exactly when the bytes are valid
/// UTF-8 and then holds the characters that the bytes encode.
#[verifier::external_body]
pub(crate) fn string_from_utf8(bytes: Vec<u8>) -> (r: Option<String>)
    ensures
        r is Some <==> valid_utf8(bytes@),
        r matches Some(s) ==> s@ == decode_utf8(bytes@),
{
    String::from_utf8(bytes).ok()
}

/// A string of one character.
pub fn char_string(c: char) -> (r: String)
    ensures
        r@ == seq![c],
{
    let mut s = String::new();
    string_push(&mut s, c);
    s
}

/// The characters of a string, in order.
pub fn chars_of(s: &str) -> (r: Vec<char>)
    ensures
        r@ == s@,
{
    broadcast use vstd::string::axiom_spec_iter, vstd::string::next_postcondition;

    let mut it = s.chars();
    let mut out: Vec<char> = Vec::new();
    assert(it.remaining() == s@);
    loop
        invariant
            out@ + it.remaining() == s@,
            it.obeys_prophetic_iter_laws(),
            it.decrease() is Some,
        ensures
            out@ == s@,
        decreases it.decrease()->0,
    {
        let ghost before = it.remaining();
        match it.next() {
            Some(c) => {
                assert(out@.push(c) + it.remaining() =~= out@ + before);
                out.push(c);
            },
            None => {
                assert(before.len() == 0);
                assert(out@ + before =~= out@);
                break;
            },
        }
    }
    out
}

/// A string of the given characters.
fn string_of(chars: &Vec<char>, lo: usize, hi: usize) -> (r: String)
    requires
        lo <= hi <= chars@.len(),
    ensures
        r@ == chars@.subrange(lo as int, hi as int),
{
    let mut out = String::new();
    let mut i = lo;
    while i < hi
        invariant
            lo <= i <= hi <= chars@.len(),
            out@ == chars@.subrange(lo as int, i as int),
        decreases hi - i,
    {
        string_push(&mut out, chars[i]);
        assert(chars@.subrange(lo as int, i + 1) =~= chars@.subrange(lo as int, i as int).push(chars@[i as int]));
        i = i + 1;
    }
    out
}

/// The first character that `sub` keeps: `start` counts from one; a negative
/// `start` counts past the end, and zero lies past any string.
pub open spec fn sub_start(count: int, start: int) -> int {
    if start < 0 {
        count - start - 1
    } else if start == 0 {
        usize::MAX as int
    } else {
        start - 1
    }
}

/// The character after the last that `sub` keeps: a negative `end` counts past the end.
pub open spec fn sub_end(count: int, end: int) -> int {
    if end < 0 {
        count - end
    } else {
        end
    }
}

/// The smaller of two numbers.
pub open spec fn min_of(a: int, b: int) -> int {
    if a <= b {
        a
    } else {
        b
    }
}

/// The characters that `sub` keeps.
pub open spec fn sub_chars(s: Seq<char>, start: int, end: Option<isize>) -> Seq<char> {
    let n = s.len() as int;
    let st = sub_start(n, start);
    match end {
        None => s.subrange(min_of(st, n), n),
        Some(e) => {
            let en = sub_end(n, e as int);
            if st <= en {
                s.subrange(min_of(st, n), min_of(en, n))
            } else {
                Seq::empty()
            }
        },
    }
}

/// Pico-8 `sub(string, start, [end])`: the characters from `start` up to and
/// including `end` (to the end when absent), counted from one.
pub fn sub(string: &str, start: isize, end: Option<isize>) -> (r: String)
    requires
        string@.len() <= isize::MAX,
        start < 0 ==> string@.len() - start - 1 <= isize::MAX,
        end matches Some(e) ==> (e < 0 ==> string@.len() - e <= isize::MAX),
    ensures
        r@ == sub_chars(string@, start as int, end),
{
    let chars = chars_of(string);
    let n = chars.len();
    let count = n as isize;
    let st: usize = if start < 0 {
        ((count - 1) - start) as usize
    } else if start == 0 {
        usize::MAX
    } else {
        (start - 1) as usize
    };
    let lo = if st < n { st } else { n };
    match end {
        Some(e) => {
            let en: usize = if e < 0 {
                (count - e) as usize
            } else {
                e as usize
            };
            if st <= en {
                let hi = if en < n { en } else { n };
                string_of(&chars, lo, hi)
            } else {
                String::new()
            }
        },
        None => string_of(&chars, lo, n),
    }
}

/// `sub` from the first character keeps the whole string, to its end or to
/// its last character.
pub proof fn lemma_sub_whole(s: Seq<char>)
    ensures
        sub_chars(s, 1, None) == s,
        s.len() <= isize::MAX ==> sub_chars(s, 1, Some(s.len() as isize)) == s,
        sub_chars(s, 1, Some(-1isize)) == s,
{
    assert(s.subrange(0, s.len() as int) =~= s);
}

/// `sub(s, i, i)` is the `i`th character alone, for `i` within the string.
pub proof fn lemma_sub_one_char(s: Seq<char>, i: isize)
    requires
        1 <= i <= s.len(),
    ensures
        sub_chars(s, i as int, Some(i)) == seq![s[i - 1]],
{
    assert(s.subrange(i - 1, i as int) =~= seq![s[i - 1]]);
}

/// The text that `print` shows and whether a new line follows it: a text
/// ending in a NUL character loses it and is not followed by a new line.
pub fn print_text(text: &str) -> (r: (String, bool))
    ensures
        text@.len() > 0 && text@.last() == '\0' ==> r.0@ == text@.drop_last() && !r.1,
        !(text@.len() > 0 && text@.last() == '\0') ==> r.0@ == text@ && r.1,
{
    let chars = chars_of(text);
    let n = chars.len();
    if n > 0 && chars[n - 1] == '\0' {
        (string_of(&chars, 0, n - 1), false)
    } else {
        proof {
            assert(chars@.subrange(0, n as int) =~= chars@);
        }
        (string_of(&chars, 0, n), true)
    }
}

/// The registrations of text: the script functions that print and cut strings.
pub fn plugin(app: &mut AppPlan)
    ensures
        final(app).same_features(*old(app)),
        final(app).steps@ == old(app).steps@ + script_steps(
            old(app).scripting,
            seq!["print", "_cursor", "sub"],
        ),
{
    let names: [&'static str; 3] = ["print", "_cursor", "sub"];
    assert(names@ =~= seq!["print", "_cursor", "sub"]);
    let enabled = app.scripting;
    add_script_functions(app, enabled, &names);
}

} // verus!
