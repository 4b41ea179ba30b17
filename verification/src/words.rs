//! Word splitting and joining.
//!
//! The build-script parser accepts two argument forms: a JSON string array
//! and shell-style words.  Both are decoded by outside crates behind the
//! trusted wrappers here; their results are named by uninterpreted spec
//! functions, and the facts stated of them are the ones the crates' sources
//! plainly show.

use vstd::prelude::*;

use crate::text::is_space;

verus! {

/// What `shell_words::split` returns on `s`: the shell words of `s`, or
/// nothing when a quote is unmatched.
pub uninterp spec fn shell_split(s: Seq<char>) -> Option<Seq<Seq<char>>>;

/// What `shell_words::join` returns on `ws`: one command line that quotes
/// each word.
pub uninterp spec fn shell_join(ws: Seq<Seq<char>>) -> Seq<char>;

/// What `serde_json::from_str::<Vec<String>>` returns on `s`: the strings of
/// a JSON array, or the error message.
pub uninterp spec fn json_string_array(s: Seq<char>) -> Result<Seq<Seq<char>>, Seq<char>>;

/// A word with no newline and no carriage return.
pub open spec fn clean_word(w: Seq<char>) -> bool {
    forall|k: int| 0 <= k < w.len() ==> w[k] != '\n' && w[k] != '\r'
}

/// A word whose only whitespace is single inner spaces: no character is
/// whitespace other than `' '`, no two spaces are adjacent, and it neither
/// starts nor ends with a space.
pub open spec fn plain_spaced(w: Seq<char>) -> bool {
    (forall|k: int| 0 <= k < w.len() ==> (is_space(#[trigger] w[k]) ==> w[k] == ' ')) && (forall|
        k: int,
    |
        0 <= k && k + 1 < w.len() ==> !((#[trigger] w[k]) == ' ' && w[k + 1] == ' ')) && (w.len()
        > 0 ==> w[0] != ' ' && w.last() != ' ')
}

/// Split a string into shell words.
///
/// Relies on `shell_words::split`: it splits as a POSIX shell would, limited
/// to quote removal, and fails exactly on an unmatched quote, whose error
/// displays as "missing closing quote".
#[verifier::external_body]
pub fn exec_shell_split(s: &str) -> (r: Result<Vec<String>, String>)
    ensures
        match r {
            Ok(ws) => shell_split(s@) == Some(ws.deep_view()),
            Err(m) => shell_split(s@) is None && m@ == "missing closing quote"@,
        },
{
    match shell_words::split(s) {
        Ok(ws) => Ok(ws),
        Err(e) => Err(e.to_string()),
    }
}

/// Join words into one shell command line.
///
/// Relies on `shell_words::join`, whose documentation calls it an inverse of
/// `shell_words::split`: splitting the result yields the words again.  The
/// shape facts follow from its source: a word containing one of the
/// characters its quoting treats as special (brackets, quotes, backslash,
/// `#`, space, tab, newline and more — but not carriage return or the other
/// control characters) is emitted wrapped in single quotes, other words are
/// emitted as they are, and words are separated by single spaces.  So the
/// output begins and ends with a quote or a plain word character: never `[`,
/// `#`, a backslash, a space, a tab or a newline — though it may begin or
/// end with a carriage return, vertical tab or form feed, which the quoting
/// leaves bare.
#[verifier::external_body]
pub fn exec_shell_join(words: &Vec<String>) -> (r: String)
    ensures
        r@ == shell_join(words.deep_view()),
        shell_split(r@) == Some(words.deep_view()),
        words.deep_view().len() == 0 ==> r@.len() == 0,
        words.deep_view().len() > 0 ==> r@.len() > 0,
        r@.len() > 0 ==> r@[0] != '[' && r@[0] != '#' && r@[0] != ' ' && r@[0] != '\t' && r@[0]
            != '\n' && r@.last() != ' ' && r@.last() != '\t' && r@.last() != '\n' && r@.last()
            != '\\',
        (forall|i: int|
            0 <= i < words.deep_view().len() ==> clean_word(#[trigger] words.deep_view()[i]))
            ==> clean_word(r@),
        (forall|i: int|
            0 <= i < words.deep_view().len() ==> plain_spaced(#[trigger] words.deep_view()[i]))
            ==> plain_spaced(r@),
{
    shell_words::join(words.iter().map(|w| w.as_str()))
}

/// Decode a JSON array of strings.
///
/// Relies on `serde_json::from_str::<Vec<String>>`: it decodes exactly the
/// JSON arrays whose elements are strings, and its error displays as a
/// message naming what went wrong.
#[verifier::external_body]
pub fn exec_json_string_array(s: &str) -> (r: Result<Vec<String>, String>)
    ensures
        match r {
            Ok(ws) => json_string_array(s@) == Ok::<_, Seq<char>>(ws.deep_view()),
            Err(m) => json_string_array(s@) == Err::<Seq<Seq<char>>, _>(m@),
        },
{
    match serde_json::from_str::<Vec<String>>(s) {
        Ok(ws) => Ok(ws),
        Err(e) => Err(e.to_string()),
    }
}

/// The plain joining of words with single spaces, as `[T]::join(" ")` does.
pub open spec fn plain_join(ws: Seq<Seq<char>>) -> Seq<char>
    decreases ws.len(),
{
    if ws.len() == 0 {
        Seq::empty()
    } else if ws.len() == 1 {
        ws[0]
    } else {
        ws[0] + seq![' '] + plain_join(ws.subrange(1, ws.len() as int))
    }
}

/// Appending one word to a joined list appends a space and the word.
pub proof fn lemma_plain_join_push(ws: Seq<Seq<char>>, w: Seq<char>)
    ensures
        plain_join(ws.push(w)) == if ws.len() == 0 {
            w
        } else {
            plain_join(ws) + seq![' '] + w
        },
    decreases ws.len(),
{
    if ws.len() == 0 {
        assert(ws.push(w)[0] == w);
        assert(plain_join(ws.push(w)) == w);
    } else if ws.len() == 1 {
        let s = ws.push(w);
        assert(s.subrange(1, s.len() as int) =~= seq![w]);
        assert(plain_join(s) == s[0] + seq![' '] + plain_join(seq![w]));
        assert(s[0] == ws[0]);
    } else {
        let s = ws.push(w);
        assert(s.subrange(1, s.len() as int) =~= ws.subrange(1, ws.len() as int).push(w));
        lemma_plain_join_push(ws.subrange(1, ws.len() as int), w);
        assert(s[0] == ws[0]);
        assert(plain_join(ws) + seq![' '] + w =~= s[0] + seq![' '] + plain_join(
            s.subrange(1, s.len() as int),
        ));
    }
}

/// Executable joining matching [`plain_join`].
pub fn exec_plain_join(ws: &Vec<Vec<char>>) -> (r: Vec<char>)
    ensures
        r@ == plain_join(ws@.map_values(|w: Vec<char>| w@)),
{
    let ghost wss = ws@.map_values(|w: Vec<char>| w@);
    let mut r: Vec<char> = Vec::new();
    let n = ws.len();
    let mut i: usize = 0;
    while i < n
        invariant
            i <= n,
            n == ws@.len(),
            wss == ws@.map_values(|w: Vec<char>| w@),
            r@ == plain_join(wss.subrange(0, i as int)),
        decreases n - i,
    {
        proof {
            assert(wss[i as int] == ws@[i as int]@);
        }
        let mut w = crate::text::subvec(&ws[i], 0, ws[i].len());
        proof {
            assert(w@ =~= wss[i as int]);
        }
        if i > 0 {
            r.push(' ');
        }
        r.append(&mut w);
        i = i + 1;
        proof {
            assert(wss.subrange(0, i as int) =~= wss.subrange(0, i - 1).push(wss[i - 1]));
            lemma_plain_join_push(wss.subrange(0, i - 1), wss[i - 1]);
            assert(r@ =~= plain_join(wss.subrange(0, i as int)));
        }
    }
    proof {
        assert(wss.subrange(0, n as int) =~= wss);
    }
    r
}

} // verus!
