//! Strings as sequences of characters: comparing, searching and splitting.
//!
//! Every contract here is stated over `Seq<char>`, the view of `str` and of
//! `String`.

use vstd::prelude::*;
use vstd::string::*;

verus! {

/// The views of a sequence of strings.
pub open spec fn texts(strings: Seq<String>) -> Seq<Seq<char>> {
    strings.map_values(|s: String| s@)
}

/// The views of a sequence of key and value pairs.
pub open spec fn text_pairs(pairs: Seq<(String, String)>) -> Seq<(Seq<char>, Seq<char>)> {
    pairs.map_values(|p: (String, String)| (p.0@, p.1@))
}

/// `needle` stands in `hay`, starting at index `at`.
pub open spec fn occurs_at(hay: Seq<char>, needle: Seq<char>, at: int) -> bool {
    &&& 0 <= at
    &&& at + needle.len() <= hay.len()
    &&& hay.subrange(at, at + needle.len()) == needle
}

/// `needle` stands somewhere in `hay` as an unbroken run.
pub open spec fn contains_run(hay: Seq<char>, needle: Seq<char>) -> bool {
    exists|at: int| occurs_at(hay, needle, at)
}

/// `at` is the index of the first `delimiter` in `s`.
pub open spec fn is_first_delimiter(s: Seq<char>, delimiter: char, at: int) -> bool {
    &&& 0 <= at < s.len()
    &&& s[at] == delimiter
    &&& forall|j: int| 0 <= j < at ==> s[j] != delimiter
}

/// The pieces of `s` between its delimiters, in order. A string without a
/// delimiter is its own single piece; `n` delimiters give `n + 1` pieces,
/// some of which may be empty.
pub open spec fn split_on(s: Seq<char>, delimiter: char) -> Seq<Seq<char>>
    decreases s.len(),
{
    if exists|at: int| is_first_delimiter(s, delimiter, at) {
        let at = choose|at: int| is_first_delimiter(s, delimiter, at);
        seq![s.take(at)] + split_on(s.skip(at + 1), delimiter)
    } else {
        seq![s]
    }
}

/// The pieces put together again, with `delimiter` between neighbours.
pub open spec fn join_with(pieces: Seq<Seq<char>>, delimiter: char) -> Seq<char>
    decreases pieces.len(),
{
    if pieces.len() == 0 {
        Seq::empty()
    } else if pieces.len() == 1 {
        pieces[0]
    } else {
        pieces[0] + seq![delimiter] + join_with(pieces.drop_first(), delimiter)
    }
}

/// The characters of `s`, in order.
pub fn chars_of(s: &str) -> (r: Vec<char>)
    ensures
        r@ == s@,
{
    let mut out: Vec<char> = Vec::new();
    for c in it: s.chars()
        invariant
            out@ == it.seq().take(it.index() as int),
            it.seq() == s@,
    {
        out.push(c);
    }
    out
}

/// Whether two strings hold the same characters.
pub fn same_text(a: &str, b: &str) -> (r: bool)
    ensures
        r == (a@ == b@),
{
    let a_chars = chars_of(a);
    let b_chars = chars_of(b);
    if a_chars.len() != b_chars.len() {
        return false;
    }
    let mut i: usize = 0;
    while i < a_chars.len()
        invariant
            i <= a_chars.len(),
            a_chars.len() == b_chars.len(),
            a_chars@ == a@,
            b_chars@ == b@,
            forall|j: int| 0 <= j < i ==> a_chars[j] == b_chars[j],
        decreases a_chars.len() - i,
    {
        if a_chars[i] != b_chars[i] {
            return false;
        }
        i += 1;
    }
    assert(a_chars@ =~= b_chars@);
    true
}

/// Whether `needle` occurs in `hay` as an unbroken run of characters.
pub fn contains_text(hay: &str, needle: &str) -> (r: bool)
    ensures
        r == contains_run(hay@, needle@),
{
    let hay_chars = chars_of(hay);
    let needle_chars = chars_of(needle);
    if needle_chars.len() > hay_chars.len() {
        return false;
    }
    let last: usize = hay_chars.len() - needle_chars.len();
    let mut at: usize = 0;
    while at <= last
        invariant
            at <= last + 1,
            last == hay_chars.len() - needle_chars.len(),
            hay_chars@ == hay@,
            needle_chars@ == needle@,
            forall|k: int| 0 <= k < at ==> !occurs_at(hay_chars@, needle_chars@, k),
        decreases last + 1 - at,
    {
        let mut i: usize = 0;
        while i < needle_chars.len() && hay_chars[at + i] == needle_chars[i]
            invariant
                at <= last,
                last == hay_chars.len() - needle_chars.len(),
                i <= needle_chars.len(),
                forall|j: int| 0 <= j < i ==> hay_chars[at + j] == needle_chars[j],
            decreases needle_chars.len() - i,
        {
            i += 1;
        }
        if i == needle_chars.len() {
            assert(hay_chars@.subrange(at as int, at + needle_chars.len()) =~= needle_chars@);
            assert(occurs_at(hay_chars@, needle_chars@, at as int));
            return true;
        }
        assert(!occurs_at(hay_chars@, needle_chars@, at as int)) by {
            if occurs_at(hay_chars@, needle_chars@, at as int) {
                assert(hay_chars@.subrange(at as int, at + needle_chars.len())[i as int]
                    == needle_chars[i as int]);
            }
        }
        at += 1;
    }
    false
}

/// The first delimiter of a string is found at one index only.
proof fn lemma_first_delimiter_unique(s: Seq<char>, delimiter: char, a: int, b: int)
    requires
        is_first_delimiter(s, delimiter, a),
        is_first_delimiter(s, delimiter, b),
    ensures
        a == b,
{
}

/// What `split_on` gives for a string whose first delimiter is at `at`.
proof fn lemma_split_at_first(s: Seq<char>, delimiter: char, at: int)
    requires
        is_first_delimiter(s, delimiter, at),
    ensures
        split_on(s, delimiter) == seq![s.take(at)] + split_on(s.skip(at + 1), delimiter),
{
    let chosen = choose|k: int| is_first_delimiter(s, delimiter, k);
    lemma_first_delimiter_unique(s, delimiter, at, chosen);
}

/// What `split_on` gives for a string without a delimiter.
proof fn lemma_split_without_delimiter(s: Seq<char>, delimiter: char)
    requires
        forall|j: int| 0 <= j < s.len() ==> s[j] != delimiter,
    ensures
        split_on(s, delimiter) == seq![s],
{
}

/// The pieces of `s` between its occurrences of `delimiter`, as `str::split`
/// gives them for a one-character pattern.
pub fn split(s: &str, delimiter: char) -> (r: Vec<String>)
    ensures
        texts(r@) == split_on(s@, delimiter),
{
    let chars = chars_of(s);
    let mut pieces: Vec<String> = Vec::new();
    let mut start: usize = 0;
    let mut i: usize = 0;
    assert(s@.skip(0) =~= s@);
    assert(texts(pieces@) =~= Seq::empty());
    while i < chars.len()
        invariant
            start <= i <= chars.len(),
            chars@ == s@,
            forall|j: int| start <= j < i ==> chars[j] != delimiter,
            split_on(s@, delimiter) == texts(pieces@) + split_on(
                s@.skip(start as int),
                delimiter,
            ),
        decreases chars.len() - i,
    {
        if chars[i] == delimiter {
            let piece = String::from_str(s.substring_char(start, i));
            proof {
                let rest = s@.skip(start as int);
                assert(is_first_delimiter(rest, delimiter, i - start));
                lemma_split_at_first(rest, delimiter, i - start);
                assert(rest.take(i - start) =~= s@.subrange(start as int, i as int));
                assert(rest.skip(i - start + 1) =~= s@.skip(i + 1));
                assert(texts(pieces@.push(piece)) =~= texts(pieces@).push(piece@));
                assert(texts(pieces@).push(piece@) + split_on(s@.skip(i + 1), delimiter)
                    =~= texts(pieces@) + (seq![piece@] + split_on(s@.skip(i + 1), delimiter)));
            }
            pieces.push(piece);
            start = i + 1;
        }
        i += 1;
    }
    let piece = String::from_str(s.substring_char(start, chars.len()));
    proof {
        let rest = s@.skip(start as int);
        lemma_split_without_delimiter(rest, delimiter);
        assert(rest =~= s@.subrange(start as int, s@.len() as int));
        assert(texts(pieces@.push(piece)) =~= texts(pieces@).push(piece@));
        assert(texts(pieces@).push(piece@) =~= texts(pieces@) + seq![piece@]);
    }
    pieces.push(piece);
    pieces
}

/// A string that holds the delimiter at `at` has a first delimiter.
proof fn lemma_first_delimiter_exists(s: Seq<char>, delimiter: char, at: int)
    requires
        0 <= at < s.len(),
        s[at] == delimiter,
    ensures
        exists|first: int| is_first_delimiter(s, delimiter, first),
    decreases at,
{
    if exists|j: int| 0 <= j < at && s[j] == delimiter {
        let j = choose|j: int| 0 <= j < at && s[j] == delimiter;
        lemma_first_delimiter_exists(s, delimiter, j);
    } else {
        assert(is_first_delimiter(s, delimiter, at));
    }
}

/// No piece of a split holds the delimiter.
pub proof fn lemma_split_pieces_hold_no_delimiter(s: Seq<char>, delimiter: char)
    ensures
        forall|k: int, j: int|
            0 <= k < split_on(s, delimiter).len() && 0 <= j < split_on(s, delimiter)[k].len()
                ==> split_on(s, delimiter)[k][j] != delimiter,
    decreases s.len(),
{
    if exists|at: int| is_first_delimiter(s, delimiter, at) {
        let at = choose|at: int| is_first_delimiter(s, delimiter, at);
        lemma_split_pieces_hold_no_delimiter(s.skip(at + 1), delimiter);
        let tail = split_on(s.skip(at + 1), delimiter);
        assert forall|k: int, j: int|
            0 <= k < split_on(s, delimiter).len() && 0 <= j < split_on(s, delimiter)[k].len()
                implies split_on(s, delimiter)[k][j] != delimiter by {
            if k > 0 {
                assert(split_on(s, delimiter)[k] == tail[k - 1]);
            }
        }
    } else {
        assert forall|j: int| 0 <= j < s.len() implies s[j] != delimiter by {
            if s[j] == delimiter {
                lemma_first_delimiter_exists(s, delimiter, j);
            }
        }
    }
}

/// Joining the pieces of a split with the delimiter gives the string back.
pub proof fn lemma_join_undoes_split(s: Seq<char>, delimiter: char)
    ensures
        split_on(s, delimiter).len() >= 1,
        join_with(split_on(s, delimiter), delimiter) == s,
    decreases s.len(),
{
    if exists|at: int| is_first_delimiter(s, delimiter, at) {
        let at = choose|at: int| is_first_delimiter(s, delimiter, at);
        lemma_join_undoes_split(s.skip(at + 1), delimiter);
        let tail = split_on(s.skip(at + 1), delimiter);
        let all = split_on(s, delimiter);
        assert(all.drop_first() =~= tail);
        assert(s.take(at) + seq![delimiter] + s.skip(at + 1) =~= s);
    }
}

} // verus!
