//! Text handling over sequences of characters: trimming, splitting, searching,
//! and reading and writing numbers.

use vstd::hash_map::StringHashMap;
use vstd::prelude::*;
use vstd::slice::slice_subrange;
use vstd::string::*;
use vstd::utf8::{char_is_scalar, encode_scalar, encode_utf8};

verus! {

/// `String::push` appends one character.
pub assume_specification[ String::push ](s: &mut String, c: char)
    ensures
        final(s)@ == old(s)@.push(c),
;

/// The characters with the Unicode property `White_Space`.
pub open spec fn is_whitespace(c: char) -> bool {
    let n = c as u32;
    ||| 0x9 <= n <= 0xd
    ||| n == 0x20
    ||| n == 0x85
    ||| n == 0xa0
    ||| n == 0x1680
    ||| 0x2000 <= n <= 0x200a
    ||| n == 0x2028
    ||| n == 0x2029
    ||| n == 0x202f
    ||| n == 0x205f
    ||| n == 0x3000
}

/// Whether a character is whitespace.
pub fn is_space(c: char) -> (r: bool)
    ensures
        r == is_whitespace(c),
{
    let n: u32 = c as u32;
    (0x9 <= n && n <= 0xd) || n == 0x20 || n == 0x85 || n == 0xa0 || n == 0x1680 || (0x2000 <= n
        && n <= 0x200a) || n == 0x2028 || n == 0x2029 || n == 0x202f || n == 0x205f || n == 0x3000
}

/// The characters of a string.
pub fn chars_of(s: &str) -> (r: Vec<char>)
    ensures
        r@ == s@,
{
    let mut r: Vec<char> = Vec::new();
    for c in it: s.chars()
        invariant
            it.seq() == s@,
            r@ == s@.take(it.index() as int),
    {
        r.push(c);
        assert(s@.take(it.index() as int + 1) =~= s@.take(it.index() as int).push(c));
    }
    assert(s@.take(s@.len() as int) =~= s@);
    r
}

/// The string made of the given characters.
pub fn string_of(s: &[char]) -> (r: String)
    ensures
        r@ == s@,
{
    let mut r = String::new();
    let mut i: usize = 0;
    while i < s.len()
        invariant
            i <= s@.len(),
            r@ == s@.take(i as int),
        decreases s@.len() - i,
    {
        r.push(s[i]);
        assert(s@.take(i as int + 1) =~= s@.take(i as int).push(s@[i as int]));
        i += 1;
    }
    assert(s@.take(s@.len() as int) =~= s@);
    r
}

/// Whether two character sequences are the same.
pub fn same(a: &[char], b: &[char]) -> (r: bool)
    ensures
        r == (a@ == b@),
{
    if a.len() != b.len() {
        return false;
    }
    let mut i: usize = 0;
    while i < a.len()
        invariant
            i <= a@.len(),
            a@.len() == b@.len(),
            forall|k: int| 0 <= k < i ==> a@[k] == b@[k],
        decreases a@.len() - i,
    {
        if a[i] != b[i] {
            return false;
        }
        i += 1;
    }
    assert(a@ =~= b@);
    true
}

/// Whether two strings are the same.
pub fn str_same(a: &str, b: &str) -> (r: bool)
    ensures
        r == (a@ == b@),
{
    let x = a.to_owned();
    let y = b.to_owned();
    x == y
}

// ---------------------------------------------------------------------------
// Trimming
// ---------------------------------------------------------------------------

/// `s` without its leading whitespace.
pub open spec fn trimmed_start(s: Seq<char>) -> Seq<char>
    decreases s.len(),
{
    if s.len() > 0 && is_whitespace(s[0]) {
        trimmed_start(s.skip(1))
    } else {
        s
    }
}

/// `s` without its trailing whitespace.
pub open spec fn trimmed_end(s: Seq<char>) -> Seq<char>
    decreases s.len(),
{
    if s.len() > 0 && is_whitespace(s.last()) {
        trimmed_end(s.drop_last())
    } else {
        s
    }
}

/// `s` without the whitespace at both its ends.
pub open spec fn trimmed(s: Seq<char>) -> Seq<char> {
    trimmed_end(trimmed_start(s))
}

/// A text without the whitespace at its start.
pub fn trim_start(s: &[char]) -> (r: &[char])
    ensures
        r@ == trimmed_start(s@),
        r@.len() <= s@.len(),
{
    let mut i: usize = 0;
    assert(s@.skip(0) =~= s@);
    while i < s.len() && is_space(s[i])
        invariant
            i <= s@.len(),
            trimmed_start(s@.skip(i as int)) == trimmed_start(s@),
        decreases s@.len() - i,
    {
        assert(s@.skip(i as int).skip(1) =~= s@.skip(i as int + 1));
        i += 1;
    }
    slice_subrange(s, i, s.len())
}

/// A text without the whitespace at its end.
pub fn trim_end(s: &[char]) -> (r: &[char])
    ensures
        r@ == trimmed_end(s@),
        r@.len() <= s@.len(),
{
    let mut j: usize = s.len();
    assert(s@.take(s@.len() as int) =~= s@);
    while j > 0 && is_space(s[j - 1])
        invariant
            j <= s@.len(),
            trimmed_end(s@.take(j as int)) == trimmed_end(s@),
        decreases j,
    {
        assert(s@.take(j as int).drop_last() =~= s@.take(j as int - 1));
        j -= 1;
    }
    slice_subrange(s, 0, j)
}

/// A text without the whitespace around it.
pub fn trim(s: &[char]) -> (r: &[char])
    ensures
        r@ == trimmed(s@),
        r@.len() <= s@.len(),
{
    trim_end(trim_start(s))
}

/// `s` without the characters of `set` at both its ends.
pub open spec fn stripped_of(s: Seq<char>, set: Seq<char>) -> Seq<char>
    decreases s.len(),
{
    if s.len() > 0 && set.contains(s[0]) {
        stripped_of(s.skip(1), set)
    } else if s.len() > 0 && set.contains(s.last()) {
        stripped_of(s.drop_last(), set)
    } else {
        s
    }
}

fn is_one_of(c: char, set: &[char]) -> (r: bool)
    ensures
        r == set@.contains(c),
{
    let mut i: usize = 0;
    while i < set.len()
        invariant
            i <= set@.len(),
            forall|k: int| 0 <= k < i ==> set@[k] != c,
        decreases set@.len() - i,
    {
        if set[i] == c {
            return true;
        }
        i += 1;
    }
    false
}

/// Removes the characters of `set` from both ends.
pub fn strip_of<'a>(s: &'a [char], set: &[char]) -> (r: &'a [char])
    ensures
        r@ == stripped_of(s@, set@),
{
    let mut i: usize = 0;
    let mut j: usize = s.len();
    assert(s@.subrange(0, s@.len() as int) =~= s@);
    while i < j && is_one_of(s[i], set)
        invariant
            i <= j == s@.len(),
            stripped_of(s@.subrange(i as int, j as int), set@) == stripped_of(s@, set@),
        decreases j - i,
    {
        assert(s@.subrange(i as int, j as int).skip(1) =~= s@.subrange(i as int + 1, j as int));
        i += 1;
    }
    while i < j && is_one_of(s[j - 1], set)
        invariant
            i <= j <= s@.len(),
            i < j ==> !set@.contains(s@[i as int]),
            stripped_of(s@.subrange(i as int, j as int), set@) == stripped_of(s@, set@),
        decreases j - i,
    {
        assert(s@.subrange(i as int, j as int).drop_last() =~= s@.subrange(i as int, j as int - 1));
        j -= 1;
    }
    slice_subrange(s, i, j)
}

// ---------------------------------------------------------------------------
// Prefixes and searching
// ---------------------------------------------------------------------------

/// Whether `p` is what stands in `s` from `at` on.
pub open spec fn stands_at(s: Seq<char>, p: Seq<char>, at: int) -> bool {
    0 <= at && at + p.len() <= s.len() && s.subrange(at, at + p.len()) == p
}

/// Whether `s` begins with `p`.
pub open spec fn begins_with(s: Seq<char>, p: Seq<char>) -> bool {
    stands_at(s, p, 0)
}

fn matches_at(s: &[char], p: &[char], at: usize) -> (r: bool)
    requires
        at <= s@.len(),
    ensures
        r == stands_at(s@, p@, at as int),
{
    if p.len() > s.len() - at {
        return false;
    }
    let part = slice_subrange(s, at, at + p.len());
    same(part, p)
}

/// Whether a text begins with another.
pub fn starts_with(s: &[char], p: &str) -> (r: bool)
    ensures
        r == begins_with(s@, p@),
{
    let pat = chars_of(p);
    matches_at(s, pat.as_slice(), 0)
}

/// Whether a text begins with another.
pub fn str_starts_with(s: &str, p: &str) -> (r: bool)
    ensures
        r == begins_with(s@, p@),
{
    let cs = chars_of(s);
    starts_with(cs.as_slice(), p)
}

/// `s` without the prefix `p`, or `s` itself where it has no such prefix.
pub open spec fn without_prefix(s: Seq<char>, p: Seq<char>) -> Seq<char> {
    if begins_with(s, p) {
        s.skip(p.len() as int)
    } else {
        s
    }
}

/// A text without what it may begin with.
pub fn drop_prefix<'a>(s: &'a [char], p: &str) -> (r: &'a [char])
    ensures
        r@ == without_prefix(s@, p@),
{
    let pat = chars_of(p);
    if matches_at(s, pat.as_slice(), 0) {
        slice_subrange(s, pat.len(), s.len())
    } else {
        s
    }
}

/// `s` without any number of repetitions of the prefix `p`.
pub open spec fn without_prefixes(s: Seq<char>, p: Seq<char>) -> Seq<char>
    decreases s.len(),
{
    if p.len() > 0 && begins_with(s, p) {
        without_prefixes(s.skip(p.len() as int), p)
    } else {
        s
    }
}

/// A text without any repetition of what it may begin with.
pub fn drop_prefixes<'a>(s: &'a [char], p: &str) -> (r: &'a [char])
    requires
        p@.len() > 0,
    ensures
        r@ == without_prefixes(s@, p@),
{
    let pat = chars_of(p);
    let len: usize = s.len();
    let mut i: usize = 0;
    assert(s@.skip(0) =~= s@);
    while matches_at(s, pat.as_slice(), i)
        invariant
            i <= s@.len() == len,
            pat@ == p@,
            p@.len() > 0,
            without_prefixes(s@.skip(i as int), p@) == without_prefixes(s@, p@),
        decreases s@.len() - i,
    {
        proof {
            let rest = s@.skip(i as int);
            assert(rest.subrange(0, p@.len() as int) =~= s@.subrange(
                i as int,
                i as int + p@.len(),
            ));
            assert(rest.skip(p@.len() as int) =~= s@.skip(i as int + p@.len()));
        }
        i += pat.len();
    }
    proof {
        let rest = s@.skip(i as int);
        if begins_with(rest, p@) {
            assert(rest.subrange(0, p@.len() as int) =~= s@.subrange(
                i as int,
                i as int + p@.len(),
            ));
        }
    }
    slice_subrange(s, i, len)
}

/// The first position in `s`, from `from` on, where `p` stands.
pub open spec fn position_from(s: Seq<char>, p: Seq<char>, from: int) -> Option<int>
    decreases s.len() + 1 - from,
{
    if from < 0 || from > s.len() {
        None
    } else if stands_at(s, p, from) {
        Some(from)
    } else {
        position_from(s, p, from + 1)
    }
}

/// The first position in `s` where `p` stands.
pub open spec fn position_of(s: Seq<char>, p: Seq<char>) -> Option<int> {
    position_from(s, p, 0)
}

/// Whether `p` stands somewhere in `s`.
pub open spec fn has(s: Seq<char>, p: Seq<char>) -> bool {
    position_of(s, p) is Some
}

proof fn lemma_position_from(s: Seq<char>, p: Seq<char>, from: int)
    requires
        0 <= from,
    ensures
        match position_from(s, p, from) {
            Some(i) => from <= i && stands_at(s, p, i) && forall|k: int|
                from <= k < i ==> !stands_at(s, p, k),
            None => forall|k: int| from <= k ==> !stands_at(s, p, k),
        },
    decreases s.len() + 1 - from,
{
    if from <= s.len() && !stands_at(s, p, from) {
        lemma_position_from(s, p, from + 1);
    }
}

/// A text is found at the first place where it stands, and nowhere where there is none.
pub proof fn law_found_at_the_first_place(s: Seq<char>, p: Seq<char>)
    ensures
        has(s, p) <==> exists|i: int| stands_at(s, p, i),
        match position_of(s, p) {
            Some(i) => stands_at(s, p, i) && forall|k: int| k < i ==> !stands_at(s, p, k),
            None => forall|k: int| !stands_at(s, p, k),
        },
{
    lemma_position_from(s, p, 0);
}

/// The first place where a text stands in another.
pub fn find(s: &[char], p: &str) -> (r: Option<usize>)
    ensures
        match r {
            Some(i) => position_of(s@, p@) == Some(i as int) && i + p@.len() <= s@.len(),
            None => position_of(s@, p@) is None,
        },
{
    let pat = chars_of(p);
    let mut i: usize = 0;
    loop
        invariant
            i <= s@.len(),
            pat@ == p@,
            position_of(s@, p@) == position_from(s@, p@, i as int),
        decreases s@.len() - i,
    {
        if matches_at(s, pat.as_slice(), i) {
            return Some(i);
        }
        if i == s.len() {
            assert(position_from(s@, p@, i as int + 1) is None);
            return None;
        }
        i += 1;
    }
}

/// Whether a text stands in another.
pub fn str_contains(s: &str, p: &str) -> (r: bool)
    ensures
        r == has(s@, p@),
{
    let cs = chars_of(s);
    find(cs.as_slice(), p).is_some()
}

/// The first position of the character `c` in `s`, or the length of `s`.
pub open spec fn index_of_char(s: Seq<char>, c: char) -> nat
    decreases s.len(),
{
    if s.len() == 0 || s[0] == c {
        0
    } else {
        1 + index_of_char(s.skip(1), c)
    }
}

/// The place found holds the character, and none before it does.
pub proof fn lemma_index_of_char(s: Seq<char>, c: char)
    ensures
        index_of_char(s, c) <= s.len(),
        forall|k: int| 0 <= k < index_of_char(s, c) ==> s[k] != c,
        index_of_char(s, c) < s.len() ==> s[index_of_char(s, c) as int] == c,
    decreases s.len(),
{
    if s.len() > 0 && s[0] != c {
        lemma_index_of_char(s.skip(1), c);
        assert forall|k: int| 0 <= k < index_of_char(s, c) implies s[k] != c by {
            if k > 0 {
                assert(s.skip(1)[k - 1] == s[k]);
            }
        }
    }
}

/// A place that holds the character, with none before it, is the one found.
pub proof fn lemma_index_of_char_unique(s: Seq<char>, c: char, i: int)
    requires
        0 <= i <= s.len(),
        forall|k: int| 0 <= k < i ==> s[k] != c,
        i < s.len() ==> s[i] == c,
    ensures
        index_of_char(s, c) == i,
{
    lemma_index_of_char(s, c);
}

/// The first place of a character, or the end.
pub fn find_char(s: &[char], c: char) -> (r: usize)
    ensures
        r == index_of_char(s@, c),
        r <= s@.len(),
{
    let mut i: usize = 0;
    while i < s.len() && s[i] != c
        invariant
            i <= s@.len(),
            forall|k: int| 0 <= k < i ==> s@[k] != c,
        decreases s@.len() - i,
    {
        i += 1;
    }
    proof {
        lemma_index_of_char_unique(s@, c, i as int);
    }
    i
}

/// The last position of the character `c` in `s`.
pub open spec fn last_index_of_char(s: Seq<char>, c: char) -> Option<int>
    decreases s.len(),
{
    if s.len() == 0 {
        None
    } else if s.last() == c {
        Some(s.len() - 1)
    } else {
        last_index_of_char(s.drop_last(), c)
    }
}

/// The last place found holds the character, and none after it does.
pub proof fn lemma_last_index_of_char(s: Seq<char>, c: char)
    ensures
        match last_index_of_char(s, c) {
            Some(k) => 0 <= k < s.len() && s[k] == c && forall|j: int| k < j < s.len() ==> s[j] != c,
            None => forall|j: int| 0 <= j < s.len() ==> s[j] != c,
        },
    decreases s.len(),
{
    if s.len() > 0 && s.last() != c {
        lemma_last_index_of_char(s.drop_last(), c);
        assert forall|j: int|
            (match last_index_of_char(s, c) {
                Some(k) => k,
                None => -1,
            }) < j < s.len() implies s[j] != c by {
            if j < s.len() - 1 {
                assert(s.drop_last()[j] == s[j]);
            }
        }
    }
}

/// The last place of a character.
pub fn rfind_char(s: &[char], c: char) -> (r: Option<usize>)
    ensures
        match r {
            Some(i) => last_index_of_char(s@, c) == Some(i as int) && i < s@.len(),
            None => last_index_of_char(s@, c) is None,
        },
{
    let mut j: usize = s.len();
    assert(s@.take(s@.len() as int) =~= s@);
    while j > 0
        invariant
            j <= s@.len(),
            last_index_of_char(s@, c) == last_index_of_char(s@.take(j as int), c),
        decreases j,
    {
        if s[j - 1] == c {
            return Some(j - 1);
        }
        assert(s@.take(j as int).drop_last() =~= s@.take(j as int - 1));
        j -= 1;
    }
    None
}

// ---------------------------------------------------------------------------
// Splitting
// ---------------------------------------------------------------------------

/// The pieces of `s` between the occurrences of `sep`.
pub open spec fn split_on(s: Seq<char>, sep: char) -> Seq<Seq<char>>
    decreases s.len(),
{
    let i = index_of_char(s, sep);
    if i >= s.len() {
        seq![s]
    } else {
        seq![s.take(i as int)] + split_on(s.skip(i as int + 1), sep)
    }
}

/// The texts of a list of strings.
pub open spec fn strings(v: Seq<String>) -> Seq<Seq<char>> {
    v.map_values(|s: String| s@)
}

/// The texts that a vector of character vectors holds.
pub open spec fn texts(v: Seq<Vec<char>>) -> Seq<Seq<char>> {
    v.map_values(|x: Vec<char>| x@)
}

fn to_vec(s: &[char]) -> (r: Vec<char>)
    ensures
        r@ == s@,
{
    vstd::slice::slice_to_vec(s)
}

/// The parts of a text between separators.
pub fn split(s: &[char], sep: char) -> (r: Vec<Vec<char>>)
    ensures
        texts(r@) == split_on(s@, sep),
        r@.len() > 0,
{
    let mut r: Vec<Vec<char>> = Vec::new();
    let mut from: usize = 0;
    assert(s@.skip(0) =~= s@);
    assert(texts(r@) =~= Seq::<Seq<char>>::empty());
    assert(texts(r@) + split_on(s@, sep) =~= split_on(s@, sep));
    loop
        invariant
            from <= s@.len(),
            texts(r@) + split_on(s@.skip(from as int), sep) == split_on(s@, sep),
        decreases s@.len() - from,
    {
        let rest = slice_subrange(s, from, s.len());
        let i: usize = find_char(rest, sep);
        let ghost before = r@;
        assert(rest@ =~= s@.skip(from as int));
        if i == rest.len() {
            r.push(to_vec(rest));
            proof {
                assert(texts(r@) =~= texts(before).push(rest@));
                assert(texts(r@) =~= texts(before) + seq![rest@]);
            }
            return r;
        }
        let piece = slice_subrange(rest, 0, i);
        r.push(to_vec(piece));
        proof {
            assert(piece@ =~= rest@.take(i as int));
            assert(texts(r@) =~= texts(before).push(piece@));
            assert(rest@.skip(i as int + 1) =~= s@.skip(from as int + i as int + 1));
            let tail = split_on(rest@.skip(i as int + 1), sep);
            assert(texts(before) + (seq![piece@] + tail) =~= texts(r@) + tail);
        }
        from = from + i + 1;
    }
}

/// A text without the separator is its own only piece.
pub proof fn lemma_split_whole(s: Seq<char>, sep: char)
    requires
        !s.contains(sep),
    ensures
        split_on(s, sep) == seq![s],
{
    lemma_index_of_char_unique(s, sep, s.len() as int);
}

/// The first piece of a text ends at the first separator.
pub proof fn lemma_split_head(head: Seq<char>, sep: char, tail: Seq<char>)
    requires
        !head.contains(sep),
    ensures
        split_on(head + seq![sep] + tail, sep) == seq![head] + split_on(tail, sep),
{
    let s = head + seq![sep] + tail;
    lemma_index_of_char_unique(s, sep, head.len() as int);
    assert(s.take(head.len() as int) =~= head);
    assert(s.skip(head.len() as int + 1) =~= tail);
}

/// The position of the first whitespace in `s`, or the length of `s`.
pub open spec fn word_end(s: Seq<char>) -> nat
    decreases s.len(),
{
    if s.len() == 0 || is_whitespace(s[0]) {
        0
    } else {
        1 + word_end(s.skip(1))
    }
}

/// A word ends within the text.
pub proof fn lemma_word_end(s: Seq<char>)
    ensures
        word_end(s) <= s.len(),
        s.len() > 0 && !is_whitespace(s[0]) ==> word_end(s) > 0,
    decreases s.len(),
{
    if s.len() > 0 && !is_whitespace(s[0]) {
        lemma_word_end(s.skip(1));
    }
}

/// A trimmed text is no longer than it was.
pub proof fn lemma_trimmed_start_len(s: Seq<char>)
    ensures
        trimmed_start(s).len() <= s.len(),
        trimmed_start(s).len() > 0 ==> !is_whitespace(trimmed_start(s)[0]),
    decreases s.len(),
{
    if s.len() > 0 && is_whitespace(s[0]) {
        lemma_trimmed_start_len(s.skip(1));
    }
}

/// The pieces of `s` that hold no whitespace and stand between whitespace.
pub open spec fn words(s: Seq<char>) -> Seq<Seq<char>>
    decreases s.len(),
    when true
    via words_decreases
{
    let t = trimmed_start(s);
    if t.len() == 0 {
        Seq::empty()
    } else {
        let n = word_end(t) as int;
        seq![t.take(n)] + words(t.skip(n))
    }
}

#[via_fn]
proof fn words_decreases(s: Seq<char>) {
    lemma_trimmed_start_len(s);
    lemma_word_end(trimmed_start(s));
}

/// The words of a text.
pub fn split_words(s: &[char]) -> (r: Vec<Vec<char>>)
    ensures
        texts(r@) == words(s@),
{
    let mut r: Vec<Vec<char>> = Vec::new();
    let mut rest = s;
    assert(texts(r@) =~= Seq::<Seq<char>>::empty());
    assert(texts(r@) + words(s@) =~= words(s@));
    loop
        invariant
            texts(r@) + words(rest@) == words(s@),
        decreases rest@.len(),
    {
        let t = trim_start(rest);
        proof {
            lemma_trimmed_start_len(rest@);
            lemma_word_end(t@);
        }
        if t.len() == 0 {
            assert(texts(r@) =~= texts(r@) + Seq::<Seq<char>>::empty());
            return r;
        }
        let mut n: usize = 0;
        assert(t@.skip(0) =~= t@);
        while n < t.len() && !is_space(t[n])
            invariant
                n <= t@.len(),
                word_end(t@) == n + word_end(t@.skip(n as int)),
            decreases t@.len() - n,
        {
            assert(t@.skip(n as int).skip(1) =~= t@.skip(n as int + 1));
            n += 1;
        }
        let ghost before = r@;
        let word = slice_subrange(t, 0, n);
        r.push(to_vec(word));
        proof {
            assert(word@ =~= t@.take(n as int));
            assert(texts(r@) =~= texts(before).push(word@));
            let tail = words(t@.skip(n as int));
            assert(texts(before) + (seq![word@] + tail) =~= texts(r@) + tail);
        }
        rest = slice_subrange(t, n, t.len());
    }
}

/// A line that ended in a line feed, without the carriage return before it.
pub open spec fn without_return(s: Seq<char>) -> Seq<char> {
    if s.len() > 0 && s.last() == '\r' {
        s.drop_last()
    } else {
        s
    }
}

/// The lines of `s`: each ends at a line feed, with or without a carriage
/// return before it; the last may end with the text.
pub open spec fn lines_of(s: Seq<char>) -> Seq<Seq<char>>
    decreases s.len(),
{
    let i = index_of_char(s, '\n');
    if s.len() == 0 {
        Seq::empty()
    } else if i >= s.len() {
        seq![s]
    } else {
        seq![without_return(s.take(i as int))] + lines_of(s.skip(i as int + 1))
    }
}

/// The lines of a text.
pub fn lines(s: &[char]) -> (r: Vec<Vec<char>>)
    ensures
        texts(r@) == lines_of(s@),
{
    let mut r: Vec<Vec<char>> = Vec::new();
    let mut from: usize = 0;
    assert(s@.skip(0) =~= s@);
    assert(texts(r@) =~= Seq::<Seq<char>>::empty());
    assert(texts(r@) + lines_of(s@) =~= lines_of(s@));
    while from < s.len()
        invariant
            from <= s@.len(),
            texts(r@) + lines_of(s@.skip(from as int)) == lines_of(s@),
        decreases s@.len() - from,
    {
        let rest = slice_subrange(s, from, s.len());
        let i: usize = find_char(rest, '\n');
        let ghost before = r@;
        assert(rest@ =~= s@.skip(from as int));
        if i == rest.len() {
            r.push(to_vec(rest));
            proof {
                assert(texts(r@) =~= texts(before).push(rest@));
                assert(texts(r@) =~= texts(before) + seq![rest@]);
            }
            return r;
        }
        let whole = slice_subrange(rest, 0, i);
        assert(whole@ =~= rest@.take(i as int));
        let line = if whole.len() > 0 && whole[whole.len() - 1] == '\r' {
            slice_subrange(whole, 0, whole.len() - 1)
        } else {
            whole
        };
        assert(line@ =~= without_return(whole@));
        r.push(to_vec(line));
        proof {
            assert(texts(r@) =~= texts(before).push(line@));
            assert(rest@.skip(i as int + 1) =~= s@.skip(from as int + i as int + 1));
            let tail = lines_of(rest@.skip(i as int + 1));
            assert(texts(before) + (seq![line@] + tail) =~= texts(r@) + tail);
        }
        from = from + i + 1;
    }
    assert(s@.skip(from as int) =~= Seq::<char>::empty());
    assert(texts(r@) =~= texts(r@) + Seq::<Seq<char>>::empty());
    r
}

// ---------------------------------------------------------------------------
// Letter case
// ---------------------------------------------------------------------------

/// `c` with an ASCII capital made small.
pub open spec fn small(c: char) -> char {
    if 'A' <= c <= 'Z' {
        (c as u8 + 32) as u8 as char
    } else {
        c
    }
}

fn to_small(c: char) -> (r: char)
    ensures
        r == small(c),
{
    if 'A' <= c && c <= 'Z' {
        ((c as u8) + 32) as char
    } else {
        c
    }
}

/// Whether `s` begins with the small-letter text `p`, ASCII capitals in `s`
/// counting as small letters.
pub open spec fn begins_with_any_case(s: Seq<char>, p: Seq<char>) -> bool {
    s.len() >= p.len() && forall|i: int| 0 <= i < p.len() ==> small(#[trigger] s[i]) == p[i]
}

/// Whether a text begins with another, whatever the case of the letters.
pub fn starts_with_any_case(s: &[char], p: &str) -> (r: bool)
    ensures
        r == begins_with_any_case(s@, p@),
{
    let pat = chars_of(p);
    if pat.len() > s.len() {
        return false;
    }
    let mut i: usize = 0;
    while i < pat.len()
        invariant
            i <= pat@.len() <= s@.len(),
            pat@ == p@,
            forall|k: int| 0 <= k < i ==> small(#[trigger] s@[k]) == p@[k],
        decreases pat@.len() - i,
    {
        if to_small(s[i]) != pat[i] {
            return false;
        }
        i += 1;
    }
    true
}

// ---------------------------------------------------------------------------
// Cutting to a number of bytes
// ---------------------------------------------------------------------------

/// How many bytes a character takes in UTF-8.
pub open spec fn byte_width(c: char) -> nat {
    if (c as u32) < 0x80 {
        1
    } else if (c as u32) < 0x800 {
        2
    } else if (c as u32) < 0x1_0000 {
        3
    } else {
        4
    }
}

/// How many characters stand in the first `bytes` bytes of a text in UTF-8: all
/// where it has no more bytes; none can be told where the bytes end inside a
/// character.
pub open spec fn cut_length(s: Seq<char>, bytes: nat) -> Option<nat>
    decreases s.len(),
{
    if s.len() == 0 || bytes == 0 {
        Some(0)
    } else if byte_width(s[0]) > bytes {
        None
    } else {
        match cut_length(s.skip(1), (bytes - byte_width(s[0])) as nat) {
            Some(n) => Some(n + 1),
            None => None,
        }
    }
}

/// A text cut to its first `bytes` bytes, where they end between two characters.
pub open spec fn cut_to(s: Seq<char>, bytes: nat) -> Option<Seq<char>> {
    match cut_length(s, bytes) {
        Some(n) => Some(s.take(n as int)),
        None => None,
    }
}

fn width_of(c: char) -> (r: usize)
    ensures
        r == byte_width(c),
{
    let n: u32 = c as u32;
    if n < 0x80 {
        1
    } else if n < 0x800 {
        2
    } else if n < 0x1_0000 {
        3
    } else {
        4
    }
}

proof fn lemma_cut_length(s: Seq<char>, bytes: nat)
    ensures
        cut_length(s, bytes) matches Some(n) ==> n <= s.len(),
    decreases s.len(),
{
    if s.len() > 0 && bytes > 0 && byte_width(s[0]) <= bytes {
        lemma_cut_length(s.skip(1), (bytes - byte_width(s[0])) as nat);
    }
}

/// Cuts a text to its first `bytes` bytes, where they end between two characters.
pub fn cut(s: &[char], bytes: usize) -> (r: Option<&[char]>)
    ensures
        match r {
            Some(t) => cut_to(s@, bytes as nat) == Some(t@),
            None => cut_to(s@, bytes as nat) is None,
        },
{
    let len: usize = s.len();
    let mut i: usize = 0;
    let mut left: usize = bytes;
    assert(s@.skip(0) =~= s@);
    proof {
        lemma_cut_length(s@, bytes as nat);
    }
    while i < len && left > 0
        invariant
            len == s@.len(),
            i <= len,
            left <= bytes,
            cut_length(s@, bytes as nat) == (match cut_length(s@.skip(i as int), left as nat) {
                Some(n) => Some(n + i as nat),
                None => None,
            }),
        decreases len - i,
    {
        let width: usize = width_of(s[i]);
        if width > left {
            return None;
        }
        assert(s@.skip(i as int).skip(1) =~= s@.skip(i as int + 1));
        left = left - width;
        i += 1;
    }
    Some(slice_subrange(s, 0, i))
}

/// A text that is cut has as many bytes in UTF-8 as asked, or all that it had;
/// one that cannot be cut has more than asked.
pub proof fn law_cut_counts_bytes(s: Seq<char>, bytes: nat)
    ensures
        match cut_to(s, bytes) {
            Some(t) => encode_utf8(t).len() == (if encode_utf8(s).len() <= bytes {
                encode_utf8(s).len()
            } else {
                bytes
            }),
            None => encode_utf8(s).len() > bytes,
        },
    decreases s.len(),
{
    lemma_cut_length(s, bytes);
    if s.len() > 0 {
        char_is_scalar(s[0]);
        assert(encode_scalar(s[0] as u32).len() == byte_width(s[0]));
        assert(encode_utf8(s).len() == byte_width(s[0]) + encode_utf8(s.drop_first()).len());
    }
    if s.len() == 0 || bytes == 0 {
        assert(s.take(0) =~= Seq::empty());
        assert(encode_utf8(s.take(0)).len() == 0);
    } else {
        assert(s.drop_first() =~= s.skip(1));
        if byte_width(s[0]) <= bytes {
            let rest = (bytes - byte_width(s[0])) as nat;
            law_cut_counts_bytes(s.skip(1), rest);
            if let Some(n) = cut_length(s.skip(1), rest) {
                lemma_cut_length(s.skip(1), rest);
                let t = s.take((n + 1) as int);
                assert(t.drop_first() =~= s.skip(1).take(n as int));
                assert(encode_utf8(t).len() == byte_width(s[0]) + encode_utf8(
                    t.drop_first(),
                ).len());
            }
        }
    }
}

/// A text of no more bytes than that is not cut at all, and one that is cut keeps its
/// beginning.
pub proof fn law_short_text_is_kept(s: Seq<char>, bytes: nat)
    ensures
        encode_utf8(s).len() <= bytes ==> cut_to(s, bytes) == Some(s),
        cut_to(s, bytes) matches Some(t) ==> t.len() <= s.len() && t == s.take(t.len() as int),
{
    lemma_cut_length(s, bytes);
    lemma_short_length(s, bytes);
    assert(s.take(s.len() as int) =~= s);
}

proof fn lemma_short_length(s: Seq<char>, bytes: nat)
    ensures
        encode_utf8(s).len() <= bytes ==> cut_length(s, bytes) == Some(s.len()),
    decreases s.len(),
{
    if s.len() > 0 {
        char_is_scalar(s[0]);
        assert(encode_scalar(s[0] as u32).len() == byte_width(s[0]));
        assert(encode_utf8(s).len() == byte_width(s[0]) + encode_utf8(s.drop_first()).len());
        assert(s.drop_first() =~= s.skip(1));
        if encode_utf8(s).len() <= bytes {
            lemma_short_length(s.skip(1), (bytes - byte_width(s[0])) as nat);
        }
    }
}

// ---------------------------------------------------------------------------
// Numbers
// ---------------------------------------------------------------------------

/// Whether a character is a decimal digit.
pub open spec fn is_digit(c: char) -> bool {
    '0' <= c <= '9'
}

/// The value of a decimal digit.
pub open spec fn digit_value(c: char) -> nat {
    (c as u32 - '0' as u32) as nat
}

/// Whether a text is made of decimal digits.
pub open spec fn all_digits(s: Seq<char>) -> bool {
    forall|i: int| 0 <= i < s.len() ==> is_digit(#[trigger] s[i])
}

/// The number that a sequence of decimal digits stands for.
pub open spec fn digits_value(s: Seq<char>) -> nat
    decreases s.len(),
{
    if s.len() == 0 {
        0
    } else {
        digits_value(s.drop_last()) * 10 + digit_value(s.last())
    }
}

/// What a decimal numeral, with at most one plus sign before it, stands for:
/// nothing where it has no digit or another character, or is above `max`.
pub open spec fn number(s: Seq<char>, max: nat) -> Option<nat> {
    let d = if s.len() > 0 && s[0] == '+' {
        s.skip(1)
    } else {
        s
    };
    if d.len() > 0 && all_digits(d) && digits_value(d) <= max {
        Some(digits_value(d))
    } else {
        None
    }
}

proof fn lemma_digits_value_grows(s: Seq<char>, i: int)
    requires
        0 <= i <= s.len(),
        all_digits(s),
    ensures
        digits_value(s.take(i)) <= digits_value(s),
    decreases s.len(),
{
    if i == s.len() {
        assert(s.take(i) =~= s);
    } else {
        assert(s.drop_last().take(i) =~= s.take(i));
        lemma_digits_value_grows(s.drop_last(), i);
    }
}

/// Reads a decimal numeral no greater than `max`.
pub fn parse_number(s: &[char], max: u64) -> (r: Option<u64>)
    ensures
        match r {
            Some(n) => number(s@, max as nat) == Some(n as nat) && n <= max,
            None => number(s@, max as nat) is None,
        },
{
    let d = if s.len() > 0 && s[0] == '+' {
        slice_subrange(s, 1, s.len())
    } else {
        s
    };
    if d.len() == 0 {
        return None;
    }
    let mut n: u64 = 0;
    let mut i: usize = 0;
    while i < d.len()
        invariant
            i <= d@.len(),
            n == digits_value(d@.take(i as int)),
            n <= max,
            forall|k: int| 0 <= k < i ==> is_digit(#[trigger] d@[k]),
            d@.len() > 0,
            d@ == (if s@.len() > 0 && s@[0] == '+' {
                s@.skip(1)
            } else {
                s@
            }),
        decreases d@.len() - i,
    {
        let c = d[i];
        if c < '0' || c > '9' {
            assert(!is_digit(d@[i as int]));
            return None;
        }
        let v: u64 = (c as u32 - '0' as u32) as u64;
        proof {
            assert(d@.take(i as int + 1).drop_last() =~= d@.take(i as int));
            if all_digits(d@) {
                lemma_digits_value_grows(d@, i as int + 1);
            }
        }
        if n > max / 10 {
            return None;
        }
        if v > max - n * 10 {
            return None;
        }
        n = n * 10 + v;
        i += 1;
    }
    assert(d@.take(d@.len() as int) =~= d@);
    Some(n)
}

/// The number of sixteen bits that a text stands for.
pub fn parse_u16(s: &[char]) -> (r: Option<u16>)
    ensures
        match r {
            Some(n) => number(s@, 65535) == Some(n as nat),
            None => number(s@, 65535) is None,
        },
{
    match parse_number(s, 65535) {
        Some(n) => Some(n as u16),
        None => None,
    }
}

/// The number of thirty-two bits that a text stands for.
pub fn parse_u32(s: &[char]) -> (r: Option<u32>)
    ensures
        match r {
            Some(n) => number(s@, 0xffff_ffff) == Some(n as nat),
            None => number(s@, 0xffff_ffff) is None,
        },
{
    match parse_number(s, 0xffff_ffff) {
        Some(n) => Some(n as u32),
        None => None,
    }
}

/// The digit of a value below sixteen, in small letters from ten on.
pub open spec fn digit_char(v: nat) -> char {
    if v < 10 {
        (v + 48) as u8 as char
    } else {
        (v + 87) as u8 as char
    }
}

/// The numeral of `n` to the base `base`, without leading zeros.
pub open spec fn numeral(n: nat, base: nat) -> Seq<char>
    decreases n,
{
    if base < 2 || n < base {
        seq![digit_char(n)]
    } else {
        proof {
            assert(n / base < n) by (nonlinear_arith)
                requires
                    n >= base,
                    base >= 2,
            ;
        }
        numeral(n / base, base).push(digit_char(n % base))
    }
}

/// The decimal numeral of `n`.
pub open spec fn decimal(n: nat) -> Seq<char> {
    numeral(n, 10)
}

/// `s` with zeros before it, `width` characters long or longer.
pub open spec fn zero_padded(s: Seq<char>, width: nat) -> Seq<char>
    decreases width - s.len(),
{
    if s.len() >= width {
        s
    } else {
        zero_padded(seq!['0'] + s, width)
    }
}

fn digit_to_char(v: u64) -> (r: char)
    requires
        v < 16,
    ensures
        r == digit_char(v as nat),
{
    if v < 10 {
        (v as u8 + 48) as char
    } else {
        (v as u8 + 87) as char
    }
}

fn reversed(s: &[char]) -> (r: Vec<char>)
    ensures
        r@ == s@.reverse(),
{
    let mut r: Vec<char> = Vec::new();
    let mut j: usize = s.len();
    while j > 0
        invariant
            j <= s@.len(),
            r@.len() == s@.len() - j,
            forall|k: int| 0 <= k < r@.len() ==> r@[k] == s@[s@.len() - 1 - k],
        decreases j,
    {
        j -= 1;
        r.push(s[j]);
    }
    assert(r@ =~= s@.reverse());
    r
}

/// Writes `n` to the base `base`.
pub fn number_chars(n: u64, base: u64) -> (r: Vec<char>)
    requires
        2 <= base <= 16,
    ensures
        r@ == numeral(n as nat, base as nat),
{
    let mut low: Vec<char> = Vec::new();
    let mut rest: u64 = n;
    assert(low@.reverse() =~= Seq::<char>::empty());
    assert(numeral(rest as nat, base as nat) + low@.reverse() =~= numeral(n as nat, base as nat));
    while rest >= base
        invariant
            2 <= base <= 16,
            numeral(rest as nat, base as nat) + low@.reverse() == numeral(n as nat, base as nat),
        decreases rest,
    {
        let ghost before = low@;
        let d: u64 = rest % base;
        low.push(digit_to_char(d));
        proof {
            let c = digit_char(d as nat);
            assert(low@.reverse() =~= seq![c] + before.reverse());
            let high = numeral((rest / base) as nat, base as nat);
            assert(high.push(c) + before.reverse() =~= high + low@.reverse());
            assert(rest / base < rest) by (nonlinear_arith)
                requires
                    rest >= base,
                    base >= 2,
            ;
        }
        rest = rest / base;
    }
    let ghost before = low@;
    low.push(digit_to_char(rest));
    proof {
        let c = digit_char(rest as nat);
        assert(low@.reverse() =~= seq![c] + before.reverse());
    }
    reversed(low.as_slice())
}

/// Writes `n` in decimal.
pub fn decimal_string(n: u64) -> (r: String)
    ensures
        r@ == decimal(n as nat),
{
    let cs = number_chars(n, 10);
    string_of(cs.as_slice())
}

/// Writes `n` to the base `base`, with zeros before it up to `width` characters.
pub fn padded_number(n: u64, base: u64, width: usize) -> (r: String)
    requires
        2 <= base <= 16,
    ensures
        r@ == zero_padded(numeral(n as nat, base as nat), width as nat),
{
    let cs = number_chars(n, base);
    let mut zeros: Vec<char> = Vec::new();
    let ghost num = cs@;
    assert(zeros@ + num =~= num);
    let len: usize = cs.len();
    while len < width && zeros.len() < width - len
        invariant
            num.len() == len,
            len < width ==> zeros@.len() <= width - len,
            len >= width ==> zeros@.len() == 0,
            forall|k: int| 0 <= k < zeros@.len() ==> zeros@[k] == '0',
            zero_padded(zeros@ + num, width as nat) == zero_padded(num, width as nat),
        decreases width - zeros@.len(),
    {
        let ghost before = zeros@;
        zeros.push('0');
        assert(seq!['0'] + (before + num) =~= zeros@ + num);
    }
    let mut r = string_of(zeros.as_slice());
    let tail = string_of(cs.as_slice());
    r.append(tail.as_str());
    r
}

proof fn lemma_decimal_digits(n: nat)
    ensures
        decimal(n).len() > 0,
        all_digits(decimal(n)),
        digits_value(decimal(n)) == n,
    decreases n,
{
    if n < 10 {
        let s = seq![digit_char(n)];
        assert(decimal(n) =~= s);
        assert(s.drop_last() =~= Seq::<char>::empty());
        assert(is_digit(s[0]));
        assert(digits_value(s.drop_last()) == 0);
        assert(digit_value(s.last()) == n);
    } else {
        lemma_decimal_digits(n / 10);
        let high = decimal(n / 10);
        let s = high.push(digit_char(n % 10));
        assert(decimal(n) =~= s);
        assert(s.drop_last() =~= high);
        assert forall|i: int| 0 <= i < s.len() implies is_digit(#[trigger] s[i]) by {
            if i < high.len() {
                assert(s[i] == high[i]);
            }
        }
    }
}

/// A number reads back from its decimal numeral, which holds nothing but digits.
pub proof fn law_decimal_round_trip(n: nat, max: nat)
    requires
        n <= max,
    ensures
        number(decimal(n), max) == Some(n),
        decimal(n).len() > 0,
        all_digits(decimal(n)),
{
    lemma_decimal_digits(n);
    assert(is_digit(decimal(n)[0]));
}

// ---------------------------------------------------------------------------
// Maps from text to text
// ---------------------------------------------------------------------------

/// A map from text to text.
pub struct TextMap {
    entries: StringHashMap<String>,
}

impl View for TextMap {
    type V = Map<Seq<char>, Seq<char>>;

    closed spec fn view(&self) -> Map<Seq<char>, Seq<char>> {
        self.entries@.map_values(|s: String| s@)
    }
}

impl TextMap {
    pub fn new() -> (r: Self)
        ensures
            r@ == Map::<Seq<char>, Seq<char>>::empty(),
    {
        let r = TextMap { entries: StringHashMap::new() };
        assert(r@ =~= Map::<Seq<char>, Seq<char>>::empty());
        r
    }

    /// Sets the value of a key.
    pub fn insert(&mut self, key: String, value: String)
        ensures
            final(self)@ == old(self)@.insert(key@, value@),
    {
        self.entries.insert(key, value);
        assert(self@ =~= old(self)@.insert(key@, value@));
    }

    /// The value of a key.
    pub fn get(&self, key: &str) -> (r: Option<&String>)
        ensures
            match r {
                Some(v) => self@.contains_key(key@) && v@ == self@[key@],
                None => !self@.contains_key(key@),
            },
    {
        self.entries.get(key)
    }

    /// Whether a key has a value.
    pub fn contains(&self, key: &str) -> (r: bool)
        ensures
            r == self@.contains_key(key@),
    {
        self.entries.contains_key(key)
    }

    /// Takes a key out, and tells whether it was there.
    pub fn remove(&mut self, key: &str) -> (r: bool)
        ensures
            r == old(self)@.contains_key(key@),
            final(self)@ == old(self)@.remove(key@),
    {
        let had = self.entries.contains_key(key);
        self.entries.remove(key);
        assert(self@ =~= old(self)@.remove(key@));
        had
    }
}

/// The other ways to write a number: with a plus sign or with zeros before it. A number
/// above the greatest is none, nor is a text without digits or with anything else.
#[verifier::rlimit(40)]
#[verifier::spinoff_prover]
pub proof fn law_ways_to_write_a_number(n: nat, max: nat, s: Seq<char>, k: int)
    ensures
        n <= max ==> number(seq!['+'] + decimal(n), max) == Some(n),
        n <= max ==> number(seq!['0'] + decimal(n), max) == Some(n),
        n > max ==> number(decimal(n), max) is None,
        s.len() == 0 ==> number(s, max) is None,
        0 <= k < s.len() && !('0' <= s[k] <= '9') && (k > 0 || s[0] != '+') ==> number(s, max)
            is None,
{
    law_decimal_round_trip(n, n);
    let d = decimal(n);
    assert(all_digits(d)) by {
        lemma_decimal_digits(n);
    }
    let plus = seq!['+'] + d;
    assert(plus.skip(1) =~= d);
    assert(digits_value(d) == n) by {
        lemma_decimal_digits(n);
    }
    lemma_leading_zero(d);
    let zero = seq!['0'] + d;
    assert forall|j: int| 0 <= j < zero.len() implies is_digit(#[trigger] zero[j]) by {
        if j > 0 {
            assert(zero[j] == d[j - 1]);
        }
    }
    if 0 <= k < s.len() && !('0' <= s[k] <= '9') && (k > 0 || s[0] != '+') {
        let rest = if s[0] == '+' {
            s.skip(1)
        } else {
            s
        };
        if s[0] == '+' {
            assert(rest[k - 1] == s[k]);
        }
        assert(!all_digits(rest));
    }
}

proof fn lemma_leading_zero(d: Seq<char>)
    ensures
        digits_value(seq!['0'] + d) == digits_value(d),
    decreases d.len(),
{
    let z = seq!['0'] + d;
    if d.len() == 0 {
        assert(z.drop_last() =~= d);
        assert(digits_value(d) == 0);
    } else {
        assert(z.drop_last() =~= seq!['0'] + d.drop_last());
        assert(z.last() == d.last());
        lemma_leading_zero(d.drop_last());
    }
}

/// Trimming takes whitespace from both ends and nothing else.
pub proof fn law_trimming_takes_whitespace(s: Seq<char>)
    ensures
        exists|i: int, j: int|
            0 <= i <= j <= s.len() && trimmed(s) == #[trigger] s.subrange(i, j) && (forall|k: int|
                0 <= k < i || j <= k < s.len() ==> is_whitespace(#[trigger] s[k])) && (i < j
                ==> !is_whitespace(s[i]) && !is_whitespace(s[j - 1])),
{
    let i = lemma_start_of(s);
    let t = trimmed_start(s);
    let n = lemma_end_of(t);
    let j = i + n;
    assert(t.take(n) =~= s.subrange(i, j));
    assert forall|k: int| 0 <= k < i || j <= k < s.len() implies is_whitespace(#[trigger] s[k]) by {
        if k >= j {
            assert(s[k] == t[k - i]);
        }
    }
    if n > 0 {
        assert(s[i] == t[0]);
        assert(s[j - 1] == t[n - 1]);
    }
    assert(trimmed(s) == s.subrange(i, j));
}

proof fn lemma_start_of(s: Seq<char>) -> (i: int)
    ensures
        0 <= i <= s.len(),
        trimmed_start(s) == s.skip(i),
        forall|k: int| 0 <= k < i ==> is_whitespace(#[trigger] s[k]),
        i < s.len() ==> !is_whitespace(s[i]),
    decreases s.len(),
{
    if s.len() > 0 && is_whitespace(s[0]) {
        let rest = s.skip(1);
        let i = lemma_start_of(rest);
        assert(rest.skip(i) =~= s.skip(i + 1));
        assert forall|k: int| 0 <= k < i + 1 implies is_whitespace(#[trigger] s[k]) by {
            if k > 0 {
                assert(s[k] == rest[k - 1]);
            }
        }
        if i < rest.len() {
            assert(rest[i] == s[i + 1]);
        }
        i + 1
    } else {
        assert(s.skip(0) =~= s);
        0
    }
}

proof fn lemma_end_of(s: Seq<char>) -> (n: int)
    ensures
        0 <= n <= s.len(),
        trimmed_end(s) == s.take(n),
        forall|k: int| n <= k < s.len() ==> is_whitespace(#[trigger] s[k]),
        n > 0 ==> !is_whitespace(s[n - 1]),
        s.len() > 0 && !is_whitespace(s[0]) ==> n > 0,
    decreases s.len(),
{
    if s.len() > 0 && is_whitespace(s.last()) {
        let rest = s.drop_last();
        let n = lemma_end_of(rest);
        assert(rest.take(n) =~= s.take(n));
        assert forall|k: int| n <= k < s.len() implies is_whitespace(#[trigger] s[k]) by {
            if k < rest.len() {
                assert(s[k] == rest[k]);
            }
        }
        n
    } else {
        assert(s.take(s.len() as int) =~= s);
        s.len() as int
    }
}

} // verus!
