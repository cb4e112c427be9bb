//! Scanning text: searching, splitting into lines, skipping blanks, and decoding bytes.
//!
//! Contracts speak of a text as the sequence of its characters.
use vstd::prelude::*;
use vstd::utf8::*;
use core::str::Utf8Error;

verus! {

/// The place of the first `c` in `s`, if `s` holds one.
pub open spec fn index_of(s: Seq<char>, c: char) -> Option<int> {
    if exists|i: int| first_char_at(s, c, i) {
        Some(choose|i: int| first_char_at(s, c, i))
    } else {
        None
    }
}

/// Whether the first `c` in `s` stands at `i`.
pub open spec fn first_char_at(s: Seq<char>, c: char, i: int) -> bool {
    &&& 0 <= i < s.len()
    &&& s[i] == c
    &&& forall|j: int| 0 <= j < i ==> s[j] != c
}

/// Whether `pat` stands in `s` at `i`.
pub open spec fn occurs_at(s: Seq<char>, pat: Seq<char>, i: int) -> bool {
    &&& 0 <= i
    &&& i + pat.len() <= s.len()
    &&& s.subrange(i, i + pat.len()) == pat
}

/// Whether the first `pat` in `s` stands at `i`.
pub open spec fn first_text_at(s: Seq<char>, pat: Seq<char>, i: int) -> bool {
    &&& occurs_at(s, pat, i)
    &&& forall|j: int| 0 <= j < i ==> !#[trigger] occurs_at(s, pat, j)
}

/// The place of the first `pat` in `s`, if `s` holds one.
pub open spec fn find(s: Seq<char>, pat: Seq<char>) -> Option<int> {
    if exists|i: int| first_text_at(s, pat, i) {
        Some(choose|i: int| first_text_at(s, pat, i))
    } else {
        None
    }
}

/// The lines of `s` that a line feed ends, without that line feed.
pub open spec fn lines(s: Seq<char>) -> Seq<Seq<char>>
    decreases s.len(),
{
    match index_of(s, '\n') {
        Some(i) => if 0 <= i < s.len() {
            seq![s.take(i)] + lines(s.skip(i + 1))
        } else {
            seq![]
        },
        None => seq![],
    }
}

/// What follows the last line feed of `s`: all of `s` where it has none.
pub open spec fn last_part(s: Seq<char>) -> Seq<char>
    decreases s.len(),
{
    match index_of(s, '\n') {
        Some(i) => if 0 <= i < s.len() {
            last_part(s.skip(i + 1))
        } else {
            s
        },
        None => s,
    }
}

/// What follows the first `n` ended lines of `s`: all that is left where `s` has fewer.
pub open spec fn after_lines(s: Seq<char>, n: nat) -> Seq<char>
    decreases n,
{
    if n == 0 {
        s
    } else {
        match index_of(s, '\n') {
            Some(i) => after_lines(s.skip(i + 1), (n - 1) as nat),
            None => s,
        }
    }
}

/// The given lines, each followed by a line feed.
pub open spec fn unlines(ls: Seq<Seq<char>>) -> Seq<char>
    decreases ls.len(),
{
    if ls.len() == 0 {
        seq![]
    } else {
        ls[0].push('\n') + unlines(ls.skip(1))
    }
}

/// A space, a tab, a carriage return or a line feed.
pub open spec fn is_blank(c: char) -> bool {
    c == ' ' || c == '\t' || c == '\r' || c == '\n'
}

/// `s` without the blanks that it starts with.
pub open spec fn skip_blanks(s: Seq<char>) -> Seq<char>
    decreases s.len(),
{
    if s.len() > 0 && is_blank(s[0]) {
        skip_blanks(s.skip(1))
    } else {
        s
    }
}

/// Whether `s` starts with `pre`.
pub open spec fn starts_with(s: Seq<char>, pre: Seq<char>) -> bool {
    pre.len() <= s.len() && s.take(pre.len() as int) == pre
}

/// The place of the first occurrence is the value of the search.
pub proof fn lemma_index_of_is(s: Seq<char>, c: char, i: int)
    requires
        first_char_at(s, c, i),
    ensures
        index_of(s, c) == Some(i),
{
    let k = choose|k: int| first_char_at(s, c, k);
    assert(first_char_at(s, c, k));
    assert(k == i);
}

/// The search finds a place exactly where the text holds the character.
pub proof fn lemma_index_of(s: Seq<char>, c: char)
    ensures
        match index_of(s, c) {
            Some(i) => first_char_at(s, c, i),
            None => !s.contains(c),
        },
{
    if s.contains(c) {
        let k = choose|k: int| 0 <= k < s.len() && s[k] == c;
        lemma_first_char_exists(s, c, k);
    }
}

proof fn lemma_first_char_exists(s: Seq<char>, c: char, k: int)
    requires
        0 <= k < s.len(),
        s[k] == c,
    ensures
        exists|i: int| first_char_at(s, c, i),
    decreases k,
{
    if exists|j: int| 0 <= j < k && s[j] == c {
        let j = choose|j: int| 0 <= j < k && s[j] == c;
        lemma_first_char_exists(s, c, j);
    } else {
        assert(first_char_at(s, c, k));
    }
}

/// The place of the first occurrence of a text is the value of the search.
pub proof fn lemma_find_is(s: Seq<char>, pat: Seq<char>, i: int)
    requires
        first_text_at(s, pat, i),
    ensures
        find(s, pat) == Some(i),
{
    let k = choose|k: int| first_text_at(s, pat, k);
    assert(first_text_at(s, pat, k));
    assert(k == i);
}

/// The characters of `text`.
pub fn chars_of(text: &str) -> (r: Vec<char>)
    ensures
        r@ == text@,
{
    let mut r: Vec<char> = Vec::new();
    for c in it: text.chars()
        invariant
            it.seq() == text@,
            r@ == text@.take(it.index() as int),
    {
        r.push(c);
    }
    r
}

/// The place of the first `c` at or after `from`.
pub fn index_from(s: &Vec<char>, from: usize, c: char) -> (r: Option<usize>)
    requires
        from <= s@.len(),
    ensures
        match r {
            Some(i) => from <= i < s.len() && index_of(s@.skip(from as int), c) == Some(i - from),
            None => index_of(s@.skip(from as int), c) is None,
        },
{
    let ghost rest = s@.skip(from as int);
    let mut i: usize = from;
    while i < s.len()
        invariant
            from <= i <= s@.len(),
            rest == s@.skip(from as int),
            forall|j: int| 0 <= j < i - from ==> rest[j] != c,
        decreases s@.len() - i,
    {
        if s[i] == c {
            proof {
                lemma_index_of_is(rest, c, i - from);
            }
            return Some(i);
        }
        i = i + 1;
    }
    None
}

/// The error of `core::str::from_utf8`, carried and not looked into.
#[verifier::external_type_specification]
#[verifier::external_body]
pub struct ExUtf8Error(Utf8Error);

/// `core::str::from_utf8` accepts exactly the byte sequences that are well-formed UTF-8, and the
/// text that it gives has those bytes.
pub assume_specification[ core::str::from_utf8 ](v: &[u8]) -> (r: Result<&str, Utf8Error>)
    ensures
        r is Ok <==> valid_utf8(v@),
        r matches Ok(text) ==> encode_utf8(text@) == v@,
;

/// What a program printed, where it could be launched.
pub open spec fn output_view(output: Option<Vec<u8>>) -> Option<Seq<u8>> {
    match output {
        Some(bytes) => Some(bytes@),
        None => None,
    }
}

/// The text that `bytes` encode, where they are well-formed UTF-8.
pub fn decode(bytes: &[u8]) -> (r: Option<&str>)
    ensures
        match r {
            Some(text) => valid_utf8(bytes@) && text@ == decode_utf8(bytes@),
            None => !valid_utf8(bytes@),
        },
{
    match core::str::from_utf8(bytes) {
        Ok(text) => {
            proof {
                encode_utf8_decode_utf8(text@);
            }
            Some(text)
        },
        Err(_) => None,
    }
}

/// The place of the first character at or after `from` that is no blank.
pub fn blanks_end(s: &Vec<char>, from: usize) -> (r: usize)
    requires
        from <= s@.len(),
    ensures
        from <= r <= s@.len(),
        s@.skip(r as int) == skip_blanks(s@.skip(from as int)),
{
    let mut i: usize = from;
    while i < s.len() && (s[i] == ' ' || s[i] == '\t' || s[i] == '\r' || s[i] == '\n')
        invariant
            from <= i <= s@.len(),
            skip_blanks(s@.skip(i as int)) == skip_blanks(s@.skip(from as int)),
        decreases s@.len() - i,
    {
        assert(s@.skip(i as int).skip(1) =~= s@.skip(i + 1));
        i = i + 1;
    }
    i
}

/// Whether `pat` stands in `s` at `i`.
fn stands_at(s: &Vec<char>, pat: &Vec<char>, i: usize) -> (r: bool)
    requires
        i <= s@.len(),
    ensures
        r == occurs_at(s@, pat@, i as int),
{
    if s.len() - i < pat.len() {
        return false;
    }
    let mut k: usize = 0;
    while k < pat.len()
        invariant
            i + pat.len() <= s.len(),
            k <= pat@.len(),
            forall|j: int| 0 <= j < k ==> s@[i + j] == pat@[j],
        decreases pat@.len() - k,
    {
        if s[i + k] != pat[k] {
            assert(s@.subrange(i as int, i + pat@.len())[k as int] != pat@[k as int]);
            return false;
        }
        k = k + 1;
    }
    assert(s@.subrange(i as int, i + pat@.len()) =~= pat@);
    true
}

/// The place of the first `pat` in `s`.
pub fn find_text(s: &Vec<char>, pat: &Vec<char>) -> (r: Option<usize>)
    ensures
        match r {
            Some(i) => i <= s@.len() && find(s@, pat@) == Some(i as int),
            None => find(s@, pat@) is None,
        },
{
    let mut i: usize = 0;
    loop
        invariant
            i <= s@.len(),
            forall|j: int| 0 <= j < i ==> !#[trigger] occurs_at(s@, pat@, j),
        decreases s@.len() - i,
    {
        if stands_at(s, pat, i) {
            proof {
                lemma_find_is(s@, pat@, i as int);
            }
            return Some(i);
        }
        if i == s.len() {
            return None;
        }
        i = i + 1;
    }
}

/// Whether `text` starts with `pre`.
pub fn has_prefix(text: &str, pre: &str) -> (r: bool)
    ensures
        r == starts_with(text@, pre@),
{
    let s = chars_of(text);
    let pat = chars_of(pre);
    let r = stands_at(&s, &pat, 0);
    assert(pat@.len() <= s@.len() ==> s@.subrange(0, pat@.len() as int) == s@.take(
        pat@.len() as int,
    ));
    r
}

/// Whether `a` and `b` read the same.
pub fn same_text(a: &str, b: &str) -> (r: bool)
    ensures
        r == (a@ == b@),
{
    let s = chars_of(a);
    let pat = chars_of(b);
    let r = s.len() == pat.len() && stands_at(&s, &pat, 0);
    assert(pat@.len() == s@.len() ==> s@.subrange(0, pat@.len() as int) =~= s@);
    r
}

/// `head` followed by `tail`.
pub fn joined(head: &str, tail: &str) -> (r: String)
    ensures
        r@ == head@ + tail@,
{
    head.to_owned().concat(tail)
}

/// What each text of `parts` reads.
pub open spec fn texts(parts: Seq<&str>) -> Seq<Seq<char>> {
    parts.map_values(|t: &str| t@)
}

/// Splits `input` into its ended lines and what follows the last of them.
pub fn split_lines<'a>(input: &'a str) -> (r: (Vec<&'a str>, &'a str))
    ensures
        texts(r.0@) == lines(input@),
        r.1@ == last_part(input@),
{
    let s = chars_of(input);
    let mut found: Vec<&'a str> = Vec::new();
    let mut from: usize = 0;
    assert(s@.skip(0) =~= s@);
    assert(texts(found@) + lines(input@) =~= lines(input@));
    loop
        invariant
            s@ == input@,
            from <= s@.len(),
            texts(found@) + lines(input@.skip(from as int)) == lines(input@),
            last_part(input@.skip(from as int)) == last_part(input@),
        decreases s@.len() - from,
    {
        let ghost rest = input@.skip(from as int);
        let ghost before = texts(found@);
        match index_from(&s, from, '\n') {
            Some(i) => {
                let line = input.substring_char(from, i);
                found.push(line);
                proof {
                    assert(rest.take(i - from) =~= line@);
                    assert(rest.skip(i - from + 1) =~= input@.skip(i + 1));
                    assert(texts(found@) =~= before.push(line@));
                    assert(before + (seq![line@] + lines(input@.skip(i + 1))) =~= before.push(line@)
                        + lines(input@.skip(i + 1)));
                }
                from = i + 1;
            },
            None => {
                assert(before + lines(rest) =~= before);
                return (found, input.substring_char(from, s.len()));
            },
        }
    }
}

/// What follows the first `n` ended lines of `input`.
pub fn skip_lines<'a>(input: &'a str, n: usize) -> (r: &'a str)
    ensures
        r@ == after_lines(input@, n as nat),
{
    let s = chars_of(input);
    let mut from: usize = 0;
    let mut left: usize = n;
    assert(s@.skip(0) =~= s@);
    while left > 0
        invariant
            s@ == input@,
            from <= s@.len(),
            after_lines(input@.skip(from as int), left as nat) == after_lines(input@, n as nat),
        decreases left,
    {
        match index_from(&s, from, '\n') {
            Some(i) => {
                assert(input@.skip(from as int).skip(i - from + 1) =~= input@.skip(i + 1));
                from = i + 1;
            },
            None => {
                return input.substring_char(from, s.len());
            },
        }
        left = left - 1;
    }
    input.substring_char(from, s.len())
}

/// What `line` holds behind `label`, where it starts with `label`.
pub open spec fn behind(line: Seq<char>, label: Seq<char>) -> Option<Seq<char>> {
    if starts_with(line, label) {
        Some(line.skip(label.len() as int))
    } else {
        None
    }
}

/// What `line` holds behind `label`, where it starts with `label`.
pub fn strip_label<'a>(line: &'a str, label: &str) -> (r: Option<&'a str>)
    ensures
        match r {
            Some(value) => behind(line@, label@) == Some(value@),
            None => behind(line@, label@) is None,
        },
{
    if has_prefix(line, label) {
        Some(line.substring_char(label.unicode_len(), line.unicode_len()))
    } else {
        None
    }
}

/// Splitting into lines loses nothing: the lines and what follows the last of them make up the
/// text again, and none of them holds a line feed.
pub proof fn law_lines_lose_nothing(s: Seq<char>)
    ensures
        unlines(lines(s)) + last_part(s) == s,
        forall|i: int| 0 <= i < lines(s).len() ==> !(#[trigger] lines(s)[i]).contains('\n'),
        !last_part(s).contains('\n'),
    decreases s.len(),
{
    lemma_index_of(s, '\n');
    match index_of(s, '\n') {
        Some(i) => {
            let rest = s.skip(i + 1);
            law_lines_lose_nothing(rest);
            assert(lines(s).skip(1) =~= lines(rest));
            assert(s =~= s.take(i).push('\n') + rest);
            assert(unlines(lines(s)) + last_part(s) =~= s.take(i).push('\n') + (unlines(lines(rest))
                + last_part(rest)));
            assert forall|k: int| 0 <= k < lines(s).len() implies !(
            #[trigger] lines(s)[k]).contains('\n') by {
                if k > 0 {
                    assert(lines(s)[k] == lines(rest)[k - 1]);
                }
            }
        },
        None => {
            assert(unlines(lines(s)) + last_part(s) =~= s);
        },
    }
}

/// Lines that hold no line feed, each ended by one, read back as those lines, and what follows
/// them, if it holds no line feed, is what is left.
pub proof fn law_lines_read_back(ls: Seq<Seq<char>>, tail: Seq<char>)
    requires
        forall|i: int| 0 <= i < ls.len() ==> !(#[trigger] ls[i]).contains('\n'),
        !tail.contains('\n'),
    ensures
        lines(unlines(ls) + tail) == ls,
        last_part(unlines(ls) + tail) == tail,
    decreases ls.len(),
{
    let s = unlines(ls) + tail;
    lemma_index_of(s, '\n');
    if ls.len() == 0 {
        assert(s =~= tail);
        assert(lines(s) =~= ls);
    } else {
        let n = ls[0].len() as int;
        let more = ls.skip(1);
        assert(s =~= ls[0].push('\n') + (unlines(more) + tail));
        assert forall|j: int| 0 <= j < n implies s[j] != '\n' by {
            assert(s[j] == ls[0][j]);
        }
        assert(s[n] == '\n');
        lemma_index_of_is(s, '\n', n);
        assert forall|i: int| 0 <= i < more.len() implies !(#[trigger] more[i]).contains(
            '\n',
        ) by {
            assert(more[i] == ls[i + 1]);
        }
        law_lines_read_back(more, tail);
        assert(s.skip(n + 1) =~= unlines(more) + tail);
        assert(s.take(n) =~= ls[0]);
        assert(ls =~= seq![ls[0]] + more);
    }
}

/// The first lines of a text are dropped one by one.
pub proof fn lemma_after_lines(ls: Seq<Seq<char>>, tail: Seq<char>, n: nat)
    requires
        forall|i: int| 0 <= i < ls.len() ==> !(#[trigger] ls[i]).contains('\n'),
        n <= ls.len(),
    ensures
        after_lines(unlines(ls) + tail, n) == unlines(ls.skip(n as int)) + tail,
    decreases n,
{
    if n == 0 {
        assert(ls.skip(0) =~= ls);
    } else {
        let s = unlines(ls) + tail;
        let k = ls[0].len() as int;
        let more = ls.skip(1);
        assert(s =~= ls[0].push('\n') + (unlines(more) + tail));
        assert forall|j: int| 0 <= j < k implies s[j] != '\n' by {
            assert(s[j] == ls[0][j]);
        }
        assert(s[k] == '\n');
        lemma_index_of_is(s, '\n', k);
        assert forall|i: int| 0 <= i < more.len() implies !(#[trigger] more[i]).contains(
            '\n',
        ) by {
            assert(more[i] == ls[i + 1]);
        }
        assert(s.skip(k + 1) =~= unlines(more) + tail);
        lemma_after_lines(more, tail, (n - 1) as nat);
        assert(more.skip(n - 1) =~= ls.skip(n as int));
    }
}

/// Blanks hide no other character: what stands from the first `c` on, a character that is no
/// blank, is the same with and without the blanks before it.
pub proof fn lemma_skip_blanks_keeps(s: Seq<char>, c: char)
    requires
        !is_blank(c),
        s.contains(c),
    ensures
        skip_blanks(s).contains(c),
        skip_blanks(s).skip(index_of(skip_blanks(s), c)->0) == s.skip(index_of(s, c)->0),
    decreases s.len(),
{
    lemma_index_of(s, c);
    if s.len() > 0 && is_blank(s[0]) {
        let rest = s.skip(1);
        let i = index_of(s, c)->0;
        assert(rest[i - 1] == c);
        lemma_skip_blanks_keeps(rest, c);
        lemma_index_of_is(rest, c, i - 1);
        assert(rest.skip(i - 1) =~= s.skip(i));
    }
}

/// The search for a character finds its first place, and finds none only where there is none.
pub proof fn law_first_character_is_found(s: Seq<char>, c: char, i: int)
    ensures
        index_of(s, c) == Some(i) <==> 0 <= i < s.len() && s[i] == c && !s.take(i).contains(c),
        index_of(s, c) is None <==> !s.contains(c),
{
    lemma_index_of(s, c);
    if 0 <= i < s.len() && s[i] == c && !s.take(i).contains(c) {
        assert forall|j: int| 0 <= j < i implies s[j] != c by {
            assert(s.take(i)[j] == s[j]);
        }
        lemma_index_of_is(s, c, i);
    }
    if let Some(k) = index_of(s, c) {
        assert(s.contains(s[k]));
        assert forall|j: int| 0 <= j < k implies s.take(k)[j] != c by {}
    }
}

/// The search for a text finds its first place, and finds none only where there is none.
pub proof fn law_first_text_is_found(s: Seq<char>, pat: Seq<char>, i: int)
    ensures
        find(s, pat) == Some(i) <==> {
            &&& 0 <= i
            &&& i + pat.len() <= s.len()
            &&& s.subrange(i, i + pat.len()) == pat
            &&& forall|j: int| 0 <= j < i ==> #[trigger] s.subrange(j, j + pat.len()) != pat
        },
        find(s, pat) is None <==> forall|j: int|
            0 <= j <= s.len() - pat.len() ==> #[trigger] s.subrange(j, j + pat.len()) != pat,
{
    if exists|j: int|
        0 <= j <= s.len() - pat.len() && #[trigger] s.subrange(j, j + pat.len()) == pat {
        let j = choose|j: int|
            0 <= j <= s.len() - pat.len() && #[trigger] s.subrange(j, j + pat.len()) == pat;
        lemma_first_text_exists(s, pat, j);
    }
    if 0 <= i && i + pat.len() <= s.len() && s.subrange(i, i + pat.len()) == pat && (forall|j: int|
        0 <= j < i ==> #[trigger] s.subrange(j, j + pat.len()) != pat) {
        assert(first_text_at(s, pat, i));
        lemma_find_is(s, pat, i);
    }
    if let Some(k) = find(s, pat) {
        assert(first_text_at(s, pat, k));
        assert(s.subrange(k, k + pat.len()) == pat);
        assert forall|j: int| 0 <= j < k implies #[trigger] s.subrange(j, j + pat.len())
            != pat by {
            assert(!occurs_at(s, pat, j));
        }
    }
}

proof fn lemma_first_text_exists(s: Seq<char>, pat: Seq<char>, k: int)
    requires
        occurs_at(s, pat, k),
    ensures
        exists|i: int| first_text_at(s, pat, i),
    decreases k,
{
    if exists|j: int| 0 <= j < k && occurs_at(s, pat, j) {
        let j = choose|j: int| 0 <= j < k && occurs_at(s, pat, j);
        lemma_first_text_exists(s, pat, j);
    } else {
        assert(first_text_at(s, pat, k));
    }
}

/// A text starts with another exactly where it is that text and something behind it, and that is
/// what stands behind it as a label.
pub proof fn law_labels_come_off(label: Seq<char>, value: Seq<char>, line: Seq<char>)
    ensures
        starts_with(label + value, label),
        behind(label + value, label) == Some(value),
        starts_with(line, label) ==> line == label + line.skip(label.len() as int),
        behind(line, label) == Some(value) <==> line == label + value,
        behind(line, label) is Some <==> starts_with(line, label),
{
    assert((label + value).take(label.len() as int) =~= label);
    assert((label + value).skip(label.len() as int) =~= value);
    if starts_with(line, label) {
        assert(line =~= line.take(label.len() as int) + line.skip(label.len() as int));
    }
}

/// Spaces, tabs, carriage returns and line feeds are skipped, however many there are, and nothing
/// behind the last of them.
pub proof fn law_blanks_are_skipped(gap: Seq<char>, s: Seq<char>)
    requires
        forall|i: int|
            0 <= i < gap.len() ==> #[trigger] gap[i] == ' ' || gap[i] == '\t' || gap[i] == '\r'
                || gap[i] == '\n',
        s.len() > 0 ==> s[0] != ' ' && s[0] != '\t' && s[0] != '\r' && s[0] != '\n',
    ensures
        skip_blanks(gap + s) == s,
    decreases gap.len(),
{
    if gap.len() == 0 {
        assert(gap + s =~= s);
    } else {
        assert((gap + s)[0] == gap[0]);
        assert((gap + s).skip(1) =~= gap.skip(1) + s);
        assert forall|i: int| 0 <= i < gap.skip(1).len() implies #[trigger] gap.skip(1)[i] == ' '
            || gap.skip(1)[i] == '\t' || gap.skip(1)[i] == '\r' || gap.skip(1)[i] == '\n' by {
            assert(gap.skip(1)[i] == gap[i + 1]);
        }
        law_blanks_are_skipped(gap.skip(1), s);
    }
}

/// What is skipped are blanks, and all of those that a text starts with.
pub proof fn law_only_blanks_are_skipped(s: Seq<char>)
    ensures
        ({
            let n = s.len() - skip_blanks(s).len();
            &&& 0 <= n
            &&& skip_blanks(s) == s.skip(n)
            &&& forall|i: int|
                0 <= i < n ==> #[trigger] s[i] == ' ' || s[i] == '\t' || s[i] == '\r' || s[i]
                    == '\n'
            &&& n < s.len() ==> s[n] != ' ' && s[n] != '\t' && s[n] != '\r' && s[n] != '\n'
        }),
    decreases s.len(),
{
    if s.len() > 0 && is_blank(s[0]) {
        let rest = s.skip(1);
        law_only_blanks_are_skipped(rest);
        let n = s.len() - skip_blanks(s).len();
        assert(rest.skip(n - 1) =~= s.skip(n));
        assert forall|i: int| 0 <= i < n implies #[trigger] s[i] == ' ' || s[i] == '\t' || s[i]
            == '\r' || s[i] == '\n' by {
            if i > 0 {
                assert(rest[i - 1] == s[i]);
            }
        }
        if n < s.len() {
            assert(rest[n - 1] == s[n]);
        }
    } else {
        assert(s.skip(0) =~= s);
    }
}

/// The first lines of a text are dropped, as many as are asked for, or all of them where there are
/// fewer.
pub proof fn law_first_lines_are_dropped(ls: Seq<Seq<char>>, tail: Seq<char>, n: nat)
    requires
        forall|i: int| 0 <= i < ls.len() ==> !(#[trigger] ls[i]).contains('\n'),
        !tail.contains('\n'),
    ensures
        after_lines(unlines(ls) + tail, n) == if n <= ls.len() {
            unlines(ls.skip(n as int)) + tail
        } else {
            tail
        },
    decreases n,
{
    if n <= ls.len() {
        lemma_after_lines(ls, tail, n);
    } else if ls.len() == 0 {
        lemma_index_of(tail, '\n');
        if index_of(tail, '\n') is Some {
            assert(tail.contains(tail[index_of(tail, '\n')->0]));
        }
        assert(unlines(ls) + tail =~= tail);
    } else {
        let s = unlines(ls) + tail;
        let k = ls[0].len() as int;
        let more = ls.skip(1);
        assert(s =~= ls[0].push('\n') + (unlines(more) + tail));
        assert forall|j: int| 0 <= j < k implies s[j] != '\n' by {
            assert(s[j] == ls[0][j]);
        }
        assert(s[k] == '\n');
        lemma_index_of_is(s, '\n', k);
        assert forall|i: int| 0 <= i < more.len() implies !(#[trigger] more[i]).contains(
            '\n',
        ) by {
            assert(more[i] == ls[i + 1]);
        }
        assert(s.skip(k + 1) =~= unlines(more) + tail);
        law_first_lines_are_dropped(more, tail, (n - 1) as nat);
    }
}

/// Contracts see what a program printed byte for byte, and see none where it could not be launched.
/// They see each text of a list in its place.
pub proof fn law_output_is_seen_as_it_is(bytes: Vec<u8>, parts: Seq<&str>)
    ensures
        output_view(Some(bytes)) == Some(bytes@),
        output_view(None) is None,
        texts(parts).len() == parts.len(),
        forall|i: int| 0 <= i < parts.len() ==> #[trigger] texts(parts)[i] == parts[i]@,
{
}

/// A line more stands behind the others.
pub proof fn lemma_line_more(ls: Seq<Seq<char>>, line: Seq<char>)
    ensures
        unlines(ls.push(line)) == unlines(ls) + line.push('\n'),
    decreases ls.len(),
{
    let all = ls.push(line);
    if ls.len() == 0 {
        assert(unlines(all.skip(1)) =~= Seq::<char>::empty());
        assert(unlines(all) =~= unlines(ls) + line.push('\n'));
    } else {
        lemma_line_more(ls.skip(1), line);
        assert(all.skip(1) =~= ls.skip(1).push(line));
        assert(all[0] == ls[0]);
        assert(unlines(all) == ls[0].push('\n') + (unlines(ls.skip(1)) + line.push('\n')));
        assert(unlines(all) =~= unlines(ls) + line.push('\n'));
    }
}

} // verus!
