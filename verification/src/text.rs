//! Character-level scanning and splitting of text, specified over `Seq<char>`.

use vstd::prelude::*;
use vstd::string::StrSliceExecFns;
use vstd::string::StringExecFns;

verus! {

/// The sets of characters that a scan can run over.
#[derive(Debug, Clone, Copy)]
pub enum CharClass {
    /// Every character but the given one.
    Except(char),
    /// Space, tab, line feed, form feed and carriage return.
    AsciiWhitespace,
    /// Every character that is not in `AsciiWhitespace`.
    NonAsciiWhitespace,
    /// The characters with the Unicode property `White_Space`.
    Whitespace,
}

/// Space, tab, line feed, form feed or carriage return.
pub open spec fn is_ascii_whitespace(c: char) -> bool {
    c == ' ' || c == '\t' || c == '\n' || c == '\u{000C}' || c == '\r'
}

/// The characters with the Unicode property `White_Space`.
pub open spec fn is_whitespace(c: char) -> bool {
    ||| '\u{0009}' <= c <= '\u{000D}'
    ||| c == '\u{0020}'
    ||| c == '\u{0085}'
    ||| c == '\u{00A0}'
    ||| c == '\u{1680}'
    ||| '\u{2000}' <= c <= '\u{200A}'
    ||| c == '\u{2028}'
    ||| c == '\u{2029}'
    ||| c == '\u{202F}'
    ||| c == '\u{205F}'
    ||| c == '\u{3000}'
}

impl CharClass {
    /// Whether `c` belongs to the class.
    pub open spec fn has(self, c: char) -> bool {
        match self {
            CharClass::Except(other) => c != other,
            CharClass::AsciiWhitespace => is_ascii_whitespace(c),
            CharClass::NonAsciiWhitespace => !is_ascii_whitespace(c),
            CharClass::Whitespace => is_whitespace(c),
        }
    }

    /// Whether `c` belongs to the class.
    pub fn contains(&self, c: char) -> (found: bool)
        ensures
            found == self.has(c),
    {
        match self {
            CharClass::Except(other) => c != *other,
            CharClass::AsciiWhitespace => char_is_ascii_whitespace(c),
            CharClass::NonAsciiWhitespace => !char_is_ascii_whitespace(c),
            CharClass::Whitespace => char_is_whitespace(c),
        }
    }
}

/// Tests a character for ASCII whitespace.
pub fn char_is_ascii_whitespace(c: char) -> (found: bool)
    ensures
        found == is_ascii_whitespace(c),
{
    c == ' ' || c == '\t' || c == '\n' || c == '\u{000C}' || c == '\r'
}

/// Tests a character for the Unicode property `White_Space`.
pub fn char_is_whitespace(c: char) -> (found: bool)
    ensures
        found == is_whitespace(c),
{
    ('\u{0009}' <= c && c <= '\u{000D}') || c == '\u{0020}' || c == '\u{0085}' || c == '\u{00A0}'
        || c == '\u{1680}' || ('\u{2000}' <= c && c <= '\u{200A}') || c == '\u{2028}' || c
        == '\u{2029}' || c == '\u{202F}' || c == '\u{205F}' || c == '\u{3000}'
}

/// The length of the longest prefix of `s` whose characters all belong to
/// `class`.
pub open spec fn run(s: Seq<char>, class: CharClass) -> nat
    decreases s.len(),
{
    if s.len() > 0 && class.has(s[0]) {
        1 + run(s.drop_first(), class)
    } else {
        0
    }
}

/// The length of the longest suffix of `s` whose characters all belong to
/// `class`.
pub open spec fn run_back(s: Seq<char>, class: CharClass) -> nat
    decreases s.len(),
{
    if s.len() > 0 && class.has(s.last()) {
        1 + run_back(s.drop_last(), class)
    } else {
        0
    }
}

/// The index of the first `c` in `s`, or the length of `s` where there is none.
pub open spec fn position(s: Seq<char>, c: char) -> nat {
    run(s, CharClass::Except(c))
}

/// `s` cut at its first `delimiter`, which belongs to neither part.
pub open spec fn split_at_first(s: Seq<char>, delimiter: char) -> Option<(Seq<char>, Seq<char>)> {
    let at = position(s, delimiter);
    if at < s.len() {
        Some((s.take(at as int), s.skip(at as int + 1)))
    } else {
        None
    }
}

/// `s` cut at every `delimiter`: one piece more than there are delimiters,
/// empty pieces included.
pub open spec fn split_at_each(s: Seq<char>, delimiter: char) -> Seq<Seq<char>>
    decreases s.len(),
{
    let at = position(s, delimiter);
    if at < s.len() {
        seq![s.take(at as int)] + split_at_each(s.skip(at as int + 1), delimiter)
    } else {
        seq![s]
    }
}

/// `s` without its leading whitespace.
pub open spec fn trimmed_start(s: Seq<char>) -> Seq<char> {
    s.skip(run(s, CharClass::Whitespace) as int)
}

/// `s` without its trailing whitespace.
pub open spec fn trimmed_end(s: Seq<char>) -> Seq<char> {
    s.take(s.len() - run_back(s, CharClass::Whitespace))
}

/// `s` without its leading and trailing whitespace.
pub open spec fn trimmed(s: Seq<char>) -> Seq<char> {
    trimmed_end(trimmed_start(s))
}

/// The maximal runs of characters other than ASCII whitespace in `s`, in the
/// order in which they stand.
pub open spec fn tokens(s: Seq<char>) -> Seq<Seq<char>>
    decreases s.len(),
    via tokens_shrink
{
    let rest = s.skip(run(s, CharClass::AsciiWhitespace) as int);
    let end = run(rest, CharClass::NonAsciiWhitespace);
    if end == 0 {
        Seq::empty()
    } else {
        seq![rest.take(end as int)] + tokens(rest.skip(end as int))
    }
}

#[via_fn]
proof fn tokens_shrink(s: Seq<char>) {
    let rest = s.skip(run(s, CharClass::AsciiWhitespace) as int);
    lemma_run(s, CharClass::AsciiWhitespace);
    lemma_run(rest, CharClass::NonAsciiWhitespace);
}

/// A run never exceeds the sequence, stops at the first character outside
/// the class, and holds only characters of the class.
pub proof fn lemma_run(s: Seq<char>, class: CharClass)
    ensures
        run(s, class) <= s.len(),
        run(s, class) < s.len() ==> !class.has(s[run(s, class) as int]),
        forall|i: int| 0 <= i < run(s, class) ==> class.has(#[trigger] s[i]),
    decreases s.len(),
{
    if s.len() > 0 && class.has(s[0]) {
        let tail = s.drop_first();
        lemma_run(tail, class);
        assert forall|i: int| 0 <= i < run(s, class) implies class.has(#[trigger] s[i]) by {
            if i > 0 {
                assert(s[i] == tail[i - 1]);
            }
        }
        if run(s, class) < s.len() {
            assert(s[run(s, class) as int] == tail[run(tail, class) as int]);
        }
    }
}

/// A prefix of characters of the class that ends the sequence, or is followed
/// by a character outside the class, is the run.
pub proof fn lemma_run_is(s: Seq<char>, class: CharClass, k: int)
    requires
        0 <= k <= s.len(),
        forall|i: int| 0 <= i < k ==> class.has(#[trigger] s[i]),
        k < s.len() ==> !class.has(s[k]),
    ensures
        run(s, class) == k,
    decreases s.len(),
{
    if k > 0 {
        let tail = s.drop_first();
        assert(class.has(s[0]));
        assert forall|i: int| 0 <= i < k - 1 implies class.has(#[trigger] tail[i]) by {
            assert(tail[i] == s[i + 1]);
        }
        if k - 1 < tail.len() {
            assert(tail[k - 1] == s[k]);
        }
        lemma_run_is(tail, class, k - 1);
    }
}

/// The counterpart of `lemma_run` for suffixes.
pub proof fn lemma_run_back(s: Seq<char>, class: CharClass)
    ensures
        run_back(s, class) <= s.len(),
        run_back(s, class) < s.len() ==> !class.has(s[s.len() - run_back(s, class) - 1]),
        forall|i: int| s.len() - run_back(s, class) <= i < s.len() ==> class.has(#[trigger] s[i]),
    decreases s.len(),
{
    if s.len() > 0 && class.has(s.last()) {
        let head = s.drop_last();
        lemma_run_back(head, class);
        assert forall|i: int| s.len() - run_back(s, class) <= i < s.len() implies class.has(
            #[trigger] s[i],
        ) by {
            if i < s.len() - 1 {
                assert(s[i] == head[i]);
            }
        }
        if run_back(s, class) < s.len() {
            assert(s[s.len() - run_back(s, class) - 1] == head[head.len() - run_back(head, class)
                - 1]);
        }
    }
}

/// The counterpart of `lemma_run_is` for suffixes.
pub proof fn lemma_run_back_is(s: Seq<char>, class: CharClass, k: int)
    requires
        0 <= k <= s.len(),
        forall|i: int| s.len() - k <= i < s.len() ==> class.has(#[trigger] s[i]),
        k < s.len() ==> !class.has(s[s.len() - k - 1]),
    ensures
        run_back(s, class) == k,
    decreases s.len(),
{
    if k > 0 {
        let head = s.drop_last();
        assert(class.has(s[s.len() - 1]));
        assert forall|i: int| head.len() - (k - 1) <= i < head.len() implies class.has(
            #[trigger] head[i],
        ) by {
            assert(head[i] == s[i]);
        }
        if k - 1 < head.len() {
            assert(head[head.len() - (k - 1) - 1] == s[s.len() - k - 1]);
        }
        lemma_run_back_is(head, class, k - 1);
    }
}

/// Text that neither begins nor ends with whitespace is its own trimmed
/// form.
pub proof fn lemma_trimmed_same(s: Seq<char>)
    requires
        s.len() > 0,
        !is_whitespace(s[0]),
        !is_whitespace(s.last()),
    ensures
        trimmed(s) == s,
{
    lemma_run_is(s, CharClass::Whitespace, 0);
    assert(trimmed_start(s) == s);
    lemma_run_back_is(s, CharClass::Whitespace, 0);
    assert(trimmed_end(s) == s);
}

/// Whether every character of `s` belongs to `class`.
pub open spec fn all_in(s: Seq<char>, class: CharClass) -> bool {
    forall|i: int| 0 <= i < s.len() ==> class.has(#[trigger] s[i])
}

/// Text of a class, followed by nothing or by a character outside the
/// class, is the run of what the two make together.
pub proof fn lemma_run_of_prefix(prefix: Seq<char>, rest: Seq<char>, class: CharClass)
    requires
        all_in(prefix, class),
        rest.len() > 0 ==> !class.has(rest[0]),
    ensures
        run(prefix + rest, class) == prefix.len(),
        (prefix + rest).take(prefix.len() as int) == prefix,
        (prefix + rest).skip(prefix.len() as int) == rest,
{
    let whole = prefix + rest;
    assert forall|i: int| 0 <= i < prefix.len() implies class.has(#[trigger] whole[i]) by {
        assert(whole[i] == prefix[i]);
    }
    if rest.len() > 0 {
        assert(whole[prefix.len() as int] == rest[0]);
    }
    lemma_run_is(whole, class, prefix.len() as int);
    assert(whole.take(prefix.len() as int) == prefix);
    assert(whole.skip(prefix.len() as int) == rest);
}

/// Text of a class, preceded by nothing or by a character outside the
/// class, is the run at the end of what the two make together.
pub proof fn lemma_run_back_of_suffix(rest: Seq<char>, suffix: Seq<char>, class: CharClass)
    requires
        all_in(suffix, class),
        rest.len() > 0 ==> !class.has(rest.last()),
    ensures
        run_back(rest + suffix, class) == suffix.len(),
        (rest + suffix).take(rest.len() as int) == rest,
{
    let whole = rest + suffix;
    assert forall|i: int| whole.len() - suffix.len() <= i < whole.len() implies class.has(
        #[trigger] whole[i],
    ) by {
        assert(whole[i] == suffix[i - rest.len()]);
    }
    if rest.len() > 0 {
        assert(whole[whole.len() - suffix.len() - 1] == rest.last());
    }
    lemma_run_back_is(whole, class, suffix.len() as int);
    assert(whole.take(rest.len() as int) == rest);
}

/// Text that holds no `delimiter` before the first one written here is cut
/// exactly there.
pub proof fn lemma_split_at_first(head: Seq<char>, delimiter: char, tail: Seq<char>)
    requires
        all_in(head, CharClass::Except(delimiter)),
    ensures
        split_at_first(head + seq![delimiter] + tail, delimiter) == Some((head, tail)),
        split_at_each(head + seq![delimiter] + tail, delimiter) == seq![head] + split_at_each(
            tail,
            delimiter,
        ),
{
    let rest = seq![delimiter] + tail;
    let whole = head + seq![delimiter] + tail;
    assert(whole == head + rest);
    lemma_run_of_prefix(head, rest, CharClass::Except(delimiter));
    assert(whole.skip(head.len() as int + 1) == tail);
}

/// Text that holds no `delimiter` is not cut.
pub proof fn lemma_split_without_delimiter(s: Seq<char>, delimiter: char)
    requires
        all_in(s, CharClass::Except(delimiter)),
    ensures
        split_at_first(s, delimiter) is None,
        split_at_each(s, delimiter) == seq![s],
{
    lemma_run_is(s, CharClass::Except(delimiter), s.len() as int);
}

/// Whitespace around text that neither begins nor ends with whitespace is
/// what trimming takes away.
pub proof fn lemma_trimmed_padded(lead: Seq<char>, core: Seq<char>, trail: Seq<char>)
    requires
        all_in(lead, CharClass::Whitespace),
        all_in(trail, CharClass::Whitespace),
        core.len() > 0,
        !is_whitespace(core[0]),
        !is_whitespace(core.last()),
    ensures
        trimmed(lead + core + trail) == core,
{
    let whole = lead + core + trail;
    assert(whole == lead + (core + trail));
    assert((core + trail)[0] == core[0]);
    lemma_run_of_prefix(lead, core + trail, CharClass::Whitespace);
    assert(trimmed_start(whole) == core + trail);
    lemma_run_back_of_suffix(core, trail, CharClass::Whitespace);
}

/// Text that holds ASCII whitespace only has no tokens.
pub proof fn lemma_tokens_of_blank(blank: Seq<char>)
    requires
        all_in(blank, CharClass::AsciiWhitespace),
    ensures
        tokens(blank) == Seq::<Seq<char>>::empty(),
{
    lemma_run_is(blank, CharClass::AsciiWhitespace, blank.len() as int);
    let rest = blank.skip(blank.len() as int);
    assert(rest.len() == 0);
}

/// A word after whitespace, followed by nothing or by whitespace, is the
/// first token; the others are those of what follows it.
pub proof fn lemma_tokens_of_word(lead: Seq<char>, word: Seq<char>, rest: Seq<char>)
    requires
        all_in(lead, CharClass::AsciiWhitespace),
        word.len() > 0,
        all_in(word, CharClass::NonAsciiWhitespace),
        rest.len() > 0 ==> is_ascii_whitespace(rest[0]),
    ensures
        tokens(lead + word + rest) == seq![word] + tokens(rest),
{
    let whole = lead + word + rest;
    assert(whole == lead + (word + rest));
    assert((word + rest)[0] == word[0]);
    lemma_run_of_prefix(lead, word + rest, CharClass::AsciiWhitespace);
    lemma_run_of_prefix(word, rest, CharClass::NonAsciiWhitespace);
}

/// The characters of `s`, one by one.
pub fn chars_of(s: &str) -> (chars: Vec<char>)
    ensures
        chars@ == s@,
{
    let mut chars: Vec<char> = Vec::new();
    for c in it: s.chars()
        invariant
            chars@ == it.seq().take(it.index() as int),
            it.seq() == s@,
    {
        chars.push(c);
    }
    chars
}

/// Runs forward from `from` over the characters of `class`, no further than
/// `to`, and returns where the run ends.
pub fn scan(chars: &Vec<char>, from: usize, to: usize, class: CharClass) -> (at: usize)
    requires
        from <= to <= chars.len(),
    ensures
        from <= at <= to,
        at == from + run(chars@.subrange(from as int, to as int), class),
{
    let mut at = from;
    while at < to && class.contains(chars[at])
        invariant
            from <= at <= to <= chars.len(),
            forall|i: int| from <= i < at ==> class.has(#[trigger] chars@[i]),
        decreases to - at,
    {
        at += 1;
    }
    proof {
        let window = chars@.subrange(from as int, to as int);
        assert forall|i: int| 0 <= i < at - from implies class.has(#[trigger] window[i]) by {
            assert(window[i] == chars@[from + i]);
        }
        lemma_run_is(window, class, at - from);
    }
    at
}

/// Runs backward from `to` over the characters of `class`, no further than
/// `from`, and returns where the run begins.
pub fn scan_back(chars: &Vec<char>, from: usize, to: usize, class: CharClass) -> (at: usize)
    requires
        from <= to <= chars.len(),
    ensures
        from <= at <= to,
        at == to - run_back(chars@.subrange(from as int, to as int), class),
{
    let mut at = to;
    while at > from && class.contains(chars[at - 1])
        invariant
            from <= at <= to <= chars.len(),
            forall|i: int| at <= i < to ==> class.has(#[trigger] chars@[i]),
        decreases at - from,
    {
        at -= 1;
    }
    proof {
        let window = chars@.subrange(from as int, to as int);
        assert forall|i: int| window.len() - (to - at) <= i < window.len() implies class.has(
            #[trigger] window[i],
        ) by {
            assert(window[i] == chars@[from + i]);
        }
        lemma_run_back_is(window, class, to - at);
    }
    at
}

/// Whether two strings hold the same characters.
pub fn equal(a: &str, b: &str) -> (same: bool)
    ensures
        same == (a@ == b@),
{
    a.to_owned() == b.to_owned()
}

/// Whether `s` begins with the character `first`.
pub fn begins_with(s: &str, first: char) -> (found: bool)
    ensures
        found == (s@.len() > 0 && s@[0] == first),
{
    !s.is_empty() && s.get_char(0) == first
}

/// The characters of `s` from index `from` up to, not including, `to`.
pub fn slice(s: &str, from: usize, to: usize) -> (out: String)
    requires
        from <= to <= s@.len(),
    ensures
        out@ == s@.subrange(from as int, to as int),
{
    s.substring_char(from, to).to_owned()
}

/// `s` without its leading and trailing whitespace.
pub fn trim(s: &str) -> (out: String)
    ensures
        out@ == trimmed(s@),
{
    let chars = chars_of(s);
    let n = chars.len();
    let from = scan(&chars, 0, n, CharClass::Whitespace);
    let to = scan_back(&chars, from, n, CharClass::Whitespace);
    proof {
        assert(chars@.subrange(0, n as int) == s@);
        assert(chars@.subrange(from as int, n as int) == trimmed_start(s@));
        assert(s@.subrange(from as int, to as int) == trimmed(s@));
    }
    slice(s, from, to)
}

/// Cuts `s` at its first `delimiter`; `None` where `s` holds none.
pub fn split_once(s: &str, delimiter: char) -> (halves: Option<(String, String)>)
    ensures
        match halves {
            Some((head, tail)) => split_at_first(s@, delimiter) == Some((head@, tail@)),
            None => split_at_first(s@, delimiter) is None,
        },
{
    let chars = chars_of(s);
    let n = chars.len();
    let at = scan(&chars, 0, n, CharClass::Except(delimiter));
    proof {
        assert(chars@.subrange(0, n as int) == s@);
    }
    if at < n {
        let head = slice(s, 0, at);
        let tail = slice(s, at + 1, n);
        proof {
            assert(s@.subrange(0, at as int) == s@.take(at as int));
            assert(s@.subrange(at + 1, n as int) == s@.skip(at + 1));
        }
        Some((head, tail))
    } else {
        None
    }
}

/// The views of a list of strings.
pub open spec fn views(list: Seq<String>) -> Seq<Seq<char>> {
    Seq::new(list.len(), |i: int| list[i]@)
}

/// Cuts `s` at every `delimiter`.
pub fn split(s: &str, delimiter: char) -> (pieces: Vec<String>)
    ensures
        views(pieces@) == split_at_each(s@, delimiter),
{
    let chars = chars_of(s);
    let n = chars.len();
    let mut pieces: Vec<String> = Vec::new();
    let mut from: usize = 0;
    proof {
        assert(s@.skip(0) == s@);
        assert(views(pieces@) + split_at_each(s@, delimiter) == split_at_each(s@, delimiter));
    }
    loop
        invariant_except_break
            from <= n,
            views(pieces@) + split_at_each(s@.skip(from as int), delimiter) == split_at_each(
                s@,
                delimiter,
            ),
        invariant
            n == chars.len(),
            chars@ == s@,
        ensures
            views(pieces@) == split_at_each(s@, delimiter),
        decreases n - from,
    {
        let at = scan(&chars, from, n, CharClass::Except(delimiter));
        let piece = slice(s, from, at);
        proof {
            let rest = s@.skip(from as int);
            assert(chars@.subrange(from as int, n as int) == rest);
            assert(piece@ == rest.take(at - from));
            assert(views(pieces@.push(piece)) == views(pieces@).push(piece@));
            if at < n {
                assert(rest.skip(at - from + 1) == s@.skip(at + 1));
                assert(views(pieces@).push(piece@) + split_at_each(s@.skip(at + 1), delimiter)
                    == views(pieces@) + split_at_each(rest, delimiter));
            } else {
                assert(rest.take(at - from) == rest);
                assert(views(pieces@).push(piece@) == views(pieces@) + split_at_each(
                    rest,
                    delimiter,
                ));
            }
        }
        pieces.push(piece);
        if at == n {
            break;
        }
        from = at + 1;
    }
    pieces
}

/// The maximal runs of characters other than ASCII whitespace in `s`.
pub fn split_ascii_whitespace(s: &str) -> (words: Vec<String>)
    ensures
        views(words@) == tokens(s@),
{
    let chars = chars_of(s);
    let n = chars.len();
    let mut words: Vec<String> = Vec::new();
    let mut from: usize = 0;
    proof {
        assert(s@.skip(0) == s@);
        assert(views(words@) + tokens(s@) == tokens(s@));
    }
    loop
        invariant_except_break
            from <= n,
            views(words@) + tokens(s@.skip(from as int)) == tokens(s@),
        invariant
            n == chars.len(),
            chars@ == s@,
        ensures
            views(words@) == tokens(s@),
        decreases n - from,
    {
        let start = scan(&chars, from, n, CharClass::AsciiWhitespace);
        let end = scan(&chars, start, n, CharClass::NonAsciiWhitespace);
        proof {
            let before = s@.skip(from as int);
            let rest = before.skip(start - from);
            assert(chars@.subrange(from as int, n as int) == before);
            assert(chars@.subrange(start as int, n as int) == rest);
        }
        if end == start {
            proof {
                assert(views(words@) + Seq::<Seq<char>>::empty() == views(words@));
            }
            break;
        }
        let word = slice(s, start, end);
        proof {
            let before = s@.skip(from as int);
            let rest = before.skip(start - from);
            assert(word@ == rest.take(end - start));
            assert(rest.skip(end - start) == s@.skip(end as int));
            assert(views(words@.push(word)) == views(words@).push(word@));
            assert(views(words@).push(word@) + tokens(s@.skip(end as int)) == views(words@)
                + tokens(before));
        }
        words.push(word);
        from = end;
    }
    words
}

/// The character that writes the digit `d`.
pub open spec fn digit(d: nat) -> char {
    if d == 0 {
        '0'
    } else if d == 1 {
        '1'
    } else if d == 2 {
        '2'
    } else if d == 3 {
        '3'
    } else if d == 4 {
        '4'
    } else if d == 5 {
        '5'
    } else if d == 6 {
        '6'
    } else if d == 7 {
        '7'
    } else if d == 8 {
        '8'
    } else {
        '9'
    }
}

/// The digit that `c` writes; 0 for any other character.
pub open spec fn digit_value(c: char) -> nat {
    if c == '1' {
        1
    } else if c == '2' {
        2
    } else if c == '3' {
        3
    } else if c == '4' {
        4
    } else if c == '5' {
        5
    } else if c == '6' {
        6
    } else if c == '7' {
        7
    } else if c == '8' {
        8
    } else if c == '9' {
        9
    } else {
        0
    }
}

/// `n` in decimal, without sign or leading zeros.
pub open spec fn decimal_digits(n: nat) -> Seq<char>
    decreases n,
{
    if n < 10 {
        seq![digit(n)]
    } else {
        decimal_digits(n / 10).push(digit(n % 10))
    }
}

/// The number that a sequence of decimal digits writes.
pub open spec fn decimal_value(digits: Seq<char>) -> nat
    decreases digits.len(),
{
    if digits.len() == 0 {
        0
    } else {
        10 * decimal_value(digits.drop_last()) + digit_value(digits.last())
    }
}

/// Reading back what `decimal_digits` wrote gives the number again.
pub proof fn lemma_decimal_round_trip(n: nat)
    ensures
        decimal_value(decimal_digits(n)) == n,
        decimal_digits(n).len() >= 1,
    decreases n,
{
    if n < 10 {
        let digits = seq![digit(n)];
        assert(digits.drop_last() == Seq::<char>::empty());
        assert(decimal_value(digits.drop_last()) == 0);
        assert(digits.last() == digit(n));
    } else {
        lemma_decimal_round_trip(n / 10);
        let digits = decimal_digits(n / 10).push(digit(n % 10));
        assert(digits.drop_last() == decimal_digits(n / 10));
        assert(digits.last() == digit(n % 10));
    }
}

fn digit_str(d: usize) -> (out: &'static str)
    requires
        d < 10,
    ensures
        out@ == seq![digit(d as nat)],
{
    proof {
        reveal_strlit("0");
        reveal_strlit("1");
        reveal_strlit("2");
        reveal_strlit("3");
        reveal_strlit("4");
        reveal_strlit("5");
        reveal_strlit("6");
        reveal_strlit("7");
        reveal_strlit("8");
        reveal_strlit("9");
    }
    let out = if d == 0 {
        "0"
    } else if d == 1 {
        "1"
    } else if d == 2 {
        "2"
    } else if d == 3 {
        "3"
    } else if d == 4 {
        "4"
    } else if d == 5 {
        "5"
    } else if d == 6 {
        "6"
    } else if d == 7 {
        "7"
    } else if d == 8 {
        "8"
    } else {
        "9"
    };
    assert(out@ =~= seq![digit(d as nat)]);
    out
}

/// Writes `n` in decimal.
pub fn decimal(n: usize) -> (out: String)
    ensures
        out@ == decimal_digits(n as nat),
    decreases n,
{
    if n < 10 {
        digit_str(n).to_owned()
    } else {
        let mut out = decimal(n / 10);
        out.append(digit_str(n % 10));
        out
    }
}

} // verus!
