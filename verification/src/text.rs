//! The lexical layer: white space, markers, and decimal numbers, over sequences
//! of characters.

use vstd::prelude::*;

verus! {

/// White space: the code points that Unicode classes as `White_Space`.
pub open spec fn is_space(c: char) -> bool {
    let n = c as u32;
    ||| 0x09 <= n <= 0x0d
    ||| n == 0x20
    ||| n == 0x85
    ||| n == 0xa0
    ||| n == 0x1680
    ||| 0x2000 <= n <= 0x200a
    ||| n == 0x2028
    ||| n == 0x2029
    ||| n == 0x202f
    ||| n == 0x205f
    ||| n == 0x3000
}

/// Decides [`is_space`].
pub fn space(c: char) -> (r: bool)
    ensures
        r == is_space(c),
{
    let n: u32 = c as u32;
    (0x09 <= n && n <= 0x0d) || n == 0x20 || n == 0x85 || n == 0xa0 || n == 0x1680 || (0x2000 <= n
        && n <= 0x200a) || n == 0x2028 || n == 0x2029 || n == 0x202f || n == 0x205f || n == 0x3000
}

/// What a scan through a line looks for.
#[derive(Clone, Copy, Debug, PartialEq, Eq)]
pub enum Mark {
    /// One given character.
    Char(char),
    /// Two given characters, one right after the other.
    Pair(char, char),
    /// Any white space.
    Space,
    /// Anything but white space.
    Word,
}

impl Mark {
    /// Whether the mark stands at position `i` of `s`.
    pub open spec fn at(self, s: Seq<char>, i: int) -> bool {
        match self {
            Mark::Char(c) => s[i] == c,
            Mark::Pair(a, b) => i + 1 < s.len() && s[i] == a && s[i + 1] == b,
            Mark::Space => is_space(s[i]),
            Mark::Word => !is_space(s[i]),
        }
    }
}

/// The first position at or after `from` where `mark` stands in `s`, or the
/// length of `s` if there is none.
pub open spec fn first(s: Seq<char>, from: int, mark: Mark) -> int
    decreases s.len() - from,
{
    if from < 0 || from >= s.len() {
        s.len() as int
    } else if mark.at(s, from) {
        from
    } else {
        first(s, from + 1, mark)
    }
}

/// `first` lies between `from` and the end, no mark stands before it, and one
/// stands at it unless it is the end.
pub proof fn lemma_first(s: Seq<char>, from: int, mark: Mark)
    requires
        0 <= from <= s.len(),
    ensures
        from <= first(s, from, mark) <= s.len(),
        forall|j: int| from <= j < first(s, from, mark) ==> !mark.at(s, j),
        first(s, from, mark) < s.len() ==> mark.at(s, first(s, from, mark)),
    decreases s.len() - from,
{
    if from < s.len() && !mark.at(s, from) {
        lemma_first(s, from + 1, mark);
    }
}

/// A position with these three qualities is the one that `first` names.
pub proof fn lemma_first_is(s: Seq<char>, from: int, mark: Mark, at: int)
    requires
        0 <= from <= at <= s.len(),
        forall|j: int| from <= j < at ==> !mark.at(s, j),
        at < s.len() ==> mark.at(s, at),
    ensures
        first(s, from, mark) == at,
    decreases at - from,
{
    if from < at {
        lemma_first_is(s, from + 1, mark, at);
    }
}

/// Whether `mark` stands at position `i` of the first `end` characters of `text`.
fn stands(text: &Vec<char>, i: usize, end: usize, mark: Mark) -> (r: bool)
    requires
        i < end <= text.len(),
    ensures
        r == mark.at(text@.take(end as int), i as int),
{
    match mark {
        Mark::Char(c) => text[i] == c,
        Mark::Pair(a, b) => i + 1 < end && text[i] == a && text[i + 1] == b,
        Mark::Space => space(text[i]),
        Mark::Word => !space(text[i]),
    }
}

/// Scans the first `end` characters of `text` from position `from` for `mark`.
pub fn find(text: &Vec<char>, from: usize, end: usize, mark: Mark) -> (r: usize)
    requires
        from <= end <= text.len(),
    ensures
        r == first(text@.take(end as int), from as int, mark),
        from <= r <= end,
{
    let mut i: usize = from;
    while i < end && !stands(text, i, end, mark)
        invariant
            from <= i <= end <= text.len(),
            first(text@.take(end as int), from as int, mark) == first(
                text@.take(end as int),
                i as int,
                mark,
            ),
        decreases end - i,
    {
        i += 1;
    }
    i
}

/// The text of a line before its comment. A comment starts at `//`; in what is
/// left, at `;`; and in what is then left, at `#`.
pub open spec fn strip_comment(line: Seq<char>) -> Seq<char> {
    let a = line.take(first(line, 0, Mark::Pair('/', '/')));
    let b = a.take(first(a, 0, Mark::Char(';')));
    b.take(first(b, 0, Mark::Char('#')))
}

/// The comment starts at the earliest of the three markers.
pub proof fn lemma_comment_starts_at_earliest_marker(line: Seq<char>)
    ensures
        ({
            let p = first(line, 0, Mark::Pair('/', '/'));
            let q = first(line, 0, Mark::Char(';'));
            let r = first(line, 0, Mark::Char('#'));
            let least = if p <= q && p <= r { p } else if q <= r { q } else { r };
            strip_comment(line) == line.take(least)
        }),
{
    let p = first(line, 0, Mark::Pair('/', '/'));
    let q = first(line, 0, Mark::Char(';'));
    let r = first(line, 0, Mark::Char('#'));
    lemma_first(line, 0, Mark::Pair('/', '/'));
    lemma_first(line, 0, Mark::Char(';'));
    lemma_first(line, 0, Mark::Char('#'));
    let a = line.take(p);
    let pq = if p <= q { p } else { q };
    assert forall|j: int| 0 <= j < pq implies !Mark::Char(';').at(a, j) by {
        assert(!Mark::Char(';').at(line, j));
    }
    lemma_first_is(a, 0, Mark::Char(';'), pq);
    let b = a.take(pq);
    assert(b =~= line.take(pq));
    let least = if pq <= r { pq } else { r };
    assert forall|j: int| 0 <= j < least implies !Mark::Char('#').at(b, j) by {
        assert(!Mark::Char('#').at(line, j));
    }
    lemma_first_is(b, 0, Mark::Char('#'), least);
    assert(b.take(least) =~= line.take(least));
}

/// The length of the text of a line before its comment.
pub fn code_end(line: &Vec<char>) -> (r: usize)
    ensures
        r <= line.len(),
        r == strip_comment(line@).len(),
        line@.take(r as int) == strip_comment(line@),
{
    let a: usize = find(line, 0, line.len(), Mark::Pair('/', '/'));
    assert(line@.take(line.len() as int) =~= line@);
    let b: usize = find(line, 0, a, Mark::Char(';'));
    assert(line@.take(a as int).take(b as int) =~= line@.take(b as int));
    let c: usize = find(line, 0, b, Mark::Char('#'));
    assert(line@.take(b as int).take(c as int) =~= line@.take(c as int));
    c
}

/// The position just after the last character of `s` before `upto` that is
/// not white space, or 0 if there is none.
pub open spec fn last_solid(s: Seq<char>, upto: int) -> int
    decreases upto,
{
    if upto <= 0 || upto > s.len() {
        0
    } else if !is_space(s[upto - 1]) {
        upto
    } else {
        last_solid(s, upto - 1)
    }
}

/// `s` without the white space at its two ends. White space inside stays.
pub open spec fn trimmed(s: Seq<char>) -> Seq<char> {
    let start = first(s, 0, Mark::Word);
    let end = last_solid(s, s.len() as int);
    if start < end {
        s.subrange(start, end)
    } else {
        Seq::empty()
    }
}

/// `last_solid` lies at or before `upto`, only white space stands from it up
/// to `upto`, and the character before it, if there is one, is not white space.
pub proof fn lemma_last_solid(s: Seq<char>, upto: int)
    requires
        0 <= upto <= s.len(),
    ensures
        0 <= last_solid(s, upto) <= upto,
        forall|j: int| last_solid(s, upto) <= j < upto ==> is_space(#[trigger] s[j]),
        last_solid(s, upto) > 0 ==> !is_space(s[last_solid(s, upto) - 1]),
    decreases upto,
{
    if upto > 0 && is_space(s[upto - 1]) {
        lemma_last_solid(s, upto - 1);
    }
}

/// What is trimmed has no white space at either end, and `s` is what is
/// trimmed with nothing but white space before and after it.
pub proof fn lemma_trimmed(s: Seq<char>)
    ensures
        trimmed(s).len() > 0 ==> !is_space(trimmed(s)[0]) && !is_space(trimmed(s).last()),
        ({
            let start = first(s, 0, Mark::Word);
            let end = last_solid(s, s.len() as int);
            if start < end {
                &&& s == s.take(start) + trimmed(s) + s.skip(end)
                &&& forall|j: int| 0 <= j < start ==> is_space(#[trigger] s[j])
                &&& forall|j: int| end <= j < s.len() ==> is_space(#[trigger] s[j])
            } else {
                forall|j: int| 0 <= j < s.len() ==> is_space(#[trigger] s[j])
            }
        }),
{
    let start = first(s, 0, Mark::Word);
    let end = last_solid(s, s.len() as int);
    lemma_first(s, 0, Mark::Word);
    lemma_last_solid(s, s.len() as int);
    assert forall|j: int| 0 <= j < start implies is_space(#[trigger] s[j]) by {
        assert(!Mark::Word.at(s, j));
    }
    if start < end {
        assert(Mark::Word.at(s, start));
        assert(s =~= s.take(start) + trimmed(s) + s.skip(end));
    } else {
        assert forall|j: int| 0 <= j < s.len() implies is_space(#[trigger] s[j]) by {
            if j >= start {
                assert(j >= end);
            }
        }
    }
}

/// A text without white space at its ends is trimmed already.
pub proof fn lemma_trimmed_already(s: Seq<char>)
    requires
        s.len() > 0 ==> !is_space(s[0]) && !is_space(s.last()),
    ensures
        trimmed(s) == s,
{
    if s.len() > 0 {
        assert(Mark::Word.at(s, 0));
        assert(s.subrange(0, s.len() as int) =~= s);
    } else {
        assert(s =~= Seq::<char>::empty());
    }
}

/// `text` without the white space at its two ends.
pub fn trim(text: &Vec<char>) -> (r: Vec<char>)
    ensures
        r@ == trimmed(text@),
{
    let len: usize = text.len();
    let start: usize = find(text, 0, len, Mark::Word);
    assert(text@.take(len as int) =~= text@);
    let mut end: usize = len;
    while end > 0 && space(text[end - 1])
        invariant
            end <= len,
            len == text.len(),
            last_solid(text@, len as int) == last_solid(text@, end as int),
        decreases end,
    {
        end -= 1;
    }
    if start < end {
        slice_of(text, start, end)
    } else {
        Vec::new()
    }
}

/// The characters of `s`, one by one.
pub fn chars_of(s: &str) -> (r: Vec<char>)
    ensures
        r@ == s@,
{
    let mut out: Vec<char> = Vec::new();
    for c in it: s.chars()
        invariant
            it.seq() == s@,
            out@.len() == it.index(),
            forall|j: int| 0 <= j < out@.len() ==> out@[j] == s@[j],
    {
        out.push(c);
    }
    assert(out@ =~= s@);
    out
}

/// `String::push` appends one character to the end of the string.
pub assume_specification[ String::push ](s: &mut String, ch: char)
    ensures
        final(s)@ == old(s)@.push(ch),
;

/// The characters of `text` from position `from` up to `to`.
pub fn slice_of(text: &Vec<char>, from: usize, to: usize) -> (r: Vec<char>)
    requires
        from <= to <= text.len(),
    ensures
        r@ == text@.subrange(from as int, to as int),
{
    let mut out: Vec<char> = Vec::new();
    let mut i: usize = from;
    while i < to
        invariant
            from <= i <= to <= text.len(),
            out@ == text@.subrange(from as int, i as int),
        decreases to - i,
    {
        out.push(text[i]);
        assert(text@.subrange(from as int, i + 1) =~= text@.subrange(from as int, i as int).push(
            text@[i as int],
        ));
        i += 1;
    }
    out
}

/// The characters of `text` from position `from` up to `to`, as a string.
pub fn string_of(text: &Vec<char>, from: usize, to: usize) -> (r: String)
    requires
        from <= to <= text.len(),
    ensures
        r@ == text@.subrange(from as int, to as int),
{
    let mut out: String = String::new();
    let mut i: usize = from;
    while i < to
        invariant
            from <= i <= to <= text.len(),
            out@ == text@.subrange(from as int, i as int),
        decreases to - i,
    {
        out.push(text[i]);
        assert(text@.subrange(from as int, i + 1) =~= text@.subrange(from as int, i as int).push(
            text@[i as int],
        ));
        i += 1;
    }
    out
}

/// Whether the characters of `text` from `from` up to `to` spell `word`.
pub fn spells(text: &Vec<char>, from: usize, to: usize, word: &str) -> (r: bool)
    requires
        from <= to <= text.len(),
    ensures
        r == (text@.subrange(from as int, to as int) == word@),
{
    let n: usize = word.unicode_len();
    if n != to - from {
        return false;
    }
    let ghost part = text@.subrange(from as int, to as int);
    let mut i: usize = 0;
    while i < n
        invariant
            from <= to <= text.len(),
            n == to - from,
            n == word@.len(),
            i <= n,
            part == text@.subrange(from as int, to as int),
            forall|j: int| 0 <= j < i ==> part[j] == word@[j],
        decreases n - i,
    {
        if word.get_char(i) != text[from + i] {
            assert(part[i as int] != word@[i as int]);
            return false;
        }
        i += 1;
    }
    assert(part =~= word@);
    true
}

/// The test that keeps what is not white space.
pub open spec fn solid() -> spec_fn(char) -> bool {
    |c: char| !is_space(c)
}

/// `s` without its white space.
pub open spec fn squeeze(s: Seq<char>) -> Seq<char> {
    s.filter(solid())
}

/// The first `end` characters of `text` from position `from` on, without their
/// white space.
pub fn squeezed(text: &Vec<char>, from: usize, end: usize) -> (r: Vec<char>)
    requires
        from <= end <= text.len(),
    ensures
        r@ == squeeze(text@.subrange(from as int, end as int)),
{
    let mut out: Vec<char> = Vec::new();
    let mut i: usize = from;
    proof {
        reveal(Seq::filter);
        assert(text@.subrange(from as int, from as int) =~= Seq::<char>::empty());
    }
    while i < end
        invariant
            from <= i <= end <= text.len(),
            out@ == squeeze(text@.subrange(from as int, i as int)),
        decreases end - i,
    {
        let c: char = text[i];
        proof {
            reveal(Seq::filter);
            let longer = text@.subrange(from as int, i + 1);
            assert(longer.drop_last() =~= text@.subrange(from as int, i as int));
            assert(longer.last() == c);
        }
        if !space(c) {
            out.push(c);
        }
        i += 1;
    }
    out
}

/// The pieces of `s` from position `from` on that lie between occurrences of
/// `sep`: one more piece than there are occurrences.
pub open spec fn pieces(s: Seq<char>, from: int, sep: char) -> Seq<Seq<char>>
    decreases s.len() - from,
{
    let n = first(s, from, Mark::Char(sep));
    if from < 0 || n < from || n >= s.len() {
        seq![s.subrange(from, s.len() as int)]
    } else {
        seq![s.subrange(from, n)] + pieces(s, n + 1, sep)
    }
}

/// `items` in a row, with `sep` between each two.
pub open spec fn joined(items: Seq<Seq<char>>, sep: char) -> Seq<char>
    decreases items.len(),
{
    if items.len() == 0 {
        Seq::empty()
    } else if items.len() == 1 {
        items[0]
    } else {
        items[0] + seq![sep] + joined(items.drop_first(), sep)
    }
}

/// There is a piece, no piece holds `sep`, and the pieces joined by `sep` are
/// the text that they were cut from.
pub proof fn lemma_pieces(s: Seq<char>, from: int, sep: char)
    requires
        0 <= from <= s.len(),
    ensures
        pieces(s, from, sep).len() >= 1,
        forall|i: int|
            0 <= i < pieces(s, from, sep).len() ==> !(#[trigger] pieces(s, from, sep)[i]).contains(
                sep,
            ),
        joined(pieces(s, from, sep), sep) == s.skip(from),
    decreases s.len() - from,
{
    let n = first(s, from, Mark::Char(sep));
    lemma_first(s, from, Mark::Char(sep));
    let head = s.subrange(from, n);
    assert(!head.contains(sep)) by {
        if head.contains(sep) {
            let j = choose|j: int| 0 <= j < head.len() && head[j] == sep;
            assert(Mark::Char(sep).at(s, from + j));
        }
    }
    if n >= s.len() {
        assert(head =~= s.skip(from));
    } else {
        lemma_pieces(s, n + 1, sep);
        let tail = pieces(s, n + 1, sep);
        let all = pieces(s, from, sep);
        assert(all =~= seq![head] + tail);
        assert(all.drop_first() =~= tail);
        assert forall|i: int| 0 <= i < all.len() implies !(#[trigger] all[i]).contains(sep) by {
            if i > 0 {
                assert(all[i] == tail[i - 1]);
            }
        }
        assert(joined(all, sep) =~= s.skip(from));
    }
}

/// The pieces of a text without white space hold no white space.
pub proof fn lemma_pieces_of_solid_text(s: Seq<char>, from: int, sep: char)
    requires
        0 <= from <= s.len(),
        forall|j: int| 0 <= j < s.len() ==> !is_space(#[trigger] s[j]),
    ensures
        forall|i: int, j: int|
            0 <= i < pieces(s, from, sep).len() && 0 <= j < pieces(s, from, sep)[i].len()
                ==> !is_space(#[trigger] pieces(s, from, sep)[i][j]),
    decreases s.len() - from,
{
    let n = first(s, from, Mark::Char(sep));
    lemma_first(s, from, Mark::Char(sep));
    let all = pieces(s, from, sep);
    if n < s.len() {
        lemma_pieces_of_solid_text(s, n + 1, sep);
        let tail = pieces(s, n + 1, sep);
        assert(all =~= seq![s.subrange(from, n)] + tail);
        assert forall|i: int, j: int| 0 <= i < all.len() && 0 <= j < all[i].len() implies !is_space(
            #[trigger] all[i][j],
        ) by {
            if i > 0 {
                assert(all[i] == tail[i - 1]);
                assert(!is_space(tail[i - 1][j]));
            } else {
                assert(all[0][j] == s[from + j]);
            }
        }
    } else {
        assert forall|i: int, j: int| 0 <= i < all.len() && 0 <= j < all[i].len() implies !is_space(
            #[trigger] all[i][j],
        ) by {
            assert(all[0][j] == s[from + j]);
        }
    }
}

/// The operands of a text that was squeezed have no white space to trim.
pub proof fn lemma_operands_are_trimmed(text: Seq<char>, k: int)
    requires
        0 <= k < operands(squeeze(text)).len(),
    ensures
        trimmed(operands(squeeze(text))[k]) == operands(squeeze(text))[k],
{
    let s = squeeze(text);
    assert forall|j: int| 0 <= j < s.len() implies !is_space(#[trigger] s[j]) by {
        text.lemma_filter_pred(solid(), j);
    }
    lemma_pieces_of_solid_text(s, 0, ',');
    let item = operands(s)[k];
    if item.len() > 0 {
        assert(!is_space(pieces(s, 0, ',')[k][0]));
        assert(!is_space(pieces(s, 0, ',')[k][item.len() - 1]));
    }
    lemma_trimmed_already(item);
}

/// The operands that `text` lists, separated by commas. An empty text lists none.
pub open spec fn operands(text: Seq<char>) -> Seq<Seq<char>> {
    if text.len() == 0 {
        Seq::empty()
    } else {
        pieces(text, 0, ',')
    }
}

/// A decimal digit.
pub open spec fn is_digit(c: char) -> bool {
    0x30 <= c as u32 <= 0x39
}

/// The value of a decimal digit, and 0 for any other character.
pub open spec fn digit(c: char) -> nat {
    if is_digit(c) {
        (c as u32 - 0x30) as nat
    } else {
        0
    }
}

/// Whether `s` holds decimal digits only.
pub open spec fn all_digits(s: Seq<char>) -> bool {
    forall|i: int| 0 <= i < s.len() ==> is_digit(#[trigger] s[i])
}

/// The number that the digits of `s` write in base ten.
pub open spec fn number(s: Seq<char>) -> nat
    decreases s.len(),
{
    if s.len() == 0 {
        0
    } else {
        10 * number(s.drop_last()) + digit(s.last())
    }
}

/// A longer run of digits writes no smaller number.
pub proof fn lemma_number_grows(s: Seq<char>, i: int, j: int)
    requires
        0 <= i <= j <= s.len(),
    ensures
        number(s.take(i)) <= number(s.take(j)),
    decreases j - i,
{
    if i < j {
        lemma_number_grows(s, i, j - 1);
        assert(s.take(j).drop_last() =~= s.take(j - 1));
    }
}

/// What `s` reads as when it must be one digit or more, writing at most `max`.
pub open spec fn digits(s: Seq<char>, max: nat) -> Option<nat> {
    if s.len() > 0 && all_digits(s) && number(s) <= max {
        Some(number(s))
    } else {
        None
    }
}

/// An unsigned decimal number of at most `max`: an optional `+`, then digits.
pub open spec fn unsigned(s: Seq<char>, max: nat) -> Option<nat> {
    if s.len() > 0 && s[0] == '+' {
        digits(s.drop_first(), max)
    } else {
        digits(s, max)
    }
}

/// A signed decimal number that fits in 64 bits: an optional `+` or `-`, then
/// digits.
pub open spec fn signed(s: Seq<char>) -> Option<int> {
    if s.len() > 0 && s[0] == '-' {
        match digits(s.drop_first(), 0x8000_0000_0000_0000) {
            Some(n) => Some(-(n as int)),
            None => None,
        }
    } else {
        match unsigned(s, 0x7fff_ffff_ffff_ffff) {
            Some(n) => Some(n as int),
            None => None,
        }
    }
}

/// Reads the characters of `text` from position `from` on as digits.
pub fn read_digits(text: &Vec<char>, from: usize, max: u64) -> (r: Option<u64>)
    requires
        from <= text.len(),
    ensures
        match digits(text@.skip(from as int), max as nat) {
            Some(n) => r == Some(n as u64),
            None => r is None,
        },
{
    let len: usize = text.len();
    let ghost s = text@.skip(from as int);
    if from == len {
        return None;
    }
    let mut acc: u64 = 0;
    let mut i: usize = from;
    proof {
        assert(s.take(0) =~= Seq::<char>::empty());
    }
    while i < len
        invariant
            from <= i <= len,
            len == text.len(),
            s == text@.skip(from as int),
            all_digits(s.take(i - from)),
            acc == number(s.take(i - from)),
            acc <= max,
        decreases len - i,
    {
        let c: char = text[i];
        let n: u32 = c as u32;
        let ghost longer = s.take(i + 1 - from);
        proof {
            assert(longer.drop_last() =~= s.take(i - from));
            assert(longer.last() == c);
            assert(s[i - from] == c);
            lemma_number_grows(s, i + 1 - from, s.len() as int);
            assert(s.take(s.len() as int) =~= s);
        }
        if n < 0x30 || n > 0x39 {
            return None;
        }
        let d: u64 = (n - 0x30) as u64;
        let tens: u64 = match acc.checked_mul(10) {
            Some(v) => v,
            None => {
                return None;
            },
        };
        let sum: u64 = match tens.checked_add(d) {
            Some(v) => v,
            None => {
                return None;
            },
        };
        if sum > max {
            return None;
        }
        acc = sum;
        i += 1;
        assert(all_digits(longer)) by {
            assert forall|j: int| 0 <= j < longer.len() implies is_digit(#[trigger] longer[j]) by {
                if j < longer.len() - 1 {
                    assert(longer[j] == s.take(i - 1 - from)[j]);
                }
            }
        }
    }
    assert(s.take(len - from) =~= s);
    Some(acc)
}

/// Reads the characters of `text` from position `from` on as an unsigned number.
pub fn read_unsigned(text: &Vec<char>, from: usize, max: u64) -> (r: Option<u64>)
    requires
        from <= text.len(),
    ensures
        match unsigned(text@.skip(from as int), max as nat) {
            Some(n) => r == Some(n as u64),
            None => r is None,
        },
{
    if from < text.len() && text[from] == '+' {
        assert(text@.skip(from as int).drop_first() =~= text@.skip(from + 1));
        read_digits(text, from + 1, max)
    } else {
        read_digits(text, from, max)
    }
}

/// The 64 bits of `i` in two's complement, read as an unsigned number.
pub open spec fn bits(i: int) -> u64 {
    if i >= 0 {
        i as u64
    } else {
        (i + 0x1_0000_0000_0000_0000) as u64
    }
}

/// Reads the characters of `text` from position `from` on as a signed number,
/// and gives its 64 bits.
pub fn read_signed(text: &Vec<char>, from: usize) -> (r: Option<u64>)
    requires
        from <= text.len(),
    ensures
        match signed(text@.skip(from as int)) {
            Some(i) => r == Some(bits(i)),
            None => r is None,
        },
{
    if from < text.len() && text[from] == '-' {
        assert(text@.skip(from as int).drop_first() =~= text@.skip(from + 1));
        match read_digits(text, from + 1, 0x8000_0000_0000_0000) {
            Some(n) => Some(0u64.wrapping_sub(n)),
            None => None,
        }
    } else {
        read_unsigned(text, from, 0x7fff_ffff_ffff_ffff)
    }
}

} // verus!
