//! Character-level helpers shared by the naming, parsing and planning modules.

use vstd::prelude::*;

verus! {

/// `String::push` appends one character to the end of the string.
pub assume_specification[ String::push ](s: &mut String, ch: char)
    ensures
        final(s)@ == old(s)@.push(ch),
;

/// The characters of `s`, in order.
pub fn to_chars(s: &str) -> (chars: Vec<char>)
    ensures
        chars@ == s@,
{
    let mut chars: Vec<char> = Vec::new();
    for c in it: s.chars()
        invariant
            chars@ == it.seq().take(it.index()),
    {
        chars.push(c);
    }
    chars
}

/// The string made of `chars`, in order.
pub fn from_chars(chars: &Vec<char>) -> (s: String)
    ensures
        s@ == chars@,
{
    let mut s = String::new();
    let mut i: usize = 0;
    while i < chars.len()
        invariant
            i <= chars.len(),
            s@ == chars@.take(i as int),
        decreases chars.len() - i,
    {
        s.push(chars[i]);
        i += 1;
    }
    s
}

/// `s` without the run of `c` at its end.
pub open spec fn trim_end(s: Seq<char>, c: char) -> Seq<char>
    decreases s.len(),
{
    if s.len() > 0 && s.last() == c {
        trim_end(s.drop_last(), c)
    } else {
        s
    }
}

/// What follows the last `c` in `s`; all of `s` where it holds no `c`.
pub open spec fn after_last(s: Seq<char>, c: char) -> Seq<char>
    decreases s.len(),
{
    if s.len() == 0 {
        s
    } else if s.last() == c {
        Seq::empty()
    } else {
        after_last(s.drop_last(), c).push(s.last())
    }
}

/// `after_last` is the suffix that starts right behind the last `c`.
pub proof fn lemma_after_last_is_suffix(s: Seq<char>, c: char, k: int)
    requires
        0 <= k <= s.len(),
        forall|j: int| k <= j < s.len() ==> s[j] != c,
        k == 0 || s[k - 1] == c,
    ensures
        after_last(s, c) == s.skip(k),
    decreases s.len(),
{
    if s.len() == 0 {
        assert(s.skip(k) =~= s);
    } else if k == s.len() {
        assert(s.skip(k) =~= Seq::<char>::empty());
    } else {
        lemma_after_last_is_suffix(s.drop_last(), c, k);
        assert(s.drop_last().skip(k).push(s.last()) =~= s.skip(k));
    }
}

/// What follows the last `c` holds no `c`, and ends `s`.
pub proof fn lemma_after_last_holds_none(s: Seq<char>, c: char)
    ensures
        !after_last(s, c).contains(c),
        after_last(s, c).len() <= s.len(),
        after_last(s, c) == s.skip(s.len() - after_last(s, c).len()),
    decreases s.len(),
{
    if s.len() == 0 {
        assert(s.skip(0) =~= s);
    } else if s.last() == c {
        assert(s.skip(s.len() as int) =~= Seq::<char>::empty());
    } else {
        let head = s.drop_last();
        lemma_after_last_holds_none(head, c);
        let tail = after_last(head, c);
        assert(head.skip(head.len() - tail.len()).push(s.last()) =~= s.skip(
            s.len() - (tail.len() + 1),
        ));
    }
}

/// The characters of `s` without the run of `c` at its end.
pub fn trim_end_chars(s: &Vec<char>, c: char) -> (trimmed: Vec<char>)
    ensures
        trimmed@ == trim_end(s@, c),
{
    let mut end: usize = s.len();
    assert(s@.take(end as int) =~= s@);
    while end > 0 && s[end - 1] == c
        invariant
            end <= s.len(),
            trim_end(s@, c) == trim_end(s@.take(end as int), c),
        decreases end,
    {
        assert(s@.take(end as int).drop_last() =~= s@.take(end - 1));
        end -= 1;
    }
    let mut trimmed = s.clone();
    trimmed.truncate(end);
    assert(trimmed@ =~= s@.take(end as int));
    trimmed
}

/// The characters of `s` that follow its last `c`.
pub fn after_last_chars(s: &Vec<char>, c: char) -> (rest: Vec<char>)
    ensures
        rest@ == after_last(s@, c),
{
    let mut start: usize = s.len();
    while start > 0 && s[start - 1] != c
        invariant
            start <= s.len(),
            forall|j: int| start <= j < s.len() ==> s[j] != c,
        decreases start,
    {
        start -= 1;
    }
    proof {
        lemma_after_last_is_suffix(s@, c, start as int);
    }
    skip_chars(s, start)
}

/// The characters of `s` from position `n` on; none where `s` is shorter.
pub fn skip_chars(s: &Vec<char>, n: usize) -> (rest: Vec<char>)
    ensures
        rest@ == if n <= s.len() {
            s@.skip(n as int)
        } else {
            Seq::empty()
        },
{
    let mut rest: Vec<char> = Vec::new();
    if n > s.len() {
        return rest;
    }
    let mut i: usize = n;
    while i < s.len()
        invariant
            n <= i <= s.len(),
            rest@ == s@.subrange(n as int, i as int),
        decreases s.len() - i,
    {
        rest.push(s[i]);
        assert(rest@ =~= s@.subrange(n as int, i + 1));
        i += 1;
    }
    assert(rest@ =~= s@.skip(n as int));
    rest
}

/// Whether `s` begins with `prefix`.
pub fn starts_with_chars(s: &Vec<char>, prefix: &Vec<char>) -> (yes: bool)
    ensures
        yes == prefix@.is_prefix_of(s@),
{
    if prefix.len() > s.len() {
        return false;
    }
    let mut i: usize = 0;
    while i < prefix.len()
        invariant
            i <= prefix.len() <= s.len(),
            forall|j: int| 0 <= j < i ==> s[j] == prefix[j],
        decreases prefix.len() - i,
    {
        if s[i] != prefix[i] {
            return false;
        }
        i += 1;
    }
    assert(prefix@ =~= s@.subrange(0, prefix@.len() as int));
    true
}

/// Whether `c` is white space: a character with the Unicode property `White_Space`.
pub open spec fn is_space(c: char) -> bool {
    let code = c as u32;
    ||| 0x09 <= code <= 0x0D
    ||| code == 0x20
    ||| code == 0x85
    ||| code == 0xA0
    ||| code == 0x1680
    ||| 0x2000 <= code <= 0x200A
    ||| code == 0x2028
    ||| code == 0x2029
    ||| code == 0x202F
    ||| code == 0x205F
    ||| code == 0x3000
}

/// Whether `c` is white space.
pub fn is_space_char(c: char) -> (space: bool)
    ensures
        space == is_space(c),
{
    let code = c as u32;
    (0x09 <= code && code <= 0x0D) || code == 0x20 || code == 0x85 || code == 0xA0 || code
        == 0x1680 || (0x2000 <= code && code <= 0x200A) || code == 0x2028 || code == 0x2029 || code
        == 0x202F || code == 0x205F || code == 0x3000
}

/// The words of `s`: its longest runs of characters that are not white
/// space, in order. Read from the left, a character that is white space ends
/// the word before it, one that follows another of a word goes on with that
/// word, and any other begins a new word.
pub open spec fn words(s: Seq<char>) -> Seq<Seq<char>>
    decreases s.len(),
{
    if s.len() == 0 {
        Seq::empty()
    } else {
        let before = words(s.drop_last());
        if is_space(s.last()) {
            before
        } else if s.len() >= 2 && !is_space(s[s.len() - 2]) && before.len() > 0 {
            before.update(before.len() - 1, before.last().push(s.last()))
        } else {
            before.push(seq![s.last()])
        }
    }
}

/// The pieces of `s` between its occurrences of `sep`: one more piece than
/// there are occurrences, empty ones included.
pub open spec fn pieces(s: Seq<char>, sep: char) -> Seq<Seq<char>>
    decreases s.len(),
{
    if s.len() == 0 {
        seq![Seq::empty()]
    } else {
        let before = pieces(s.drop_last(), sep);
        if s.last() == sep {
            before.push(Seq::empty())
        } else {
            before.update(before.len() - 1, before.last().push(s.last()))
        }
    }
}

/// `parts` put together with one `sep` between each two of them.
pub open spec fn join(parts: Seq<Seq<char>>, sep: char) -> Seq<char>
    decreases parts.len(),
{
    if parts.len() == 0 {
        Seq::empty()
    } else if parts.len() == 1 {
        parts[0]
    } else {
        join(parts.drop_last(), sep).push(sep) + parts.last()
    }
}

/// The pieces of `s` are what `s` is made of: no piece holds a separator,
/// and the pieces put together with separators give `s` back.
pub proof fn lemma_pieces_make_up_the_whole(s: Seq<char>, sep: char)
    ensures
        pieces(s, sep).len() >= 1,
        forall|i: int| 0 <= i < pieces(s, sep).len() ==> !(#[trigger] pieces(s, sep)[i]).contains(sep),
        join(pieces(s, sep), sep) == s,
    decreases s.len(),
{
    if s.len() == 0 {
        assert(join(pieces(s, sep), sep) =~= s);
    } else {
        let before = pieces(s.drop_last(), sep);
        lemma_pieces_make_up_the_whole(s.drop_last(), sep);
        let all = pieces(s, sep);
        if s.last() == sep {
            assert(all.drop_last() =~= before);
            assert(join(all, sep) =~= s.drop_last().push(sep) + Seq::<char>::empty());
            assert(join(all, sep) =~= s);
            assert forall|i: int| 0 <= i < all.len() implies !(#[trigger] all[i]).contains(sep) by {
                if i < before.len() {
                    assert(all[i] == before[i]);
                }
            }
        } else {
            let grown = before.last().push(s.last());
            assert forall|i: int| 0 <= i < all.len() implies !(#[trigger] all[i]).contains(sep) by {
                if i < before.len() - 1 {
                    assert(all[i] == before[i]);
                } else {
                    assert(all[i] == grown);
                    assert(!before[before.len() - 1].contains(sep));
                    if grown.contains(sep) {
                        let k = choose|k: int| 0 <= k < grown.len() && grown[k] == sep;
                        if k < grown.len() - 1 {
                            assert(before.last()[k] == sep);
                        }
                    }
                }
            }
            if before.len() == 1 {
                assert(join(before, sep) == before[0]);
                assert(join(all, sep) =~= s);
            } else {
                assert(all.drop_last() =~= before.drop_last());
                assert(join(all, sep) =~= (join(before.drop_last(), sep).push(sep)
                    + before.last()).push(s.last()));
                assert(join(all, sep) =~= s);
            }
        }
    }
}

/// The characters of `s` that are not white space, in order.
pub open spec fn without_space(s: Seq<char>) -> Seq<char>
    decreases s.len(),
{
    if s.len() == 0 {
        Seq::empty()
    } else if is_space(s.last()) {
        without_space(s.drop_last())
    } else {
        without_space(s.drop_last()).push(s.last())
    }
}

/// `parts` put together with nothing in between.
pub open spec fn concat(parts: Seq<Seq<char>>) -> Seq<char>
    decreases parts.len(),
{
    if parts.len() == 0 {
        Seq::empty()
    } else {
        concat(parts.drop_last()) + parts.last()
    }
}

/// The words of `s` are what `s` holds besides white space: no word is
/// empty, none holds white space, and the words put together are the
/// characters of `s` that are not white space.
pub proof fn lemma_words_hold_what_is_not_space(s: Seq<char>)
    ensures
        forall|i: int| 0 <= i < words(s).len() ==> (#[trigger] words(s)[i]).len() > 0,
        forall|i: int, j: int|
            0 <= i < words(s).len() && 0 <= j < words(s)[i].len() ==> !is_space(
                #[trigger] words(s)[i][j],
            ),
        concat(words(s)) == without_space(s),
        s.len() > 0 && !is_space(s.last()) ==> words(s).len() > 0,
    decreases s.len(),
{
    if s.len() > 0 {
        let before = words(s.drop_last());
        lemma_words_hold_what_is_not_space(s.drop_last());
        let all = words(s);
        if is_space(s.last()) {
        } else if s.len() >= 2 && !is_space(s[s.len() - 2]) && before.len() > 0 {
            let grown = before.last().push(s.last());
            assert(all.drop_last() =~= before.drop_last());
            assert(all.last() == grown);
            assert(concat(all) =~= (concat(before.drop_last()) + before.last()).push(s.last()));
            assert forall|i: int| 0 <= i < all.len() implies (#[trigger] all[i]).len() > 0 by {
                if i < before.len() - 1 {
                    assert(all[i] == before[i]);
                }
            }
            assert forall|i: int, j: int|
                0 <= i < all.len() && 0 <= j < all[i].len() implies !is_space(
                #[trigger] all[i][j],
            ) by {
                if i < before.len() - 1 {
                    assert(all[i] == before[i]);
                } else if j < grown.len() - 1 {
                    assert(all[i][j] == before[before.len() - 1][j]);
                }
            }
        } else {
            assert(all.drop_last() =~= before);
            assert(concat(all) =~= concat(before) + seq![s.last()]);
            assert(concat(all) =~= without_space(s));
            assert forall|i: int| 0 <= i < all.len() implies (#[trigger] all[i]).len() > 0 by {
                if i < before.len() {
                    assert(all[i] == before[i]);
                }
            }
            assert forall|i: int, j: int|
                0 <= i < all.len() && 0 <= j < all[i].len() implies !is_space(
                #[trigger] all[i][j],
            ) by {
                if i < before.len() {
                    assert(all[i] == before[i]);
                }
            }
        }
    }
}

/// The view of a list of strings: the characters of each.
pub open spec fn strings_view(strings: Seq<String>) -> Seq<Seq<char>> {
    Seq::new(strings.len(), |i: int| strings[i]@)
}

/// The words of `s`, as strings.
pub fn split_words(s: &str) -> (found: Vec<String>)
    ensures
        strings_view(found@) == words(s@),
{
    let chars = to_chars(s);
    let mut found: Vec<String> = Vec::new();
    let mut word: Vec<char> = Vec::new();
    let mut in_word = false;
    let mut i: usize = 0;
    assert(chars@.take(0) =~= Seq::<char>::empty());
    assert(strings_view(found@) =~= Seq::<Seq<char>>::empty());
    while i < chars.len()
        invariant
            i <= chars.len(),
            in_word <==> (i > 0 && !is_space(chars@[i - 1])),
            in_word ==> word@.len() > 0,
            !in_word ==> word@.len() == 0,
            words(chars@.take(i as int)) == if in_word {
                strings_view(found@).push(word@)
            } else {
                strings_view(found@)
            },
        decreases chars.len() - i,
    {
        let c = chars[i];
        let ghost prefix = chars@.take(i as int);
        let ghost next = chars@.take(i + 1);
        assert(next.drop_last() =~= prefix);
        assert(next.last() == c);
        if is_space_char(c) {
            if in_word {
                let ghost before = strings_view(found@);
                let done = from_chars(&word);
                found.push(done);
                assert(strings_view(found@) =~= before.push(word@));
                word = Vec::new();
                in_word = false;
            }
        } else {
            if in_word {
                let ghost before = strings_view(found@).push(word@);
                word.push(c);
                assert(before.update(before.len() - 1, before.last().push(c)) =~= strings_view(
                    found@,
                ).push(word@));
            } else {
                word.push(c);
                assert(word@ =~= seq![c]);
            }
            in_word = true;
        }
        i += 1;
    }
    assert(chars@.take(i as int) =~= chars@);
    if in_word {
        let ghost before = strings_view(found@);
        let done = from_chars(&word);
        found.push(done);
        assert(strings_view(found@) =~= before.push(word@));
    }
    found
}

/// The pieces of `s` between its occurrences of `sep`, as strings.
pub fn split_pieces(s: &str, sep: char) -> (found: Vec<String>)
    ensures
        strings_view(found@) == pieces(s@, sep),
{
    let chars = to_chars(s);
    let mut found: Vec<String> = Vec::new();
    let mut piece: Vec<char> = Vec::new();
    let mut i: usize = 0;
    assert(chars@.take(0) =~= Seq::<char>::empty());
    assert(strings_view(found@).push(piece@) =~= seq![Seq::<char>::empty()]);
    while i < chars.len()
        invariant
            i <= chars.len(),
            pieces(chars@.take(i as int), sep) == strings_view(found@).push(piece@),
        decreases chars.len() - i,
    {
        let c = chars[i];
        let ghost prefix = chars@.take(i as int);
        let ghost next = chars@.take(i + 1);
        let ghost before = strings_view(found@).push(piece@);
        assert(next.drop_last() =~= prefix);
        assert(next.last() == c);
        if c == sep {
            let ghost listed = strings_view(found@);
            let done = from_chars(&piece);
            found.push(done);
            assert(strings_view(found@) =~= listed.push(piece@));
            piece = Vec::new();
            assert(strings_view(found@).push(piece@) =~= before.push(Seq::empty()));
        } else {
            piece.push(c);
            assert(before.update(before.len() - 1, before.last().push(c)) =~= strings_view(
                found@,
            ).push(piece@));
        }
        i += 1;
    }
    assert(chars@.take(i as int) =~= chars@);
    let ghost listed = strings_view(found@);
    let done = from_chars(&piece);
    found.push(done);
    assert(strings_view(found@) =~= listed.push(piece@));
    found
}

/// The position of the first `c` in `s`; the length of `s` where it holds none.
pub open spec fn first_position(s: Seq<char>, c: char) -> nat
    decreases s.len(),
{
    if s.len() == 0 || s[0] == c {
        0
    } else {
        1 + first_position(s.skip(1), c)
    }
}

/// `first_position` is the position before which no `c` stands and at which one does.
pub proof fn lemma_first_position(s: Seq<char>, c: char, k: int)
    requires
        0 <= k <= s.len(),
        forall|j: int| 0 <= j < k ==> s[j] != c,
        k == s.len() || s[k] == c,
    ensures
        first_position(s, c) == k,
    decreases k,
{
    if k > 0 {
        let rest = s.skip(1);
        assert forall|j: int| 0 <= j < k - 1 implies rest[j] != c by {
            assert(rest[j] == s[j + 1]);
        }
        lemma_first_position(rest, c, k - 1);
    }
}

/// `line` without the carriage return at its end, if it has one.
pub open spec fn without_return(line: Seq<char>) -> Seq<char> {
    if line.len() > 0 && line.last() == '\r' {
        line.drop_last()
    } else {
        line
    }
}

/// The lines of `s`. A line ends at a line feed, or at the end of `s` where
/// something follows the last line feed. The line feed is no part of the
/// line, nor is a carriage return right before it.
pub open spec fn lines(s: Seq<char>) -> Seq<Seq<char>>
    decreases s.len(),
{
    if s.len() == 0 {
        Seq::empty()
    } else {
        let n = first_position(s, '\n');
        if n >= s.len() {
            seq![s]
        } else {
            seq![without_return(s.take(n as int))] + lines(s.skip(n as int + 1))
        }
    }
}

/// The lines of `s`, as strings.
pub fn split_lines(s: &str) -> (found: Vec<String>)
    ensures
        strings_view(found@) == lines(s@),
{
    let chars = to_chars(s);
    let mut found: Vec<String> = Vec::new();
    let mut line: Vec<char> = Vec::new();
    let mut start: usize = 0;
    let mut i: usize = 0;
    assert(chars@.skip(0) =~= chars@);
    assert(strings_view(found@) + lines(chars@) =~= lines(chars@));
    while i < chars.len()
        invariant
            start <= i <= chars.len(),
            line@ == chars@.subrange(start as int, i as int),
            forall|j: int| start <= j < i ==> chars@[j] != '\n',
            lines(chars@) == strings_view(found@) + lines(chars@.skip(start as int)),
        decreases chars.len() - i,
    {
        let c = chars[i];
        if c == '\n' {
            let ghost rest = chars@.skip(start as int);
            let ghost listed = strings_view(found@);
            proof {
                assert forall|j: int| 0 <= j < i - start implies rest[j] != '\n' by {
                    assert(rest[j] == chars@[start + j]);
                }
                lemma_first_position(rest, '\n', i - start);
                assert(rest.take(i - start) =~= line@);
                assert(rest.skip(i - start + 1) =~= chars@.skip(i + 1));
            }
            let ghost whole = line@;
            if line.len() > 0 && line[line.len() - 1] == '\r' {
                line.pop();
            }
            assert(line@ =~= without_return(whole));
            let done = from_chars(&line);
            found.push(done);
            line = Vec::new();
            start = i + 1;
            proof {
                assert(strings_view(found@) =~= listed.push(without_return(whole)));
                assert(strings_view(found@) + lines(chars@.skip(start as int)) =~= listed + lines(
                    rest,
                ));
            }
        } else {
            line.push(c);
        }
        i += 1;
        assert(line@ =~= chars@.subrange(start as int, i as int));
    }
    if start < chars.len() {
        let ghost rest = chars@.skip(start as int);
        let ghost listed = strings_view(found@);
        proof {
            assert forall|j: int| 0 <= j < rest.len() implies rest[j] != '\n' by {
                assert(rest[j] == chars@[start + j]);
            }
            lemma_first_position(rest, '\n', rest.len() as int);
            assert(rest =~= line@);
        }
        let done = from_chars(&line);
        found.push(done);
        assert(strings_view(found@) =~= listed + lines(rest));
    } else {
        assert(strings_view(found@) + lines(chars@.skip(start as int)) =~= strings_view(found@));
    }
    found
}

/// Whether `c` is one of the ten decimal digits.
pub open spec fn is_digit(c: char) -> bool {
    '0' <= c <= '9'
}

/// The number that the digits `digits` write in base ten.
pub open spec fn decimal_value(digits: Seq<char>) -> nat
    decreases digits.len(),
{
    if digits.len() == 0 {
        0
    } else {
        decimal_value(digits.drop_last()) * 10 + (digits.last() as u32 - '0' as u32) as nat
    }
}

/// Whether `s` is one decimal digit or more.
pub open spec fn is_number(s: Seq<char>) -> bool {
    s.len() > 0 && forall|i: int| 0 <= i < s.len() ==> is_digit(#[trigger] s[i])
}

/// `s` without the plus sign that may stand at its start.
pub open spec fn unsigned_part(s: Seq<char>) -> Seq<char> {
    if s.len() > 0 && s[0] == '+' {
        s.skip(1)
    } else {
        s
    }
}

/// The number that `s` writes: decimal digits, one at least, behind at most
/// one plus sign, whose value fits in 64 bits. Anything else writes no number.
pub open spec fn parsed_u64(s: Seq<char>) -> Option<u64> {
    if is_number(unsigned_part(s)) && decimal_value(unsigned_part(s)) <= u64::MAX {
        Some(decimal_value(unsigned_part(s)) as u64)
    } else {
        None
    }
}

/// A number is at least as large as the one that fewer of its digits write.
pub proof fn lemma_decimal_value_grows(digits: Seq<char>, k: int)
    requires
        0 <= k <= digits.len(),
        forall|i: int| 0 <= i < digits.len() ==> is_digit(#[trigger] digits[i]),
    ensures
        decimal_value(digits.take(k)) <= decimal_value(digits),
    decreases digits.len() - k,
{
    if k == digits.len() {
        assert(digits.take(k) =~= digits);
    } else {
        assert(digits.drop_last().take(k) =~= digits.take(k));
        lemma_decimal_value_grows(digits.drop_last(), k);
    }
}

/// Reads a number of 64 bits, written in decimal digits.
pub fn parse_u64(s: &str) -> (number: Option<u64>)
    ensures
        number == parsed_u64(s@),
{
    let chars = to_chars(s);
    let first: usize = if chars.len() > 0 && chars[0] == '+' {
        1
    } else {
        0
    };
    let ghost digits = unsigned_part(chars@);
    assert(digits =~= chars@.skip(first as int));
    if first >= chars.len() {
        return None;
    }
    let mut value: u64 = 0;
    let mut i: usize = first;
    assert(digits.take(0) =~= Seq::<char>::empty());
    while i < chars.len()
        invariant
            first <= i <= chars.len(),
            chars@ == s@,
            digits == unsigned_part(chars@),
            digits == chars@.skip(first as int),
            forall|j: int| 0 <= j < i - first ==> is_digit(#[trigger] digits[j]),
            value == decimal_value(digits.take(i - first)),
        decreases chars.len() - i,
    {
        let c = chars[i];
        assert(digits[i - first] == c);
        if !('0' <= c && c <= '9') {
            assert(!is_digit(digits[i - first]));
            return None;
        }
        let digit = (c as u32 - '0' as u32) as u64;
        let ghost next = digits.take(i - first + 1);
        proof {
            assert(next.drop_last() =~= digits.take(i - first));
            assert(next.last() == c);
        }
        let grown = match value.checked_mul(10) {
            Some(tenfold) => tenfold.checked_add(digit),
            None => None,
        };
        match grown {
            Some(sum) => {
                value = sum;
            },
            None => {
                proof {
                    assert(decimal_value(next) > u64::MAX);
                    if is_number(digits) {
                        lemma_decimal_value_grows(digits, i - first + 1);
                    }
                }
                return None;
            },
        }
        i += 1;
    }
    assert(digits.take(i - first) =~= digits);
    Some(value)
}

/// `s` without the white space at its end.
pub open spec fn without_trailing_space(s: Seq<char>) -> Seq<char>
    decreases s.len(),
{
    if s.len() > 0 && is_space(s.last()) {
        without_trailing_space(s.drop_last())
    } else {
        s
    }
}

/// `s` without the white space at its start.
pub open spec fn without_leading_space(s: Seq<char>) -> Seq<char>
    decreases s.len(),
{
    if s.len() > 0 && is_space(s[0]) {
        without_leading_space(s.skip(1))
    } else {
        s
    }
}

/// `s` without the white space at its start and at its end.
pub open spec fn trimmed(s: Seq<char>) -> Seq<char> {
    without_leading_space(without_trailing_space(s))
}

/// `s` without the white space at its start and at its end.
pub fn trim_spaces(s: &str) -> (kept: String)
    ensures
        kept@ == trimmed(s@),
{
    let chars = to_chars(s);
    let mut end: usize = chars.len();
    assert(chars@.take(end as int) =~= chars@);
    while end > 0 && is_space_char(chars[end - 1])
        invariant
            end <= chars.len(),
            without_trailing_space(chars@) == without_trailing_space(chars@.take(end as int)),
        decreases end,
    {
        assert(chars@.take(end as int).drop_last() =~= chars@.take(end - 1));
        end -= 1;
    }
    let ghost body = chars@.take(end as int);
    assert(without_trailing_space(chars@) == body);
    let mut start: usize = 0;
    assert(body.skip(0) =~= body);
    while start < end && is_space_char(chars[start])
        invariant
            start <= end <= chars.len(),
            body == chars@.take(end as int),
            without_leading_space(body) == without_leading_space(body.skip(start as int)),
        decreases end - start,
    {
        assert(body.skip(start as int)[0] == chars@[start as int]);
        assert(body.skip(start as int).skip(1) =~= body.skip(start + 1));
        start += 1;
    }
    proof {
        if start < end {
            assert(body.skip(start as int)[0] == chars@[start as int]);
        }
    }
    let mut kept: Vec<char> = Vec::new();
    let mut i: usize = start;
    while i < end
        invariant
            start <= i <= end <= chars.len(),
            kept@ == chars@.subrange(start as int, i as int),
        decreases end - i,
    {
        kept.push(chars[i]);
        assert(kept@ =~= chars@.subrange(start as int, i + 1));
        i += 1;
    }
    assert(kept@ =~= body.skip(start as int));
    from_chars(&kept)
}

/// Whether `a` and `b` hold the same characters.
pub fn same_text(a: &str, b: &str) -> (same: bool)
    ensures
        same == (a@ == b@),
{
    let left = String::from_str(a);
    let right = String::from_str(b);
    left == right
}

/// Whether one of `list` holds the characters of `item`.
pub fn contains_text(list: &Vec<String>, item: &str) -> (found: bool)
    ensures
        found == strings_view(list@).contains(item@),
{
    let mut i: usize = 0;
    while i < list.len()
        invariant
            i <= list.len(),
            forall|j: int| 0 <= j < i ==> strings_view(list@)[j] != item@,
        decreases list.len() - i,
    {
        if same_text(list[i].as_str(), item) {
            assert(strings_view(list@)[i as int] == item@);
            return true;
        }
        i += 1;
    }
    false
}

} // verus!
