//! Text as sequences of characters: what trimming, splitting, joining and
//! counting mean, and the functions that do it.

use vstd::prelude::*;

verus! {

/// `String::push`: the character goes to the end of the text, which is
/// otherwise unchanged.
pub assume_specification[ String::push ](s: &mut String, c: char)
    ensures
        final(s)@ == old(s)@.push(c),
;

/// `char::is_whitespace`: true of exactly the characters that have the
/// Unicode property White_Space.
pub assume_specification[ char::is_whitespace ](c: char) -> (white: bool)
    ensures
        white == white_space(c),
;

/// The characters with the Unicode property White_Space.
pub open spec fn white_space(c: char) -> bool {
    let u = c as u32;
    ||| 0x09 <= u <= 0x0d
    ||| u == 0x20
    ||| u == 0x85
    ||| u == 0xa0
    ||| u == 0x1680
    ||| 0x2000 <= u <= 0x200a
    ||| u == 0x2028
    ||| u == 0x2029
    ||| u == 0x202f
    ||| u == 0x205f
    ||| u == 0x3000
}

/// The text without its leading white space.
pub open spec fn trim_start(s: Seq<char>) -> Seq<char>
    decreases s.len(),
{
    if s.len() > 0 && white_space(s[0]) {
        trim_start(s.drop_first())
    } else {
        s
    }
}

/// The text without its trailing white space.
pub open spec fn trim_end(s: Seq<char>) -> Seq<char>
    decreases s.len(),
{
    if s.len() > 0 && white_space(s.last()) {
        trim_end(s.drop_last())
    } else {
        s
    }
}

/// The text without white space at either end.
pub open spec fn trimmed(s: Seq<char>) -> Seq<char> {
    trim_end(trim_start(s))
}

/// The number of characters before the first white space.
pub open spec fn word_len(s: Seq<char>) -> nat
    decreases s.len(),
{
    if s.len() == 0 || white_space(s[0]) {
        0
    } else {
        1 + word_len(s.drop_first())
    }
}

/// The first word of a text, split at white space, and what follows it.
pub open spec fn next_word(s: Seq<char>) -> Option<(Seq<char>, Seq<char>)> {
    let t = trim_start(s);
    if t.len() == 0 {
        None
    } else {
        Some((t.take(word_len(t) as int), t.skip(word_len(t) as int)))
    }
}

/// The place of the first `c`, counted from `from`.
pub open spec fn find_from(s: Seq<char>, c: char, from: int) -> Option<int>
    decreases s.len() - from,
{
    if from < 0 || from >= s.len() {
        None
    } else if s[from] == c {
        Some(from)
    } else {
        find_from(s, c, from + 1)
    }
}

/// The two parts of a text around the first `c`.
pub open spec fn split_once(s: Seq<char>, c: char) -> Option<(Seq<char>, Seq<char>)> {
    match find_from(s, c, 0) {
        Some(i) => Some((s.take(i), s.skip(i + 1))),
        None => None,
    }
}

/// What follows `prefix` in a text that starts with it.
pub open spec fn strip_prefix(s: Seq<char>, prefix: Seq<char>) -> Option<Seq<char>> {
    if prefix.is_prefix_of(s) {
        Some(s.skip(prefix.len() as int))
    } else {
        None
    }
}

/// The texts of a list of strings.
pub open spec fn texts(list: Seq<String>) -> Seq<Seq<char>> {
    list.map_values(|s: String| s@)
}

/// The texts of a list, one after the other, with `sep` between two of them.
pub open spec fn joined(list: Seq<Seq<char>>, sep: Seq<char>) -> Seq<char>
    decreases list.len(),
{
    if list.len() == 0 {
        Seq::empty()
    } else if list.len() == 1 {
        list[0]
    } else {
        joined(list.drop_last(), sep) + sep + list.last()
    }
}

/// Each character of a text replaced by what `f` gives for it.
pub open spec fn spelled(s: Seq<char>, f: spec_fn(char) -> Seq<char>) -> Seq<char>
    decreases s.len(),
{
    if s.len() == 0 {
        Seq::empty()
    } else {
        spelled(s.drop_last(), f) + f(s.last())
    }
}

/// The character of a decimal digit.
pub open spec fn digit_char(d: nat) -> char {
    (0x30 + d) as char
}

/// A number in decimal, without leading zeros.
pub open spec fn decimal(n: nat) -> Seq<char>
    decreases n,
{
    if n < 10 {
        seq![digit_char(n)]
    } else {
        decimal(n / 10).push(digit_char(n % 10))
    }
}

/// Whether a character is an ASCII digit.
pub open spec fn is_digit(c: char) -> bool {
    '0' <= c && c <= '9'
}

/// Whether a text consists of ASCII digits, and of at least one.
pub open spec fn is_number(s: Seq<char>) -> bool {
    s.len() > 0 && forall|i: int| 0 <= i < s.len() ==> is_digit(#[trigger] s[i])
}

/// The number that decimal digits stand for.
pub open spec fn number_value(s: Seq<char>) -> nat
    decreases s.len(),
{
    if s.len() == 0 {
        0
    } else {
        (number_value(s.drop_last()) * 10 + (s.last() as u32 - 0x30)) as nat
    }
}

/// The text without a plus sign in front.
pub open spec fn unsigned_part(s: Seq<char>) -> Seq<char> {
    if s.len() > 0 && s[0] == '+' {
        s.drop_first()
    } else {
        s
    }
}

/// The count that a text stands for: decimal digits, after a plus sign or
/// not, of a number below two to the power of 32.
pub open spec fn count_value(s: Seq<char>) -> Option<nat> {
    let digits = unsigned_part(s);
    if is_number(digits) && number_value(digits) <= u32::MAX {
        Some(number_value(digits))
    } else {
        None
    }
}

/// Whether two texts are equal.
pub fn same_text(a: &str, b: &str) -> (same: bool)
    ensures
        same == (a@ == b@),
{
    a.to_owned() == b.to_owned()
}

/// The characters of a text.
pub fn chars_of(s: &str) -> (chars: Vec<char>)
    ensures
        chars@ == s@,
{
    let mut chars: Vec<char> = Vec::new();
    for c in it: s.chars()
        invariant
            it.seq() == s@,
            chars@ == s@.take(it.index()),
    {
        chars.push(c);
        assert(s@.take(it.index()).push(c) =~= s@.take(it.index() + 1));
    }
    assert(s@.take(s@.len() as int) =~= s@);
    chars
}

/// The text of the characters from `from` up to `to`.
pub fn text_between(chars: &Vec<char>, from: usize, to: usize) -> (text: String)
    requires
        from <= to <= chars.len(),
    ensures
        text@ == chars@.subrange(from as int, to as int),
{
    let mut text = String::new();
    let mut i: usize = from;
    while i < to
        invariant
            from <= i <= to <= chars.len(),
            text@ == chars@.subrange(from as int, i as int),
        decreases to - i,
    {
        text.push(chars[i]);
        assert(chars@.subrange(from as int, i as int).push(chars@[i as int])
            =~= chars@.subrange(from as int, i + 1));
        i = i + 1;
    }
    text
}

proof fn lemma_trim_start_step(s: Seq<char>, i: int)
    requires
        0 <= i < s.len(),
        white_space(s[i]),
    ensures
        trim_start(s.skip(i)) == trim_start(s.skip(i + 1)),
{
    assert(s.skip(i).drop_first() =~= s.skip(i + 1));
}

proof fn lemma_trim_end_step(s: Seq<char>, from: int, to: int)
    requires
        0 <= from < to <= s.len(),
        white_space(s[to - 1]),
    ensures
        trim_end(s.subrange(from, to)) == trim_end(s.subrange(from, to - 1)),
{
    assert(s.subrange(from, to).drop_last() =~= s.subrange(from, to - 1));
}

/// The text without white space at either end.
pub fn trim(s: &str) -> (text: String)
    ensures
        text@ == trimmed(s@),
{
    let chars = chars_of(s);
    let mut from: usize = 0;
    assert(s@.skip(0) =~= s@);
    while from < chars.len() && chars[from].is_whitespace()
        invariant
            chars@ == s@,
            from <= chars.len(),
            trim_start(s@) == trim_start(s@.skip(from as int)),
        decreases chars.len() - from,
    {
        proof {
            lemma_trim_start_step(s@, from as int);
        }
        from = from + 1;
    }
    assert(trim_start(s@) == s@.skip(from as int));
    let mut to: usize = chars.len();
    assert(s@.skip(from as int) =~= s@.subrange(from as int, to as int));
    while to > from && chars[to - 1].is_whitespace()
        invariant
            chars@ == s@,
            from <= to <= chars.len(),
            trimmed(s@) == trim_end(s@.subrange(from as int, to as int)),
        decreases to - from,
    {
        proof {
            lemma_trim_end_step(s@, from as int, to as int);
        }
        to = to - 1;
    }
    text_between(&chars, from, to)
}

/// Whether nothing but white space stands in a text.
pub fn is_blank(s: &str) -> (blank: bool)
    ensures
        blank == (trimmed(s@).len() == 0),
{
    trim(s).as_str().is_empty()
}

proof fn lemma_word_len_bound(s: Seq<char>)
    ensures
        word_len(s) <= s.len(),
    decreases s.len(),
{
    if s.len() > 0 && !white_space(s[0]) {
        lemma_word_len_bound(s.drop_first());
    }
}

/// The first word of a text, split at white space, and what follows it.
pub fn split_word(s: &str) -> (found: Option<(String, String)>)
    ensures
        match found {
            Some((word, rest)) => next_word(s@) == Some((word@, rest@)),
            None => next_word(s@) is None,
        },
{
    let chars = chars_of(s);
    let mut from: usize = 0;
    assert(s@.skip(0) =~= s@);
    while from < chars.len() && chars[from].is_whitespace()
        invariant
            chars@ == s@,
            from <= chars.len(),
            trim_start(s@) == trim_start(s@.skip(from as int)),
        decreases chars.len() - from,
    {
        proof {
            lemma_trim_start_step(s@, from as int);
        }
        from = from + 1;
    }
    let ghost t = s@.skip(from as int);
    assert(trim_start(s@) == t);
    if from == chars.len() {
        return None;
    }
    let mut to: usize = from;
    assert(t.skip(0) =~= t);
    while to < chars.len() && !chars[to].is_whitespace()
        invariant
            chars@ == s@,
            from <= to <= chars.len(),
            t == s@.skip(from as int),
            word_len(t) == (to - from) + word_len(t.skip(to - from)),
        decreases chars.len() - to,
    {
        assert(t.skip(to - from).drop_first() =~= t.skip(to - from + 1));
        to = to + 1;
    }
    assert(word_len(t.skip(to - from)) == 0);
    let word = text_between(&chars, from, to);
    let rest = text_between(&chars, to, chars.len());
    assert(word@ =~= t.take(word_len(t) as int));
    assert(rest@ =~= t.skip(word_len(t) as int));
    Some((word, rest))
}

/// The two parts of a text around the first `c`.
pub fn split_at_first(s: &str, c: char) -> (parts: Option<(String, String)>)
    ensures
        match parts {
            Some((before, after)) => split_once(s@, c) == Some((before@, after@)),
            None => split_once(s@, c) is None,
        },
{
    let chars = chars_of(s);
    let mut i: usize = 0;
    while i < chars.len() && chars[i] != c
        invariant
            chars@ == s@,
            i <= chars.len(),
            find_from(s@, c, 0) == find_from(s@, c, i as int),
        decreases chars.len() - i,
    {
        i = i + 1;
    }
    if i == chars.len() {
        return None;
    }
    let before = text_between(&chars, 0, i);
    let after = text_between(&chars, i + 1, chars.len());
    assert(before@ =~= s@.take(i as int));
    assert(after@ =~= s@.skip(i + 1));
    Some((before, after))
}

/// Whether a text starts with `prefix`.
pub fn has_prefix(s: &str, prefix: &str) -> (has: bool)
    ensures
        has == prefix@.is_prefix_of(s@),
{
    without_prefix(s, prefix).is_some()
}

/// What follows `prefix` in a text that starts with it.
pub fn without_prefix(s: &str, prefix: &str) -> (rest: Option<String>)
    ensures
        match rest {
            Some(rest) => strip_prefix(s@, prefix@) == Some(rest@),
            None => strip_prefix(s@, prefix@) is None,
        },
{
    let chars = chars_of(s);
    let head = chars_of(prefix);
    if head.len() > chars.len() {
        return None;
    }
    let mut i: usize = 0;
    while i < head.len()
        invariant
            chars@ == s@,
            head@ == prefix@,
            i <= head.len() <= chars.len(),
            forall|j: int| 0 <= j < i ==> s@[j] == prefix@[j],
        decreases head.len() - i,
    {
        if chars[i] != head[i] {
            assert(s@.subrange(0, prefix@.len() as int)[i as int] != prefix@[i as int]);
            return None;
        }
        i = i + 1;
    }
    assert(prefix@ =~= s@.subrange(0, prefix@.len() as int));
    let rest = text_between(&chars, head.len(), chars.len());
    assert(rest@ =~= s@.skip(prefix@.len() as int));
    Some(rest)
}

/// Whether `c` occurs in a text.
pub fn has_char(s: &str, c: char) -> (has: bool)
    ensures
        has == s@.contains(c),
{
    for d in it: s.chars()
        invariant
            it.seq() == s@,
            forall|j: int| 0 <= j < it.index() ==> s@[j] != c,
    {
        if d == c {
            assert(s@[it.index() as int] == c);
            return true;
        }
    }
    false
}

/// Whether a text holds white space.
pub fn has_white_space(s: &str) -> (has: bool)
    ensures
        has == exists|i: int| 0 <= i < s@.len() && white_space(#[trigger] s@[i]),
{
    for d in it: s.chars()
        invariant
            it.seq() == s@,
            forall|j: int| 0 <= j < it.index() ==> !white_space(#[trigger] s@[j]),
    {
        if d.is_whitespace() {
            assert(white_space(s@[it.index() as int]));
            return true;
        }
    }
    false
}

/// The texts of a list, one after the other, with `sep` between two of them.
pub fn join(list: &[String], sep: &str) -> (text: String)
    ensures
        text@ == joined(texts(list@), sep@),
{
    let ghost all = texts(list@);
    let mut text = String::new();
    let mut i: usize = 0;
    assert(all.take(0) =~= Seq::empty());
    while i < list.len()
        invariant
            all == texts(list@),
            i <= list.len(),
            text@ == joined(all.take(i as int), sep@),
        decreases list.len() - i,
    {
        if i > 0 {
            text.append(sep);
        }
        text.append(list[i].as_str());
        proof {
            let next = all.take(i + 1);
            assert(next.drop_last() =~= all.take(i as int));
            assert(next.last() == list@[i as int]@);
            if i == 0 {
                assert(joined(all.take(0), sep@) =~= Seq::<char>::empty());
                assert(text@ =~= next[0]);
            }
        }
        i = i + 1;
    }
    assert(all.take(list@.len() as int) =~= all);
    text
}

/// Whether a text is in a list.
pub fn list_has(list: &[String], text: &str) -> (has: bool)
    ensures
        has == texts(list@).contains(text@),
{
    let mut i: usize = 0;
    while i < list.len()
        invariant
            i <= list.len(),
            forall|j: int| 0 <= j < i ==> (#[trigger] list@[j])@ != text@,
        decreases list.len() - i,
    {
        if same_text(list[i].as_str(), text) {
            assert(texts(list@)[i as int] == text@);
            return true;
        }
        i = i + 1;
    }
    assert forall|j: int| 0 <= j < texts(list@).len() implies texts(list@)[j] != text@ by {
        assert(texts(list@)[j] == list@[j]@);
    }
    false
}

/// One character more spells the text of that character more.
pub proof fn lemma_spelled_step(s: Seq<char>, f: spec_fn(char) -> Seq<char>, i: int)
    requires
        0 <= i < s.len(),
    ensures
        spelled(s.take(i + 1), f) == spelled(s.take(i), f) + f(s[i]),
{
    assert(s.take(i + 1).drop_last() =~= s.take(i));
}

/// A number in decimal.
pub fn decimal_text(n: u64) -> (text: String)
    ensures
        text@ == decimal(n as nat),
    decreases n,
{
    let digit: u8 = (n % 10) as u8;
    let mut text = if n < 10 {
        String::new()
    } else {
        decimal_text(n / 10)
    };
    text.push((48 + digit) as char);
    assert(text@ =~= decimal(n as nat));
    text
}

/// The count that a text stands for: decimal digits, after a plus sign or
/// not, of a number that fits.
pub fn parse_count(s: &str) -> (count: Option<u32>)
    ensures
        match count {
            Some(n) => count_value(s@) == Some(n as nat),
            None => count_value(s@) is None,
        },
{
    let chars = chars_of(s);
    let from: usize = if chars.len() > 0 && chars[0] == '+' {
        1
    } else {
        0
    };
    let ghost digits = s@.skip(from as int);
    assert(from == 0 ==> digits =~= s@);
    assert(from == 1 ==> digits =~= s@.drop_first());
    if from == chars.len() {
        return None;
    }
    let mut value: u32 = 0;
    let mut i: usize = from;
    assert(digits.take(0) =~= Seq::empty());
    while i < chars.len()
        invariant
            chars@ == s@,
            from <= i <= chars.len(),
            digits == s@.skip(from as int),
            digits == unsigned_part(s@),
            forall|j: int| 0 <= j < i - from ==> is_digit(#[trigger] digits[j]),
            value == number_value(digits.take(i - from)),
        decreases chars.len() - i,
    {
        let c = chars[i];
        assert(digits[i - from] == c);
        if c < '0' || c > '9' {
            assert(!is_digit(digits[i - from]));
            return None;
        }
        let digit: u32 = c as u32 - 48;
        proof {
            let next = digits.take(i - from + 1);
            assert(next.drop_last() =~= digits.take(i - from));
            assert(next.last() == c);
            assert(number_value(next) == value * 10 + digit);
            if is_number(digits) {
                lemma_number_value_grows(digits, i - from + 1, digits.len() as int);
                assert(digits.take(digits.len() as int) =~= digits);
            }
        }
        if value > (u32::MAX - digit) / 10 {
            return None;
        }
        value = value * 10 + digit;
        i = i + 1;
    }
    assert(digits.take(i - from) =~= digits);
    Some(value)
}

proof fn lemma_number_value_grows(s: Seq<char>, i: int, j: int)
    requires
        0 <= i <= j <= s.len(),
        is_number(s),
    ensures
        number_value(s.take(i)) <= number_value(s.take(j)),
    decreases j - i,
{
    if i < j {
        lemma_number_value_grows(s, i, j - 1);
        assert(s.take(j).drop_last() =~= s.take(j - 1));
        assert(is_digit(s[j - 1]));
    }
}

/// Whether a text is made of three others.
pub open spec fn is_around(
    text: Seq<char>,
    before: Seq<char>,
    part: Seq<char>,
    after: Seq<char>,
) -> bool {
    text == before + part + after
}

/// Whether a text stands in another.
pub open spec fn holds(text: Seq<char>, part: Seq<char>) -> bool {
    exists|before: Seq<char>, after: Seq<char>| is_around(text, before, part, after)
}

/// What stands in a text stands in it when more comes behind.
pub(crate) proof fn lemma_holds_more(text: Seq<char>, part: Seq<char>, more: Seq<char>)
    requires
        holds(text, part),
    ensures
        holds(text + more, part),
{
    let (before, after) = choose|before: Seq<char>, after: Seq<char>|
        is_around(text, before, part, after);
    assert(text + more =~= before + part + (after + more));
    assert(is_around(text + more, before, part, after + more));
}

/// What ends a text stands in it.
pub(crate) proof fn lemma_holds_end(text: Seq<char>, part: Seq<char>)
    ensures
        holds(text + part, part),
{
    assert(text + part =~= text + part + Seq::<char>::empty());
    assert(is_around(text + part, text, part, Seq::empty()));
}

/// Whether nothing but white space stands in a text.
pub open spec fn all_white(s: Seq<char>) -> bool {
    forall|i: int| 0 <= i < s.len() ==> white_space(#[trigger] s[i])
}

/// Whether no white space stands in a text.
pub open spec fn no_white(s: Seq<char>) -> bool {
    forall|i: int| 0 <= i < s.len() ==> !white_space(#[trigger] s[i])
}

/// What is trimmed off the start of a text is white space, and all of it.
pub(crate) proof fn lemma_trim_start_takes(s: Seq<char>) -> (blank: Seq<char>)
    ensures
        s == blank + trim_start(s),
        all_white(blank),
        trim_start(s).len() > 0 ==> !white_space(trim_start(s)[0]),
    decreases s.len(),
{
    if s.len() > 0 && white_space(s[0]) {
        let blank = lemma_trim_start_takes(s.drop_first());
        let all = seq![s[0]] + blank;
        assert(s =~= seq![s[0]] + s.drop_first());
        assert(seq![s[0]] + (blank + trim_start(s)) =~= all + trim_start(s));
        assert forall|i: int| 0 <= i < all.len() implies white_space(#[trigger] all[i]) by {
            if i > 0 {
                assert(all[i] == blank[i - 1]);
            }
        }
        all
    } else {
        assert(s =~= Seq::<char>::empty() + s);
        Seq::empty()
    }
}

/// What is trimmed off the end of a text is white space, and all of it.
pub(crate) proof fn lemma_trim_end_takes(s: Seq<char>) -> (blank: Seq<char>)
    ensures
        s == trim_end(s) + blank,
        all_white(blank),
        trim_end(s).len() > 0 ==> !white_space(trim_end(s).last()),
    decreases s.len(),
{
    if s.len() > 0 && white_space(s.last()) {
        let blank = lemma_trim_end_takes(s.drop_last());
        let all = blank.push(s.last());
        assert(s =~= s.drop_last().push(s.last()));
        assert((trim_end(s) + blank).push(s.last()) =~= trim_end(s) + all);
        assert forall|i: int| 0 <= i < all.len() implies white_space(#[trigger] all[i]) by {
            if i < blank.len() {
                assert(all[i] == blank[i]);
            }
        }
        all
    } else {
        assert(s =~= s + Seq::<char>::empty());
        Seq::empty()
    }
}

proof fn lemma_trim_start_skips(blank: Seq<char>, s: Seq<char>)
    requires
        all_white(blank),
    ensures
        trim_start(blank + s) == trim_start(s),
    decreases blank.len(),
{
    if blank.len() == 0 {
        assert(blank + s =~= s);
    } else {
        assert(white_space(blank[0]));
        assert forall|i: int| 0 <= i < blank.drop_first().len() implies white_space(
            #[trigger] blank.drop_first()[i],
        ) by {
            assert(blank.drop_first()[i] == blank[i + 1]);
        }
        lemma_trim_start_skips(blank.drop_first(), s);
        assert((blank + s).drop_first() =~= blank.drop_first() + s);
    }
}

proof fn lemma_trim_end_skips(s: Seq<char>, blank: Seq<char>)
    requires
        all_white(blank),
    ensures
        trim_end(s + blank) == trim_end(s),
    decreases blank.len(),
{
    if blank.len() == 0 {
        assert(s + blank =~= s);
    } else {
        assert(white_space(blank[blank.len() - 1]));
        assert forall|i: int| 0 <= i < blank.drop_last().len() implies white_space(
            #[trigger] blank.drop_last()[i],
        ) by {
            assert(blank.drop_last()[i] == blank[i]);
        }
        lemma_trim_end_skips(s, blank.drop_last());
        assert((s + blank).drop_last() =~= s + blank.drop_last());
    }
}

/// Trimming a text takes the white space around it, and nothing else.
pub proof fn trimming_takes_what_is_blank(before: Seq<char>, text: Seq<char>, after: Seq<char>)
    requires
        all_white(before),
        all_white(after),
        text.len() > 0 ==> !white_space(text[0]) && !white_space(text.last()),
    ensures
        trimmed(before + text + after) == text,
{
    assert(before + text + after =~= before + (text + after));
    lemma_trim_start_skips(before, text + after);
    if text.len() == 0 {
        assert(text + after =~= after);
        lemma_trim_start_skips(after, Seq::empty());
        assert(after + Seq::<char>::empty() =~= after);
        assert(text =~= Seq::empty());
    } else {
        assert((text + after)[0] == text[0]);
        lemma_trim_end_skips(text, after);
    }
}

/// Nothing is left of a text by trimming exactly if it is all white space.
pub proof fn blank_texts_are_white(s: Seq<char>)
    ensures
        trimmed(s).len() == 0 <==> all_white(s),
{
    let before = lemma_trim_start_takes(s);
    let after = lemma_trim_end_takes(trim_start(s));
    if trimmed(s).len() == 0 {
        assert(s =~= before + after);
        assert forall|i: int| 0 <= i < s.len() implies white_space(#[trigger] s[i]) by {
            if i < before.len() {
                assert(s[i] == before[i]);
            } else {
                assert(s[i] == after[i - before.len()]);
            }
        }
    }
    if all_white(s) {
        trimming_takes_what_is_blank(s, Seq::empty(), Seq::empty());
        assert(s + Seq::<char>::empty() + Seq::<char>::empty() =~= s);
    }
}

proof fn lemma_word_len_of(word: Seq<char>, rest: Seq<char>)
    requires
        no_white(word),
        rest.len() > 0 ==> white_space(rest[0]),
    ensures
        word_len(word + rest) == word.len(),
    decreases word.len(),
{
    if word.len() == 0 {
        assert(word + rest =~= rest);
    } else {
        assert(!white_space(word[0]));
        assert((word + rest).drop_first() =~= word.drop_first() + rest);
        assert forall|i: int| 0 <= i < word.drop_first().len() implies !white_space(
            #[trigger] word.drop_first()[i],
        ) by {
            assert(word.drop_first()[i] == word[i + 1]);
        }
        lemma_word_len_of(word.drop_first(), rest);
    }
}

/// The next word of a text is what stands between the white space at its start
/// and the white space behind it, and there is none in white space alone.
pub proof fn words_stand_between_white_space(blank: Seq<char>, word: Seq<char>, rest: Seq<char>)
    requires
        all_white(blank),
        no_white(word),
        word.len() == 0 ==> rest.len() == 0,
        rest.len() > 0 ==> white_space(rest[0]),
    ensures
        next_word(blank + word + rest) == if word.len() == 0 {
            None
        } else {
            Some((word, rest))
        },
{
    assert(blank + word + rest =~= blank + (word + rest));
    lemma_trim_start_skips(blank, word + rest);
    lemma_word_len_of(word, rest);
    if word.len() > 0 {
        assert((word + rest)[0] == word[0]);
        assert(!white_space(word[0]));
        assert((word + rest).take(word.len() as int) =~= word);
        assert((word + rest).skip(word.len() as int) =~= rest);
    } else {
        assert(word + rest =~= Seq::empty());
    }
}

proof fn lemma_find_from(s: Seq<char>, c: char, from: int)
    requires
        0 <= from,
    ensures
        match find_from(s, c, from) {
            Some(i) => from <= i < s.len() && s[i] == c && forall|j: int| from <= j < i ==> s[j] != c,
            None => forall|j: int| from <= j < s.len() ==> s[j] != c,
        },
    decreases s.len() - from,
{
    if from < s.len() && s[from] != c {
        lemma_find_from(s, c, from + 1);
    }
}

/// A text is split around the first place where a character stands, and only
/// where it stands somewhere.
pub proof fn splits_are_at_the_first(before: Seq<char>, c: char, after: Seq<char>)
    requires
        !before.contains(c),
    ensures
        split_once(before + seq![c] + after, c) == Some((before, after)),
        split_once(before, c) is None,
{
    let s = before + seq![c] + after;
    lemma_find_from(s, c, 0);
    lemma_find_from(before, c, 0);
    if let Some(i) = find_from(before, c, 0) {
        assert(before.contains(before[i]));
    }
    assert(s[before.len() as int] == c);
    let i = find_from(s, c, 0)->0;
    if i < before.len() {
        assert(before.contains(before[i]));
    }
    assert(s.take(i) =~= before);
    assert(s.skip(i + 1) =~= after);
}

/// What follows a prefix is found behind it, and nothing is found in a text that
/// starts otherwise.
pub proof fn prefixes_are_taken_off(s: Seq<char>, prefix: Seq<char>, rest: Seq<char>)
    ensures
        strip_prefix(s, prefix) == Some(rest) <==> s == prefix + rest,
{
    if strip_prefix(s, prefix) == Some(rest) {
        assert(s =~= prefix + rest);
    }
    if s == prefix + rest {
        assert(prefix =~= s.subrange(0, prefix.len() as int));
        assert(s.skip(prefix.len() as int) =~= rest);
    }
}

/// In a list of texts that is joined each text but the first follows the
/// separator, and nothing stands around one alone.
pub proof fn joined_texts_follow_each_other(first: Seq<char>, rest: Seq<Seq<char>>, sep: Seq<char>)
    ensures
        joined(seq![first] + rest, sep) == if rest.len() == 0 {
            first
        } else {
            first + sep + joined(rest, sep)
        },
    decreases rest.len(),
{
    let all = seq![first] + rest;
    if rest.len() == 0 {
        assert(all[0] == first);
    } else {
        assert(all.drop_last() =~= seq![first] + rest.drop_last());
        assert(all.last() == rest.last());
        joined_texts_follow_each_other(first, rest.drop_last(), sep);
        if rest.len() == 1 {
            assert(rest.last() == rest[0]);
        } else {
            assert(joined(all, sep) =~= first + sep + joined(rest, sep));
        }
    }
}

/// A number in decimal consists of digits, and stands for that number.
pub proof fn decimals_are_read_back(n: nat)
    ensures
        is_number(decimal(n)),
        number_value(decimal(n)) == n,
        n > 0 ==> decimal(n)[0] != '0',
    decreases n,
{
    let s = decimal(n);
    if n < 10 {
        assert(s.last() == digit_char(n));
        assert(s.drop_last() =~= Seq::empty());
        assert(number_value(s.drop_last()) == 0);
        assert forall|i: int| 0 <= i < s.len() implies is_digit(#[trigger] s[i]) by {}
    } else {
        let high = decimal(n / 10);
        decimals_are_read_back(n / 10);
        assert(s.drop_last() =~= high);
        assert(s.last() == digit_char(n % 10));
        assert forall|i: int| 0 <= i < s.len() implies is_digit(#[trigger] s[i]) by {
            if i < high.len() {
                assert(s[i] == high[i]);
            }
        }
        assert(s[0] == high[0]);
    }
}

/// A count in decimal is read back, with a plus sign before it or not, unless
/// it is too large.
pub proof fn counts_in_decimal_are_read_back(n: nat)
    ensures
        count_value(decimal(n)) == if n <= 0xffff_ffff {
            Some(n)
        } else {
            None
        },
        count_value(seq!['+'] + decimal(n)) == count_value(decimal(n)),
{
    decimals_are_read_back(n);
    let s = decimal(n);
    assert(is_digit(s[0]));
    assert(unsigned_part(s) == s);
    assert((seq!['+'] + s).drop_first() =~= s);
}

/// What is read as a count holds digits, behind a plus sign or not, and nothing
/// else.
pub proof fn counts_are_digits(s: Seq<char>)
    ensures
        count_value(s) is Some ==> s.len() > 0 && ('0' <= s.last() <= '9') && forall|i: int|
            1 <= i < s.len() ==> '0' <= #[trigger] s[i] <= '9',
        count_value(s) is Some ==> s[0] == '+' || '0' <= s[0] <= '9',
{
    if count_value(s) is Some {
        let digits = unsigned_part(s);
        assert(is_digit(digits[digits.len() - 1]));
        assert forall|i: int| 1 <= i < s.len() implies '0' <= #[trigger] s[i] <= '9' by {
            let j = if s[0] == '+' {
                i - 1
            } else {
                i
            };
            assert(is_digit(digits[j]));
        }
        assert(is_digit(digits[0]));
    }
}

/// Ten times a number and a digit more is that number in decimal with the digit
/// behind it.
pub proof fn decimals_count_in_tens(n: nat, digit: nat)
    requires
        digit < 10,
    ensures
        decimal(digit) == seq![(48 + digit) as char],
        n > 0 ==> decimal(10 * n + digit) == decimal(n).push((48 + digit) as char),
{
}

} // verus!
