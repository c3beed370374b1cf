//! Names of repositories.

use crate::config::option_text;
use crate::paths::{file_name, is_file_name, option_str};
use crate::schema::{ConfigError, ConfigErrorView};
use crate::text::text_between;
use vstd::prelude::*;

verus! {

/// Whether a character is an ASCII letter or digit.
pub open spec fn is_alphanumeric(c: char) -> bool {
    'a' <= c <= 'z' || 'A' <= c <= 'Z' || '0' <= c <= '9'
}

/// The lower case of an ASCII letter.
pub open spec fn lower_case(c: char) -> char {
    if 'A' <= c <= 'Z' {
        (c as u32 + 32) as char
    } else {
        c
    }
}

/// What stands for a character in a name: a lower-case letter or a digit, a
/// hyphen for a hyphen, an underscore or a space, and nothing for any other.
pub open spec fn name_char(c: char) -> Option<char> {
    if is_alphanumeric(c) {
        Some(lower_case(c))
    } else if c == '-' || c == '_' || c == ' ' {
        Some('-')
    } else {
        None
    }
}

/// A text in the characters of a name, with no two hyphens in a row.
pub open spec fn hyphenated(s: Seq<char>) -> Seq<char>
    decreases s.len(),
{
    if s.len() == 0 {
        s
    } else {
        let before = hyphenated(s.drop_last());
        match name_char(s.last()) {
            None => before,
            Some(c) => if c == '-' && before.len() > 0 && before.last() == '-' {
                before
            } else {
                before.push(c)
            },
        }
    }
}

/// The text without hyphens at its start.
pub open spec fn without_first_hyphens(s: Seq<char>) -> Seq<char>
    decreases s.len(),
{
    if s.len() > 0 && s[0] == '-' {
        without_first_hyphens(s.drop_first())
    } else {
        s
    }
}

/// The text without hyphens at its end.
pub open spec fn without_last_hyphens(s: Seq<char>) -> Seq<char>
    decreases s.len(),
{
    if s.len() > 0 && s.last() == '-' {
        without_last_hyphens(s.drop_last())
    } else {
        s
    }
}

/// The name that is made of a text.
pub open spec fn sanitized(s: Seq<char>) -> Seq<char> {
    without_last_hyphens(without_first_hyphens(hyphenated(s)))
}

/// What stands for a character in a name.
fn normalize(c: char) -> (normalized: Option<char>)
    ensures
        normalized == name_char(c),
{
    if 'A' <= c && c <= 'Z' {
        let code: u8 = c as u8;
        Some((code + 32) as char)
    } else if ('a' <= c && c <= 'z') || ('0' <= c && c <= '9') {
        Some(c)
    } else if c == '-' || c == '_' || c == ' ' {
        Some('-')
    } else {
        None
    }
}

/// The name that is made of a text.
pub fn sanitize_repo_name(name: &str) -> (clean: String)
    ensures
        clean@ == sanitized(name@),
{
    let mut kept: Vec<char> = Vec::new();
    for c in it: name.chars()
        invariant
            it.seq() == name@,
            kept@ == hyphenated(name@.take(it.index())),
    {
        assert(name@.take(it.index() + 1).drop_last() =~= name@.take(it.index()));
        if let Some(normal) = normalize(c) {
            if !(normal == '-' && kept.len() > 0 && kept[kept.len() - 1] == '-') {
                kept.push(normal);
            }
        }
    }
    assert(name@.take(name@.len() as int) =~= name@);
    let ghost all = kept@;
    let mut from: usize = 0;
    assert(all.skip(0) =~= all);
    while from < kept.len() && kept[from] == '-'
        invariant
            kept@ == all,
            from <= kept.len(),
            without_first_hyphens(all) == without_first_hyphens(all.skip(from as int)),
        decreases kept.len() - from,
    {
        assert(all.skip(from as int).drop_first() =~= all.skip(from + 1));
        from = from + 1;
    }
    let mut to: usize = kept.len();
    let ghost rest = all.skip(from as int);
    assert(rest =~= all.subrange(from as int, to as int));
    while to > from && kept[to - 1] == '-'
        invariant
            kept@ == all,
            from <= to <= kept.len(),
            without_last_hyphens(rest) == without_last_hyphens(
                all.subrange(from as int, to as int),
            ),
        decreases to - from,
    {
        assert(all.subrange(from as int, to as int).drop_last() =~= all.subrange(
            from as int,
            to - 1,
        ));
        to = to - 1;
    }
    text_between(&kept, from, to)
}

/// The name of the repository in a directory of the given name.
pub open spec fn inferred_name(
    path: Seq<char>,
    directory: Option<Seq<char>>,
) -> Result<Seq<char>, ConfigErrorView> {
    match directory {
        Some(directory) => if sanitized(directory).len() > 0 {
            Ok(sanitized(directory))
        } else {
            Err(ConfigErrorView::NameNotInferred { path })
        },
        None => Err(ConfigErrorView::NameNotInferred { path }),
    }
}

/// What a name or an error says.
pub open spec fn name_view(name: Result<String, ConfigError>) -> Result<
    Seq<char>,
    ConfigErrorView,
> {
    match name {
        Ok(name) => Ok(name@),
        Err(error) => Err(error@),
    }
}

/// The name of the repository at a path, in a directory of the given name.
pub fn name_of_directory(path: &str, directory: Option<&str>) -> (name: Result<
    String,
    ConfigError,
>)
    ensures
        name_view(name) == inferred_name(path@, option_str(directory)),
{
    match directory {
        Some(directory) => {
            let name = sanitize_repo_name(directory);
            if name.as_str().is_empty() {
                Err(ConfigError::NameNotInferred { path: path.to_owned() })
            } else {
                Ok(name)
            }
        },
        None => Err(ConfigError::NameNotInferred { path: path.to_owned() }),
    }
}

/// The name of the repository at a path, made of the last part of the path.
pub fn infer_repo_name(path: &str) -> (name: Result<String, ConfigError>)
    ensures
        exists|directory: Option<Seq<char>>| #[trigger]
            is_file_name(path@, directory) && name_view(name) == inferred_name(path@, directory),
{
    let directory = file_name(path);
    assert(is_file_name(path@, option_text(directory)));
    match &directory {
        Some(directory) => name_of_directory(path, Some(directory.as_str())),
        None => name_of_directory(path, None),
    }
}

/// Whether a text holds only lower-case letters, digits and single hyphens.
pub open spec fn is_clean(s: Seq<char>) -> bool {
    &&& forall|i: int|
        0 <= i < s.len() ==> 'a' <= (#[trigger] s[i]) <= 'z' || '0' <= s[i] <= '9' || s[i] == '-'
    &&& forall|i: int, j: int|
        0 <= i < s.len() && j == i + 1 && j < s.len() ==> #[trigger] s[i] != '-' || #[trigger] s[j]
            != '-'
}

proof fn lemma_hyphenated_is_clean(s: Seq<char>)
    ensures
        is_clean(hyphenated(s)),
    decreases s.len(),
{
    if s.len() > 0 {
        lemma_hyphenated_is_clean(s.drop_last());
    }
}

proof fn lemma_clean_is_kept(s: Seq<char>)
    requires
        is_clean(s),
    ensures
        hyphenated(s) == s,
    decreases s.len(),
{
    if s.len() > 0 {
        let before = s.drop_last();
        assert forall|i: int, j: int|
            0 <= i < before.len() && j == i + 1 && j < before.len() implies #[trigger] before[i]
            != '-' || #[trigger] before[j] != '-' by {
            assert(before[i] == s[i] && before[j] == s[j]);
        }
        assert(is_clean(before));
        lemma_clean_is_kept(before);
        assert(s[s.len() - 1] == s.last());
        if before.len() > 0 {
            assert(s[s.len() - 2] == before.last());
        }
        assert(before.push(s.last()) =~= s);
    }
}

proof fn lemma_first_hyphens_are_a_prefix(s: Seq<char>) -> (n: int)
    ensures
        0 <= n <= s.len(),
        without_first_hyphens(s) == s.skip(n),
        forall|i: int| 0 <= i < n ==> s[i] == '-',
        n < s.len() ==> s[n] != '-',
    decreases s.len(),
{
    if s.len() > 0 && s[0] == '-' {
        let n = lemma_first_hyphens_are_a_prefix(s.drop_first());
        assert(s.drop_first().skip(n) =~= s.skip(n + 1));
        assert forall|i: int| 0 <= i < n + 1 implies s[i] == '-' by {
            if i > 0 {
                assert(s[i] == s.drop_first()[i - 1]);
            }
        }
        n + 1
    } else {
        assert(s.skip(0) =~= s);
        0
    }
}

proof fn lemma_last_hyphens_are_a_suffix(s: Seq<char>) -> (n: int)
    ensures
        0 <= n <= s.len(),
        without_last_hyphens(s) == s.take(n),
        forall|i: int| n <= i < s.len() ==> s[i] == '-',
        n > 0 ==> s[n - 1] != '-',
    decreases s.len(),
{
    if s.len() > 0 && s.last() == '-' {
        let n = lemma_last_hyphens_are_a_suffix(s.drop_last());
        assert(s.drop_last().take(n) =~= s.take(n));
        assert forall|i: int| n <= i < s.len() implies s[i] == '-' by {
            if i < s.len() - 1 {
                assert(s[i] == s.drop_last()[i]);
            }
        }
        assert(n > 0 ==> s[n - 1] == s.drop_last()[n - 1]);
        n
    } else {
        assert(s.take(s.len() as int) =~= s);
        s.len() as int
    }
}

/// A name holds only lower-case letters, digits and single hyphens, and starts
/// and ends with a letter or a digit.
pub proof fn names_are_clean(s: Seq<char>)
    ensures
        is_clean(sanitized(s)),
        sanitized(s).len() > 0 ==> sanitized(s)[0] != '-' && sanitized(s).last() != '-',
{
    let all = hyphenated(s);
    lemma_hyphenated_is_clean(s);
    let from = lemma_first_hyphens_are_a_prefix(all);
    let rest = all.skip(from);
    let to = lemma_last_hyphens_are_a_suffix(rest);
    let name = rest.take(to);
    assert forall|i: int| 0 <= i < name.len() implies name[i] == all[from + i] by {}
    assert forall|i: int, j: int|
        0 <= i < name.len() && j == i + 1 && j < name.len() implies #[trigger] name[i] != '-'
        || #[trigger] name[j] != '-' by {
        assert(all[from + i] != '-' || all[from + j] != '-');
    }
    assert(is_clean(name));
}

/// The name that is made of a name is that name.
pub proof fn names_are_kept(s: Seq<char>)
    ensures
        sanitized(sanitized(s)) == sanitized(s),
{
    names_are_clean(s);
    lemma_clean_is_kept(sanitized(s));
}

proof fn lemma_hyphenated_letters(s: Seq<char>)
    ensures
        (exists|i: int| 0 <= i < s.len() && is_alphanumeric(#[trigger] s[i])) <==> (exists|i: int|
            0 <= i < hyphenated(s).len() && #[trigger] hyphenated(s)[i] != '-'),
    decreases s.len(),
{
    if s.len() > 0 {
        let before = s.drop_last();
        let all = hyphenated(s);
        lemma_hyphenated_letters(before);
        if exists|i: int| 0 <= i < s.len() && is_alphanumeric(#[trigger] s[i]) {
            let i = choose|i: int| 0 <= i < s.len() && is_alphanumeric(#[trigger] s[i]);
            if i < before.len() {
                assert(is_alphanumeric(before[i]));
                let k = choose|k: int|
                    0 <= k < hyphenated(before).len() && #[trigger] hyphenated(before)[k] != '-';
                assert(all[k] == hyphenated(before)[k]);
            } else {
                assert(all[all.len() - 1] != '-');
            }
        }
        if exists|k: int| 0 <= k < all.len() && #[trigger] all[k] != '-' {
            let k = choose|k: int| 0 <= k < all.len() && #[trigger] all[k] != '-';
            if k < hyphenated(before).len() {
                assert(hyphenated(before)[k] != '-');
                let i = choose|i: int| 0 <= i < before.len() && is_alphanumeric(#[trigger] before[i]);
                assert(is_alphanumeric(s[i]));
            } else {
                assert(is_alphanumeric(s[s.len() - 1]));
            }
        }
    }
}

/// A name can be made of exactly the texts that hold a letter or a digit.
pub proof fn names_come_of_letters_and_digits(s: Seq<char>)
    ensures
        sanitized(s).len() > 0 <==> exists|i: int| 0 <= i < s.len() && is_alphanumeric(
            #[trigger] s[i],
        ),
{
    let all = hyphenated(s);
    lemma_hyphenated_letters(s);
    let from = lemma_first_hyphens_are_a_prefix(all);
    let rest = all.skip(from);
    let to = lemma_last_hyphens_are_a_suffix(rest);
    if from < all.len() {
        assert(all[from] != '-');
        assert(rest[0] != '-');
    }
}

/// Whether a character is another in lower case.
pub open spec fn is_lower_of(low: char, c: char) -> bool {
    if 'A' <= c <= 'Z' {
        low as u32 == c as u32 + 32
    } else {
        low == c
    }
}

proof fn lemma_letters_are_lowered(front: Seq<char>, word: Seq<char>)
    requires
        forall|i: int|
            0 <= i < word.len() ==> 'a' <= (#[trigger] word[i]) <= 'z' || 'A' <= word[i] <= 'Z'
                || '0' <= word[i] <= '9',
    ensures
        hyphenated(front + word).len() == hyphenated(front).len() + word.len(),
        hyphenated(front).is_prefix_of(hyphenated(front + word)),
        forall|i: int|
            0 <= i < word.len() ==> is_lower_of(
                hyphenated(front + word)[hyphenated(front).len() + i],
                #[trigger] word[i],
            ),
    decreases word.len(),
{
    let base = hyphenated(front);
    if word.len() == 0 {
        assert(front + word =~= front);
        assert(base =~= base.subrange(0, base.len() as int));
    } else {
        let rest = word.drop_last();
        assert forall|i: int| 0 <= i < rest.len() implies 'a' <= (#[trigger] rest[i]) <= 'z' || 'A'
            <= rest[i] <= 'Z' || '0' <= rest[i] <= '9' by {
            assert(rest[i] == word[i]);
        }
        lemma_letters_are_lowered(front, rest);
        let all = front + word;
        let before = hyphenated(front + rest);
        assert(all.drop_last() =~= front + rest);
        let last = word[word.len() - 1];
        assert(all.last() == last);
        assert(hyphenated(all) == before.push(lower_case(last)));
        assert(base =~= hyphenated(all).subrange(0, base.len() as int)) by {
            assert(base =~= before.subrange(0, base.len() as int));
        }
        assert forall|i: int| 0 <= i < word.len() implies is_lower_of(
            hyphenated(all)[base.len() + i],
            #[trigger] word[i],
        ) by {
            if i < rest.len() {
                assert(rest[i] == word[i]);
                assert(hyphenated(all)[base.len() + i] == before[base.len() + i]);
            }
        }
    }
}

/// Two words of letters and digits with a hyphen, an underscore or a space
/// between them make a name of the two in lower case with a hyphen between them.
pub proof fn names_join_words_with_hyphens(a: Seq<char>, between: char, b: Seq<char>)
    requires
        a.len() > 0,
        b.len() > 0,
        forall|i: int|
            0 <= i < a.len() ==> 'a' <= (#[trigger] a[i]) <= 'z' || 'A' <= a[i] <= 'Z' || '0' <= a[i]
                <= '9',
        forall|i: int|
            0 <= i < b.len() ==> 'a' <= (#[trigger] b[i]) <= 'z' || 'A' <= b[i] <= 'Z' || '0' <= b[i]
                <= '9',
        between == '-' || between == '_' || between == ' ',
    ensures
        ({
            let name = sanitized(a + seq![between] + b);
            &&& name.len() == a.len() + 1 + b.len()
            &&& name[a.len() as int] == '-'
            &&& forall|i: int| 0 <= i < a.len() ==> is_lower_of(name[i], #[trigger] a[i])
            &&& forall|i: int|
                0 <= i < b.len() ==> is_lower_of(name[a.len() + 1 + i], #[trigger] b[i])
        }),
{
    let none = Seq::<char>::empty();
    let front = a + seq![between];
    lemma_letters_are_lowered(none, a);
    assert(none + a =~= a);
    assert(front.drop_last() =~= a);
    assert(front.last() == between);
    let low = hyphenated(a);
    assert(is_lower_of(low[low.len() - 1], a[a.len() - 1]));
    assert(hyphenated(front) == low.push('-'));
    lemma_letters_are_lowered(front, b);
    let all = hyphenated(front + b);
    let head = hyphenated(front);
    assert forall|i: int| 0 <= i < head.len() implies all[i] == head[i] by {
        assert(all.subrange(0, head.len() as int)[i] == head[i]);
    }
    assert(all[0] == low[0]);
    assert(is_lower_of(low[0], a[0]));
    assert(is_lower_of(all[head.len() + (b.len() - 1)], b[b.len() - 1]));
    assert(all.last() != '-');
    assert(sanitized(front + b) == all);
    assert forall|i: int| 0 <= i < a.len() implies is_lower_of(all[i], #[trigger] a[i]) by {
        assert(is_lower_of(low[i], a[i]));
    }
}

proof fn lemma_dropped(a: Seq<char>, c: char, b: Seq<char>)
    requires
        name_char(c) is None,
    ensures
        hyphenated(a + seq![c] + b) == hyphenated(a + b),
    decreases b.len(),
{
    if b.len() == 0 {
        assert((a + seq![c] + b).drop_last() =~= a);
        assert((a + seq![c] + b).last() == c);
        assert(a + b =~= a);
    } else {
        lemma_dropped(a, c, b.drop_last());
        assert((a + seq![c] + b).drop_last() =~= a + seq![c] + b.drop_last());
        assert((a + b).drop_last() =~= a + b.drop_last());
        assert((a + seq![c] + b).last() == b.last());
        assert((a + b).last() == b.last());
    }
}

/// A character that is neither a letter nor a digit nor a hyphen, an underscore
/// or a space makes no difference to a name.
pub proof fn other_characters_are_left_out(a: Seq<char>, c: char, b: Seq<char>)
    requires
        !('a' <= c <= 'z') && !('A' <= c <= 'Z') && !('0' <= c <= '9'),
        c != '-' && c != '_' && c != ' ',
    ensures
        sanitized(a + seq![c] + b) == sanitized(a + b),
{
    lemma_dropped(a, c, b);
}

/// A name is inferred exactly from a directory in which there is a letter or a
/// digit, and is the one that is made of it.
pub proof fn names_are_inferred_from_directories(path: Seq<char>, directory: Option<Seq<char>>)
    ensures
        inferred_name(path, directory) is Ok <==> (directory matches Some(directory) && exists|
            i: int,
        |
            0 <= i < directory.len() && is_alphanumeric(#[trigger] directory[i])),
        inferred_name(path, directory) matches Ok(name) ==> directory is Some && name == sanitized(
            directory->0,
        ),
        inferred_name(path, directory) matches Err(error) ==> error
            == (ConfigErrorView::NameNotInferred { path }),
{
    if let Some(directory) = directory {
        names_come_of_letters_and_digits(directory);
    }
}

} // verus!
