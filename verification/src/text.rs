use vstd::prelude::*;

verus! {

/// `pattern` stands in `text` from position `i` on.
pub open spec fn occurs_at(text: Seq<char>, i: int, pattern: Seq<char>) -> bool {
    &&& 0 <= i
    &&& i + pattern.len() <= text.len()
    &&& text.subrange(i, i + pattern.len()) == pattern
}

/// `pattern` stands somewhere in `text`.
pub open spec fn occurs(text: Seq<char>, pattern: Seq<char>) -> bool {
    exists|i: int| occurs_at(text, i, pattern)
}

/// The leftmost occurrence of `pattern` in `text` is at `i`.
pub open spec fn first_at(text: Seq<char>, i: int, pattern: Seq<char>) -> bool {
    &&& occurs_at(text, i, pattern)
    &&& forall|j: int| 0 <= j < i ==> !occurs_at(text, j, pattern)
}

/// The position of the leftmost occurrence of `pattern` in `text`, if there is one.
pub open spec fn first(text: Seq<char>, pattern: Seq<char>) -> int {
    choose|i: int| first_at(text, i, pattern)
}

/// The pieces of `text` between the occurrences of `separator`, found from left to right
/// without overlap. A text without the separator is its own single piece.
pub open spec fn split(text: Seq<char>, separator: Seq<char>) -> Seq<Seq<char>>
    decreases text.len(),
{
    if separator.len() > 0 && occurs(text, separator) {
        proof {
            lemma_first(text, separator);
        }
        let i = first(text, separator);
        seq![text.take(i)] + split(text.skip(i + separator.len()), separator)
    } else {
        seq![text]
    }
}

/// `parts` in order, with `separator` between each two of them.
pub open spec fn join(parts: Seq<Seq<char>>, separator: Seq<char>) -> Seq<char>
    decreases parts.len(),
{
    if parts.len() == 0 {
        Seq::empty()
    } else if parts.len() == 1 {
        parts[0]
    } else {
        parts[0] + separator + join(parts.drop_first(), separator)
    }
}

/// `text` with every occurrence of `from` turned into `to`.
pub open spec fn replace(text: Seq<char>, from: Seq<char>, to: Seq<char>) -> Seq<char> {
    join(split(text, from), to)
}

/// A pattern that occurs at all has a leftmost occurrence.
pub proof fn lemma_first(text: Seq<char>, pattern: Seq<char>)
    requires
        occurs(text, pattern),
    ensures
        first_at(text, first(text, pattern), pattern),
{
    let i = choose|i: int| occurs_at(text, i, pattern);
    lemma_first_up_to(text, pattern, i);
}

proof fn lemma_first_up_to(text: Seq<char>, pattern: Seq<char>, i: int)
    requires
        occurs_at(text, i, pattern),
    ensures
        exists|k: int| first_at(text, k, pattern),
    decreases i,
{
    if exists|j: int| 0 <= j < i && occurs_at(text, j, pattern) {
        let j = choose|j: int| 0 <= j < i && occurs_at(text, j, pattern);
        lemma_first_up_to(text, pattern, j);
    } else {
        assert(first_at(text, i, pattern));
    }
}

/// There is one leftmost occurrence at most.
pub proof fn lemma_first_unique(text: Seq<char>, pattern: Seq<char>, i: int)
    requires
        first_at(text, i, pattern),
    ensures
        first(text, pattern) == i,
{
    lemma_first(text, pattern);
    let k = first(text, pattern);
    assert(!(k < i) && !(i < k));
}

/// Splitting gives at least one piece, and more than one exactly where the separator occurs.
pub proof fn lemma_split_len(text: Seq<char>, separator: Seq<char>)
    requires
        separator.len() > 0,
    ensures
        split(text, separator).len() >= 1,
        split(text, separator).len() > 1 <==> occurs(text, separator),
    decreases text.len(),
{
    if occurs(text, separator) {
        lemma_first(text, separator);
        lemma_split_len(text.skip(first(text, separator) + separator.len()), separator);
    }
}

proof fn lemma_join_split_step(text: Seq<char>, from: Seq<char>, to: Seq<char>)
    requires
        from.len() > 0,
        occurs(text, from),
    ensures
        ({
            let i = first(text, from);
            replace(text, from, to) == text.take(i) + to + replace(text.skip(i + from.len()), from, to)
        }),
{
    lemma_first(text, from);
    let i = first(text, from);
    let rest = split(text.skip(i + from.len()), from);
    lemma_split_len(text.skip(i + from.len()), from);
    assert(split(text, from).drop_first() =~= rest);
}

/// Joining the pieces with the separator that they were split at gives the text back.
pub proof fn lemma_join_split(text: Seq<char>, separator: Seq<char>)
    requires
        separator.len() > 0,
    ensures
        join(split(text, separator), separator) == text,
    decreases text.len(),
{
    if occurs(text, separator) {
        lemma_first(text, separator);
        let i = first(text, separator);
        let rest = text.skip(i + separator.len());
        lemma_join_split(rest, separator);
        lemma_join_split_step(text, separator, separator);
        assert(text =~= text.take(i) + separator + rest);
    }
}

proof fn lemma_replace_len(text: Seq<char>, from: Seq<char>, to: Seq<char>)
    requires
        from.len() > 0,
    ensures
        to.len() > from.len() ==> replace(text, from, to).len() >= text.len(),
        to.len() < from.len() ==> replace(text, from, to).len() <= text.len(),
        to.len() > from.len() && occurs(text, from) ==> replace(text, from, to).len() > text.len(),
        to.len() < from.len() && occurs(text, from) ==> replace(text, from, to).len() < text.len(),
    decreases text.len(),
{
    if occurs(text, from) {
        lemma_first(text, from);
        let i = first(text, from);
        lemma_replace_len(text.skip(i + from.len()), from, to);
        lemma_join_split_step(text, from, to);
    }
}

/// Replacing leaves a text as it is exactly where there is nothing to replace, or where
/// the replacement is the pattern itself.
pub proof fn lemma_replace_unchanged(text: Seq<char>, from: Seq<char>, to: Seq<char>)
    requires
        from.len() > 0,
    ensures
        replace(text, from, to) == text <==> !occurs(text, from) || from == to,
{
    if from == to {
        lemma_join_split(text, from);
    } else if occurs(text, from) {
        lemma_replace_len(text, from, to);
        if from.len() == to.len() {
            lemma_first(text, from);
            lemma_join_split_step(text, from, to);
            let i = first(text, from);
            assert(replace(text, from, to).subrange(i, i + to.len()) =~= to);
            assert(text.subrange(i, i + from.len()) == from);
        }
    }
}

/// The texts in a list.
pub open spec fn contents(list: Seq<String>) -> Seq<Seq<char>> {
    list.map_values(|text: String| text@)
}

/// The characters of a text.
pub(crate) fn chars_of(text: &str) -> (chars: Vec<char>)
    ensures
        chars@ == text@,
{
    let mut chars: Vec<char> = Vec::new();
    for c in it: text.chars()
        invariant
            it.seq() == text@,
            chars@ == text@.take(it.index() as int),
    {
        chars.push(c);
    }
    chars
}

/// Whether two texts are the same.
pub(crate) fn same_text(left: &str, right: &str) -> (same: bool)
    ensures
        same == (left@ == right@),
{
    left.to_owned() == right.to_owned()
}

fn occurs_here(text: &Vec<char>, at: usize, pattern: &Vec<char>) -> (here: bool)
    requires
        at + pattern@.len() <= text@.len(),
    ensures
        here == occurs_at(text@, at as int, pattern@),
{
    let length = text.len();
    let mut k: usize = 0;
    while k < pattern.len()
        invariant
            length == text@.len(),
            at + pattern@.len() <= length,
            k <= pattern@.len(),
            forall|j: int| 0 <= j < k ==> text@[at + j] == pattern@[j],
        decreases pattern@.len() - k,
    {
        if text[at + k] != pattern[k] {
            proof {
                assert(text@.subrange(at as int, at + pattern@.len())[k as int] != pattern@[k as int]);
            }
            return false;
        }
        k += 1;
    }
    assert(text@.subrange(at as int, at + pattern@.len()) =~= pattern@);
    true
}

/// The leftmost occurrence of `pattern` in what follows position `from` of `text`.
fn find_from(text: &Vec<char>, from: usize, pattern: &Vec<char>) -> (found: Option<usize>)
    requires
        from <= text@.len(),
        pattern@.len() > 0,
    ensures
        match found {
            Some(i) => from <= i && i + pattern@.len() <= text@.len() && first_at(
                text@.skip(from as int),
                i - from,
                pattern@,
            ),
            None => !occurs(text@.skip(from as int), pattern@),
        },
{
    let ghost rest = text@.skip(from as int);
    let mut i: usize = from;
    while pattern.len() <= text.len() - i
        invariant
            from <= i <= text@.len(),
            rest == text@.skip(from as int),
            pattern@.len() > 0,
            forall|j: int| 0 <= j < i - from ==> !occurs_at(rest, j, pattern@),
        decreases text@.len() - i,
    {
        proof {
            assert(rest.subrange(i - from, i - from + pattern@.len()) =~= text@.subrange(
                i as int,
                i + pattern@.len(),
            ));
        }
        if occurs_here(text, i, pattern) {
            return Some(i);
        }
        i += 1;
    }
    None
}

/// The pieces of `text` between the occurrences of `separator`.
pub(crate) fn split_text<'a>(text: &'a str, separator: &str) -> (parts: Vec<&'a str>)
    requires
        separator@.len() > 0,
    ensures
        parts@.map_values(|part: &str| part@) == split(text@, separator@),
{
    let chars = chars_of(text);
    let length = chars.len();
    let pattern = chars_of(separator);
    let mut parts: Vec<&'a str> = Vec::new();
    let mut start: usize = 0;
    assert(text@.skip(0) =~= text@);
    assert(parts@.map_values(|part: &str| part@) =~= Seq::<Seq<char>>::empty());
    loop
        invariant
            chars@ == text@,
            length == chars@.len(),
            pattern@ == separator@,
            separator@.len() > 0,
            start <= length,
            split(text@, separator@) == parts@.map_values(|part: &str| part@) + split(
                text@.skip(start as int),
                separator@,
            ),
        decreases length - start,
    {
        let ghost rest = text@.skip(start as int);
        let ghost before = parts@;
        match find_from(&chars, start, &pattern) {
            Some(i) => {
                proof {
                    lemma_first_unique(rest, separator@, i - start);
                    assert(rest.take(i - start) =~= text@.subrange(start as int, i as int));
                    assert(rest.skip(i - start + separator@.len()) =~= text@.skip(i + separator@.len()));
                }
                parts.push(text.substring_char(start, i));
                start = i + pattern.len();
                proof {
                    assert(parts@.map_values(|part: &str| part@) =~= before.map_values(
                        |part: &str| part@,
                    ).push(rest.take(first(rest, separator@))));
                    assert(split(text@, separator@) =~= parts@.map_values(|part: &str| part@)
                        + split(text@.skip(start as int), separator@));
                }
            },
            None => {
                parts.push(text.substring_char(start, length));
                proof {
                    assert(rest =~= text@.subrange(start as int, text@.len() as int));
                    assert(parts@.map_values(|part: &str| part@) =~= before.map_values(
                        |part: &str| part@,
                    ).push(rest));
                    assert(split(text@, separator@) =~= parts@.map_values(|part: &str| part@));
                }
                return parts;
            },
        }
    }
}

/// `text` with every occurrence of `from` turned into `to`.
pub(crate) fn replace_text(text: &str, from: &str, to: &str) -> (replaced: String)
    requires
        from@.len() > 0,
    ensures
        replaced@ == replace(text@, from@, to@),
{
    let chars = chars_of(text);
    let length = chars.len();
    let pattern = chars_of(from);
    let mut replaced = String::new();
    let mut start: usize = 0;
    assert(text@.skip(0) =~= text@);
    loop
        invariant
            chars@ == text@,
            length == chars@.len(),
            pattern@ == from@,
            from@.len() > 0,
            start <= length,
            replace(text@, from@, to@) == replaced@ + replace(text@.skip(start as int), from@, to@),
        decreases length - start,
    {
        let ghost rest = text@.skip(start as int);
        let ghost before = replaced@;
        match find_from(&chars, start, &pattern) {
            Some(i) => {
                proof {
                    lemma_first_unique(rest, from@, i - start);
                    lemma_join_split_step(rest, from@, to@);
                    assert(rest.take(i - start) =~= text@.subrange(start as int, i as int));
                    assert(rest.skip(i - start + from@.len()) =~= text@.skip(i + from@.len()));
                }
                replaced.append(text.substring_char(start, i));
                replaced.append(to);
                start = i + pattern.len();
                assert(replace(text@, from@, to@) =~= replaced@ + replace(
                    text@.skip(start as int),
                    from@,
                    to@,
                ));
            },
            None => {
                replaced.append(text.substring_char(start, length));
                proof {
                    assert(rest =~= text@.subrange(start as int, text@.len() as int));
                }
                return replaced;
            },
        }
    }
}

/// Whether `pattern` stands somewhere in `text`.
pub(crate) fn contains_text(text: &str, pattern: &str) -> (found: bool)
    ensures
        found == occurs(text@, pattern@),
{
    let chars = chars_of(text);
    let wanted = chars_of(pattern);
    if wanted.len() == 0 {
        proof {
            assert(text@.subrange(0, 0) =~= pattern@);
            assert(occurs_at(text@, 0, pattern@));
        }
        return true;
    }
    assert(text@.skip(0) =~= text@);
    match find_from(&chars, 0, &wanted) {
        Some(_) => true,
        None => false,
    }
}

/// `before`, `middle` and `after` in one text.
pub(crate) fn enclose(before: &str, middle: &str, after: &str) -> (whole: String)
    ensures
        whole@ == before@ + middle@ + after@,
{
    before.to_owned().concat(middle).concat(after)
}

/// `text` is `middle` with `before` in front of it and `after` behind it.
pub open spec fn is_between(
    text: Seq<char>,
    before: Seq<char>,
    middle: Seq<char>,
    after: Seq<char>,
) -> bool {
    text == before + middle + after
}

/// Where `pattern` follows `before`, it does not stand any earlier.
pub open spec fn is_leftmost(before: Seq<char>, pattern: Seq<char>) -> bool {
    forall|left: Seq<char>, right: Seq<char>| #[trigger]
        is_between(before + pattern, left, pattern, right) ==> right.len() == 0
}

/// A pattern stands in a text exactly where the text is the pattern with something, or nothing,
/// around it.
pub proof fn law_occurs(text: Seq<char>, pattern: Seq<char>)
    ensures
        occurs(text, pattern) <==> exists|before: Seq<char>, after: Seq<char>| #[trigger]
            is_between(text, before, pattern, after),
{
    if occurs(text, pattern) {
        let i = choose|i: int| occurs_at(text, i, pattern);
        let before = text.take(i);
        let after = text.skip(i + pattern.len());
        assert(before + text.subrange(i, i + pattern.len()) + after =~= text);
        assert(is_between(text, before, pattern, after));
    }
    if exists|before: Seq<char>, after: Seq<char>| #[trigger]
        is_between(text, before, pattern, after) {
        let (before, after) = choose|before: Seq<char>, after: Seq<char>| #[trigger]
            is_between(text, before, pattern, after);
        let i = before.len() as int;
        assert(text.subrange(i, i + pattern.len()) =~= pattern);
        assert(occurs_at(text, i, pattern));
    }
}

proof fn lemma_leftmost(before: Seq<char>, pattern: Seq<char>, rest: Seq<char>)
    requires
        pattern.len() > 0,
        is_leftmost(before, pattern),
    ensures
        occurs(before + pattern + rest, pattern),
        first(before + pattern + rest, pattern) == before.len(),
{
    let text = before + pattern + rest;
    let n = before.len() as int;
    assert(text.subrange(n, n + pattern.len()) =~= pattern);
    assert(occurs_at(text, n, pattern));
    assert forall|j: int| 0 <= j < n implies !occurs_at(text, j, pattern) by {
        if occurs_at(text, j, pattern) {
            let left = text.take(j);
            let right = text.subrange(j + pattern.len(), n + pattern.len());
            assert(before + pattern =~= left + text.subrange(j, j + pattern.len()) + right);
            assert(is_between(before + pattern, left, pattern, right));
        }
    }
    lemma_first_unique(text, pattern, n);
}

/// A text is split in front of and behind the leftmost separator. What is behind is split again.
pub proof fn law_split_at_leftmost(before: Seq<char>, separator: Seq<char>, rest: Seq<char>)
    requires
        separator.len() > 0,
        is_leftmost(before, separator),
    ensures
        split(before + separator + rest, separator) == seq![before] + split(rest, separator),
{
    let text = before + separator + rest;
    let n = before.len() as int;
    lemma_leftmost(before, separator, rest);
    assert(text.take(n) =~= before);
    assert(text.skip(n + separator.len()) =~= rest);
}

/// A text without the separator is not split.
pub proof fn law_split_nothing(text: Seq<char>, separator: Seq<char>)
    requires
        forall|before: Seq<char>, after: Seq<char>| !#[trigger]
            is_between(text, before, separator, after),
    ensures
        split(text, separator) == seq![text],
{
    law_occurs(text, separator);
}

/// The leftmost occurrence of a pattern is replaced. What is in front of it stays, and what is
/// behind it is searched on.
pub proof fn law_replace_leftmost(
    before: Seq<char>,
    from: Seq<char>,
    rest: Seq<char>,
    to: Seq<char>,
)
    requires
        from.len() > 0,
        is_leftmost(before, from),
    ensures
        replace(before + from + rest, from, to) == before + to + replace(rest, from, to),
{
    let text = before + from + rest;
    let n = before.len() as int;
    lemma_leftmost(before, from, rest);
    lemma_join_split_step(text, from, to);
    assert(text.take(n) =~= before);
    assert(text.skip(n + from.len()) =~= rest);
}

/// A text without the pattern stays as it is.
pub proof fn law_replace_nothing(text: Seq<char>, from: Seq<char>, to: Seq<char>)
    requires
        forall|before: Seq<char>, after: Seq<char>| !#[trigger]
            is_between(text, before, from, after),
    ensures
        replace(text, from, to) == text,
{
    law_split_nothing(text, from);
}

/// The texts of a list are those of its items, in their order.
pub proof fn law_contents(list: Seq<String>)
    ensures
        contents(list).len() == list.len(),
        forall|i: int| 0 <= i < list.len() ==> #[trigger] contents(list)[i] == list[i]@,
{
}

} // verus!
