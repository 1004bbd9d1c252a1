//! Text as sequences of characters: the predicates, searches and orders that
//! the rest of the library states its rules in.
use vstd::prelude::*;
use vstd::utf8::encode_utf8;

verus! {

/// `String::push` appends one character to the end of the string.
pub assume_specification[ String::push ](s: &mut String, c: char)
    ensures
        final(s)@ == old(s)@.push(c),
;

// ---------------------------------------------------------------------------
// Specifications
// ---------------------------------------------------------------------------

/// The characters that Unicode gives the property White_Space.
pub open spec fn is_space(c: char) -> bool {
    let code = c as u32;
    ||| 0x09 <= code <= 0x0D
    ||| code == 0x20
    ||| code == 0x85
    ||| code == 0xA0
    ||| code == 0x1680
    ||| 0x2000 <= code <= 0x200A
    ||| code == 0x2028
    ||| code == 0x2029
    ||| code == 0x202F
    ||| code == 0x205F
    ||| code == 0x3000
}

/// The characters of Unicode's general category Cc.
pub open spec fn is_control(c: char) -> bool {
    let code = c as u32;
    code <= 0x1F || 0x7F <= code <= 0x9F
}

/// An ASCII letter or digit.
pub open spec fn is_alphanumeric(c: char) -> bool {
    ||| '0' as u32 <= c as u32 <= '9' as u32
    ||| 'A' as u32 <= c as u32 <= 'Z' as u32
    ||| 'a' as u32 <= c as u32 <= 'z' as u32
}

/// Nothing but white space: what is left of `s` once it is trimmed is empty.
pub open spec fn is_blank(s: Seq<char>) -> bool {
    forall|i: int| 0 <= i < s.len() ==> is_space(#[trigger] s[i])
}

/// `s` without the white space at its start.
pub open spec fn trim_start(s: Seq<char>) -> Seq<char>
    decreases s.len(),
{
    if s.len() > 0 && is_space(s[0]) {
        trim_start(s.drop_first())
    } else {
        s
    }
}

/// `s` without the white space at its end.
pub open spec fn trim_end(s: Seq<char>) -> Seq<char>
    decreases s.len(),
{
    if s.len() > 0 && is_space(s.last()) {
        trim_end(s.drop_last())
    } else {
        s
    }
}

/// `s` without the white space at either end.
pub open spec fn trimmed(s: Seq<char>) -> Seq<char> {
    trim_end(trim_start(s))
}

/// `needle` stands in `s`, beginning at position `at`.
pub open spec fn occurs_at(s: Seq<char>, needle: Seq<char>, at: int) -> bool {
    &&& 0 <= at
    &&& at + needle.len() <= s.len()
    &&& s.subrange(at, at + needle.len()) == needle
}

/// `needle` stands somewhere in `s`.
pub open spec fn has_text(s: Seq<char>, needle: Seq<char>) -> bool {
    exists|at: int| occurs_at(s, needle, at)
}

/// The number of characters before the first white space of `s`.
pub open spec fn word_len(s: Seq<char>) -> nat
    decreases s.len(),
{
    if s.len() == 0 || is_space(s[0]) {
        0
    } else {
        1 + word_len(s.drop_first())
    }
}

/// The runs of characters that white space separates, in order.
pub open spec fn words(s: Seq<char>) -> Seq<Seq<char>>
    decreases s.len(),
{
    if s.len() == 0 {
        Seq::empty()
    } else if is_space(s[0]) {
        words(s.drop_first())
    } else {
        proof {
            lemma_word_len_bounds(s);
        }
        let n = word_len(s) as int;
        seq![s.take(n)] + words(s.skip(n))
    }
}

/// The parts of `list` one after the other with `separator` between two neighbours.
pub open spec fn joined(list: Seq<Seq<char>>, separator: Seq<char>) -> Seq<char>
    decreases list.len(),
{
    if list.len() == 0 {
        Seq::empty()
    } else if list.len() == 1 {
        list[0]
    } else {
        joined(list.drop_last(), separator) + separator + list.last()
    }
}

/// `a` and `b` agree before position `i`, and `b` goes on there.
pub open spec fn agree_before(a: Seq<char>, b: Seq<char>, i: int) -> bool {
    &&& 0 <= i <= a.len()
    &&& i < b.len()
    &&& forall|j: int| 0 <= j < i ==> a[j] == b[j]
}

/// `a` comes before `b` in the lexicographic order of code points, which is also
/// the order of their UTF-8 encodings byte by byte.
pub open spec fn text_less(a: Seq<char>, b: Seq<char>) -> bool {
    exists|i: int| #[trigger]
        agree_before(a, b, i) && (i == a.len() || (a[i] as u32) < (b[i] as u32))
}

/// `least` is the first text of a set in the order of texts.
pub open spec fn is_first_of(set: Set<Seq<char>>, least: Seq<char>) -> bool {
    &&& set.contains(least)
    &&& forall|other: Seq<char>| #[trigger]
        set.contains(other) ==> other == least || text_less(least, other)
}

/// The first text of a set in the order of texts.
pub open spec fn first_of(set: Set<Seq<char>>) -> Seq<char> {
    choose|least: Seq<char>| is_first_of(set, least)
}

/// The number of bytes that `s` takes in UTF-8.
pub open spec fn byte_len(s: Seq<char>) -> usize {
    encode_utf8(s).len() as usize
}

/// The text of each string.
pub open spec fn texts(list: Seq<String>) -> Seq<Seq<char>> {
    list.map_values(|s: String| s@)
}

/// The text of each pair of strings.
pub open spec fn pair_texts(pairs: Seq<(String, String)>) -> Seq<(Seq<char>, Seq<char>)> {
    pairs.map_values(|pair: (String, String)| (pair.0@, pair.1@))
}

// ---------------------------------------------------------------------------
// Lemmas
// ---------------------------------------------------------------------------

/// A word is no longer than the text it begins, and it is not empty at a character
/// that is no white space.
pub proof fn lemma_word_len_bounds(s: Seq<char>)
    ensures
        word_len(s) <= s.len(),
        s.len() > 0 && !is_space(s[0]) ==> word_len(s) > 0,
    decreases s.len(),
{
    if s.len() > 0 && !is_space(s[0]) {
        lemma_word_len_bounds(s.drop_first());
    }
}

/// The characters of a word are no white space, and what follows it is.
pub proof fn lemma_word_len_is(s: Seq<char>, n: int)
    requires
        0 <= n <= s.len(),
        forall|i: int| 0 <= i < n ==> !is_space(#[trigger] s[i]),
        n == s.len() || is_space(s[n]),
    ensures
        word_len(s) == n,
    decreases s.len(),
{
    if n > 0 {
        assert(!is_space(s[0]));
        let t = s.drop_first();
        assert forall|i: int| 0 <= i < n - 1 implies !is_space(#[trigger] t[i]) by {
            assert(t[i] == s[i + 1]);
        }
        lemma_word_len_is(t, n - 1);
    }
}

/// Trimming takes away everything exactly where there is nothing but white space.
pub proof fn law_trimming_empties_blank_text(s: Seq<char>)
    ensures
        trimmed(s).len() == 0 <==> is_blank(s),
{
    lemma_trim_start_empty(s);
    lemma_trim_end_empty(trim_start(s));
    lemma_trim_start_first(s);
}

proof fn lemma_trim_start_empty(s: Seq<char>)
    ensures
        trim_start(s).len() == 0 <==> is_blank(s),
    decreases s.len(),
{
    if s.len() > 0 {
        if is_space(s[0]) {
            let t = s.drop_first();
            lemma_trim_start_empty(t);
            if is_blank(t) {
                assert forall|i: int| 0 <= i < s.len() implies is_space(#[trigger] s[i]) by {
                    if i > 0 {
                        assert(s[i] == t[i - 1]);
                    }
                }
            }
            if is_blank(s) {
                assert forall|i: int| 0 <= i < t.len() implies is_space(#[trigger] t[i]) by {
                    assert(t[i] == s[i + 1]);
                }
            }
        } else {
            assert(!is_blank(s));
        }
    }
}

proof fn lemma_trim_start_first(s: Seq<char>)
    ensures
        trim_start(s).len() > 0 ==> !is_space(trim_start(s)[0]),
    decreases s.len(),
{
    if s.len() > 0 && is_space(s[0]) {
        lemma_trim_start_first(s.drop_first());
    }
}

proof fn lemma_trim_end_empty(s: Seq<char>)
    ensures
        trim_end(s).len() == 0 <==> is_blank(s),
    decreases s.len(),
{
    if s.len() > 0 {
        if is_space(s.last()) {
            let t = s.drop_last();
            lemma_trim_end_empty(t);
            if is_blank(t) {
                assert forall|i: int| 0 <= i < s.len() implies is_space(#[trigger] s[i]) by {
                    if i < t.len() {
                        assert(s[i] == t[i]);
                    }
                }
            }
            if is_blank(s) {
                assert forall|i: int| 0 <= i < t.len() implies is_space(#[trigger] t[i]) by {
                    assert(t[i] == s[i]);
                }
            }
        } else {
            assert(!is_blank(s));
        }
    }
}

/// The order on texts is irreflexive.
pub proof fn lemma_text_less_irreflexive(a: Seq<char>)
    ensures
        !text_less(a, a),
{
}

/// The order on texts is transitive.
pub proof fn lemma_text_less_transitive(a: Seq<char>, b: Seq<char>, c: Seq<char>)
    requires
        text_less(a, b),
        text_less(b, c),
    ensures
        text_less(a, c),
{
    let i = choose|i: int| #[trigger]
        agree_before(a, b, i) && (i == a.len() || (a[i] as u32) < (b[i] as u32));
    let j = choose|j: int| #[trigger]
        agree_before(b, c, j) && (j == b.len() || (b[j] as u32) < (c[j] as u32));
    let k = if i < j {
        i
    } else {
        j
    };
    assert(agree_before(a, c, k));
}

/// Of two different texts one comes before the other.
pub proof fn lemma_text_less_total(a: Seq<char>, b: Seq<char>)
    ensures
        a == b || text_less(a, b) || text_less(b, a),
    decreases a.len(),
{
    if a != b {
        let n = lemma_first_difference(a, b, 0);
        if n < b.len() && (n == a.len() || (a[n] as u32) < (b[n] as u32)) {
            assert(agree_before(a, b, n));
        } else {
            if n < a.len() && n < b.len() {
                lemma_char_codes_differ(a[n], b[n]);
            }
            assert(agree_before(b, a, n));
        }
    }
}

proof fn lemma_char_codes_differ(c: char, d: char)
    requires
        c != d,
    ensures
        c as u32 != d as u32,
{
}

proof fn lemma_first_difference(a: Seq<char>, b: Seq<char>, from: int) -> (n: int)
    requires
        a != b,
        0 <= from <= a.len(),
        from <= b.len(),
        forall|j: int| 0 <= j < from ==> a[j] == b[j],
    ensures
        0 <= n <= a.len(),
        n <= b.len(),
        forall|j: int| 0 <= j < n ==> a[j] == b[j],
        n < a.len() || n < b.len(),
        n < a.len() && n < b.len() ==> a[n] != b[n],
    decreases a.len() - from,
{
    if from < a.len() && from < b.len() && a[from] == b[from] {
        lemma_first_difference(a, b, from + 1)
    } else {
        if from == a.len() && from == b.len() {
            assert(a =~= b);
        }
        from
    }
}

/// Joining one more part appends the separator and that part.
pub proof fn lemma_joined_push(list: Seq<Seq<char>>, separator: Seq<char>, part: Seq<char>)
    requires
        list.len() > 0,
    ensures
        joined(list.push(part), separator) == joined(list, separator) + separator + part,
{
    assert(list.push(part).drop_last() =~= list);
}

/// There is only one first text of a set.
pub proof fn lemma_first_of(set: Set<Seq<char>>, least: Seq<char>)
    requires
        is_first_of(set, least),
    ensures
        first_of(set) == least,
{
    let chosen = first_of(set);
    assert(is_first_of(set, chosen));
    if chosen != least {
        lemma_text_less_transitive(chosen, least, chosen);
        lemma_text_less_irreflexive(chosen);
    }
}

// ---------------------------------------------------------------------------
// Executable functions
// ---------------------------------------------------------------------------

/// The characters of `s`, one per element.
pub fn chars_of(s: &str) -> (chars: Vec<char>)
    ensures
        chars@ == s@,
{
    let mut chars: Vec<char> = Vec::new();
    for c in it: s.chars()
        invariant
            it.seq() == s@,
            chars@ == s@.take(it.index()),
    {
        chars.push(c);
        assert(s@.take(it.index() + 1) =~= s@.take(it.index()).push(c));
    }
    assert(s@.take(s@.len() as int) =~= s@);
    chars
}

/// The string made of the characters of `chars` from position `from` up to `to`.
pub fn string_of(chars: &Vec<char>, from: usize, to: usize) -> (s: String)
    requires
        from <= to <= chars@.len(),
    ensures
        s@ == chars@.subrange(from as int, to as int),
{
    let mut s = String::new();
    let mut i: usize = from;
    while i < to
        invariant
            from <= i <= to <= chars@.len(),
            s@ == chars@.subrange(from as int, i as int),
        decreases to - i,
    {
        s.push(chars[i]);
        assert(chars@.subrange(from as int, i + 1) =~= chars@.subrange(from as int, i as int).push(
            chars@[i as int],
        ));
        i += 1;
    }
    s
}

/// Whether two texts are the same.
pub fn same_text(a: &str, b: &str) -> (same: bool)
    ensures
        same == (a@ == b@),
{
    a.to_owned() == b.to_owned()
}

/// Whether `list` holds a string with the text of `wanted`.
pub fn list_has(list: &Vec<String>, wanted: &str) -> (found: bool)
    ensures
        found == texts(list@).contains(wanted@),
{
    let mut i: usize = 0;
    while i < list.len()
        invariant
            i <= list@.len(),
            forall|j: int| 0 <= j < i ==> (#[trigger] list@[j])@ != wanted@,
        decreases list@.len() - i,
    {
        if same_text(list[i].as_str(), wanted) {
            assert(texts(list@)[i as int] == wanted@);
            return true;
        }
        i += 1;
    }
    assert forall|j: int| 0 <= j < texts(list@).len() implies texts(list@)[j] != wanted@ by {
        assert(list@[j]@ != wanted@);
    }
    false
}

/// Whether `c` is white space.
pub fn char_is_space(c: char) -> (b: bool)
    ensures
        b == is_space(c),
{
    let code: u32 = c as u32;
    (0x09 <= code && code <= 0x0D) || code == 0x20 || code == 0x85 || code == 0xA0 || code == 0x1680
        || (0x2000 <= code && code <= 0x200A) || code == 0x2028 || code == 0x2029 || code == 0x202F
        || code == 0x205F || code == 0x3000
}

/// Whether `c` is a control character.
pub fn char_is_control(c: char) -> (b: bool)
    ensures
        b == is_control(c),
{
    let code: u32 = c as u32;
    code <= 0x1F || (0x7F <= code && code <= 0x9F)
}

/// Whether `c` is an ASCII letter or digit.
pub fn char_is_alphanumeric(c: char) -> (b: bool)
    ensures
        b == is_alphanumeric(c),
{
    let code: u32 = c as u32;
    ('0' as u32 <= code && code <= '9' as u32) || ('A' as u32 <= code && code <= 'Z' as u32) || (
    'a' as u32 <= code && code <= 'z' as u32)
}

/// Whether `s` holds nothing but white space.
pub fn text_is_blank(s: &str) -> (blank: bool)
    ensures
        blank == is_blank(s@),
{
    let chars = chars_of(s);
    let mut i: usize = 0;
    while i < chars.len()
        invariant
            chars@ == s@,
            i <= chars@.len(),
            forall|j: int| 0 <= j < i ==> is_space(#[trigger] chars@[j]),
        decreases chars@.len() - i,
    {
        if !char_is_space(chars[i]) {
            assert(!is_space(s@[i as int]));
            return false;
        }
        i += 1;
    }
    true
}

/// `s` without the white space at either end.
pub fn trim_text(s: &str) -> (result: String)
    ensures
        result@ == trimmed(s@),
{
    let chars = chars_of(s);
    let mut from: usize = 0;
    assert(chars@.skip(0) =~= chars@);
    while from < chars.len() && char_is_space(chars[from])
        invariant
            chars@ == s@,
            from <= chars@.len(),
            trim_start(s@) == trim_start(chars@.skip(from as int)),
        decreases chars@.len() - from,
    {
        assert(chars@.skip(from as int).drop_first() =~= chars@.skip(from + 1));
        from += 1;
    }
    assert(trim_start(s@) == chars@.skip(from as int));
    let mut to: usize = chars.len();
    assert(chars@.subrange(from as int, to as int) =~= chars@.skip(from as int));
    while to > from && char_is_space(chars[to - 1])
        invariant
            chars@ == s@,
            from <= to <= chars@.len(),
            trim_end(trim_start(s@)) == trim_end(chars@.subrange(from as int, to as int)),
        decreases to,
    {
        assert(chars@.subrange(from as int, to as int).drop_last() =~= chars@.subrange(
            from as int,
            to - 1,
        ));
        to -= 1;
    }
    string_of(&chars, from, to)
}

/// Whether `needle` stands in `chars` beginning at position `at`.
pub fn stands_at(chars: &Vec<char>, needle: &Vec<char>, at: usize) -> (b: bool)
    ensures
        b == occurs_at(chars@, needle@, at as int),
{
    if needle.len() > chars.len() || at > chars.len() - needle.len() {
        return false;
    }
    let mut i: usize = 0;
    while i < needle.len()
        invariant
            i <= needle@.len(),
            at + needle@.len() <= chars@.len() <= usize::MAX,
            forall|j: int| 0 <= j < i ==> chars@[at + j] == #[trigger] needle@[j],
        decreases needle@.len() - i,
    {
        if chars[at + i] != needle[i] {
            assert(chars@.subrange(at as int, at + needle@.len())[i as int] != needle@[i as int]);
            return false;
        }
        i += 1;
    }
    assert(chars@.subrange(at as int, at + needle@.len()) =~= needle@);
    true
}

/// Whether `s` begins with `prefix`.
pub fn begins_with(s: &str, prefix: &str) -> (b: bool)
    ensures
        b == prefix@.is_prefix_of(s@),
{
    let chars = chars_of(s);
    let needle = chars_of(prefix);
    let b = stands_at(&chars, &needle, 0);
    proof {
        if prefix@.len() <= s@.len() {
            assert(s@.subrange(0, prefix@.len() as int) =~= s@.take(prefix@.len() as int));
        }
    }
    b
}

/// Whether `s` ends with `suffix`.
pub fn finishes_with(s: &str, suffix: &str) -> (b: bool)
    ensures
        b == suffix@.is_suffix_of(s@),
{
    let chars = chars_of(s);
    let needle = chars_of(suffix);
    if needle.len() > chars.len() {
        return false;
    }
    stands_at(&chars, &needle, chars.len() - needle.len())
}

/// Whether `c` is the first character of `s`.
pub fn starts_with_char(s: &str, c: char) -> (b: bool)
    ensures
        b == (s@.len() > 0 && s@[0] == c),
{
    let chars = chars_of(s);
    chars.len() > 0 && chars[0] == c
}

/// Whether `needle` stands somewhere in `s`.
pub fn includes_text(s: &str, needle: &str) -> (b: bool)
    ensures
        b == has_text(s@, needle@),
{
    let chars = chars_of(s);
    let pattern = chars_of(needle);
    if pattern.len() > chars.len() {
        return false;
    }
    let mut at: usize = 0;
    let last: usize = chars.len() - pattern.len();
    loop
        invariant
            chars@ == s@,
            pattern@ == needle@,
            pattern@.len() <= chars@.len(),
            last == chars@.len() - pattern@.len(),
            at <= last,
            forall|j: int| 0 <= j < at ==> !#[trigger] occurs_at(s@, needle@, j),
        decreases last - at,
    {
        if stands_at(&chars, &pattern, at) {
            return true;
        }
        if at == last {
            return false;
        }
        at += 1;
    }
}

/// Whether the character `c` stands somewhere in `s`.
pub fn includes_char(s: &str, c: char) -> (b: bool)
    ensures
        b == s@.contains(c),
{
    let chars = chars_of(s);
    let mut i: usize = 0;
    while i < chars.len()
        invariant
            chars@ == s@,
            i <= chars@.len(),
            forall|j: int| 0 <= j < i ==> #[trigger] chars@[j] != c,
        decreases chars@.len() - i,
    {
        if chars[i] == c {
            assert(s@[i as int] == c);
            return true;
        }
        i += 1;
    }
    false
}

/// The runs of characters of `s` that white space separates.
pub fn split_words(s: &str) -> (list: Vec<String>)
    ensures
        texts(list@) == words(s@),
{
    let chars = chars_of(s);
    let mut list: Vec<String> = Vec::new();
    let mut i: usize = 0;
    assert(chars@.skip(0) =~= chars@);
    assert(texts(list@) =~= Seq::empty());
    assert(words(s@) =~= texts(list@) + words(chars@.skip(0)));
    while i < chars.len()
        invariant
            chars@ == s@,
            i <= chars@.len(),
            words(s@) == texts(list@) + words(chars@.skip(i as int)),
        decreases chars@.len() - i,
    {
        let ghost rest = chars@.skip(i as int);
        if char_is_space(chars[i]) {
            assert(rest.drop_first() =~= chars@.skip(i + 1));
            i += 1;
        } else {
            let mut end: usize = i;
            while end < chars.len() && !char_is_space(chars[end])
                invariant
                    i <= end <= chars@.len(),
                    forall|j: int| i <= j < end ==> !is_space(#[trigger] chars@[j]),
                decreases chars@.len() - end,
            {
                end += 1;
            }
            let word = string_of(&chars, i, end);
            proof {
                assert forall|j: int| 0 <= j < end - i implies !is_space(#[trigger] rest[j]) by {
                    assert(rest[j] == chars@[i + j]);
                }
                lemma_word_len_is(rest, end - i);
                assert(rest.take(end - i) =~= word@);
                assert(rest.skip(end - i) =~= chars@.skip(end as int));
            }
            let ghost before = list@;
            list.push(word);
            assert(texts(list@) =~= texts(before).push(word@));
            assert(texts(list@) + words(chars@.skip(end as int)) =~= texts(before) + (seq![word@]
                + words(chars@.skip(end as int))));
            i = end;
        }
    }
    assert(words(chars@.skip(i as int)) =~= Seq::empty());
    assert(texts(list@) + Seq::<Seq<char>>::empty() =~= texts(list@));
    list
}

/// The strings of `list` one after the other with `separator` between two neighbours.
pub fn join_texts(list: &Vec<String>, separator: &str) -> (s: String)
    ensures
        s@ == joined(texts(list@), separator@),
{
    let mut s = String::new();
    let mut i: usize = 0;
    assert(texts(list@).take(0) =~= Seq::empty());
    while i < list.len()
        invariant
            i <= list@.len(),
            s@ == joined(texts(list@).take(i as int), separator@),
        decreases list@.len() - i,
    {
        let ghost before = texts(list@).take(i as int);
        let ghost part = list@[i as int]@;
        assert(texts(list@).take(i + 1) =~= before.push(part));
        if i > 0 {
            proof {
                lemma_joined_push(before, separator@, part);
            }
            s.append(separator);
        }
        s.append(list[i].as_str());
        i += 1;
    }
    assert(texts(list@).take(list@.len() as int) =~= texts(list@));
    s
}

/// Whether `a` comes before `b` in the lexicographic order of code points.
pub fn comes_before(a: &str, b: &str) -> (less: bool)
    ensures
        less == text_less(a@, b@),
{
    let x = chars_of(a);
    let y = chars_of(b);
    let mut i: usize = 0;
    while i < x.len() && i < y.len() && x[i] == y[i]
        invariant
            x@ == a@,
            y@ == b@,
            i <= x@.len(),
            i <= y@.len(),
            forall|j: int| 0 <= j < i ==> x@[j] == y@[j],
        decreases x@.len() - i,
    {
        i += 1;
    }
    let less = i < y.len() && (i == x.len() || (x[i] as u32) < (y[i] as u32));
    proof {
        if less {
            assert(agree_before(a@, b@, i as int));
        } else if text_less(a@, b@) {
            let k = choose|k: int| #[trigger]
                agree_before(a@, b@, k) && (k == a@.len() || (a@[k] as u32) < (b@[k] as u32));
            assert(false);
        }
    }
    less
}

// ---------------------------------------------------------------------------
// Laws
// ---------------------------------------------------------------------------

/// White space is the tab, the line feed, the line tabulation, the form feed, the carriage
/// return, the space, the next line, the no-break space and the spaces and separators of
/// the other blocks of Unicode.
pub proof fn law_white_space_is_that_of_unicode(c: char)
    ensures
        is_space(c) <==> {
            ||| c == '\t' || c == '\n' || c == '\u{b}' || c == '\u{c}' || c == '\r' || c == ' '
            ||| c == '\u{85}' || c == '\u{a0}' || c == '\u{1680}'
            ||| c == '\u{2000}' || c == '\u{2001}' || c == '\u{2002}' || c == '\u{2003}'
            ||| c == '\u{2004}' || c == '\u{2005}' || c == '\u{2006}' || c == '\u{2007}'
            ||| c == '\u{2008}' || c == '\u{2009}' || c == '\u{200a}'
            ||| c == '\u{2028}' || c == '\u{2029}' || c == '\u{202f}' || c == '\u{205f}'
            ||| c == '\u{3000}'
        },
{
}

/// The control characters are the two blocks of thirty-two and the delete character.
pub proof fn law_control_characters_are_those_of_unicode(c: char)
    ensures
        is_control(c) <==> (c as u32) < 32 || 127 <= (c as u32) < 160,
{
}

/// A letter or digit of ASCII is a letter from one of the two alphabets or a digit, and
/// nothing beyond ASCII is one.
pub proof fn law_alphanumerics_are_those_of_ascii(c: char, k: int)
    requires
        0 <= k,
    ensures
        k < 10 ==> (c as int == 48 + k ==> is_alphanumeric(c)),
        k < 26 ==> (c as int == 65 + k || c as int == 97 + k ==> is_alphanumeric(c)),
        is_alphanumeric(c) ==> 0 <= c as int - 48 < 10 || 0 <= c as int - 65 < 26 || 0 <= c as int
            - 97 < 26,
{
}

/// Texts in a row are blank where each of them is; a text of one character is blank where
/// the character is white space.
pub proof fn law_blank_text_is_white_space_alone(a: Seq<char>, b: Seq<char>, c: char)
    ensures
        is_blank(Seq::<char>::empty()),
        is_blank(seq![c]) <==> is_space(c),
        is_blank(a + b) <==> is_blank(a) && is_blank(b),
{
    assert(seq![c][0] == c);
    if is_blank(a + b) {
        assert forall|i: int| 0 <= i < a.len() implies is_space(#[trigger] a[i]) by {
            assert((a + b)[i] == a[i]);
        }
        assert forall|i: int| 0 <= i < b.len() implies is_space(#[trigger] b[i]) by {
            assert((a + b)[a.len() + i] == b[i]);
        }
    }
    if is_blank(a) && is_blank(b) {
        assert forall|i: int| 0 <= i < (a + b).len() implies is_space(#[trigger] (a + b)[i]) by {
            if i < a.len() {
                assert((a + b)[i] == a[i]);
            } else {
                assert((a + b)[i] == b[i - a.len()]);
            }
        }
    }
}

proof fn lemma_trim_end_is(m: Seq<char>, b: Seq<char>)
    requires
        is_blank(b),
        m.len() > 0 ==> !is_space(m.last()),
    ensures
        trim_end(m + b) == m,
    decreases b.len(),
{
    if b.len() == 0 {
        assert(m + b =~= m);
    } else {
        let c = b.drop_last();
        assert(is_space(b[b.len() - 1]));
        assert forall|i: int| 0 <= i < c.len() implies is_space(#[trigger] c[i]) by {
            assert(c[i] == b[i]);
        }
        assert((m + b).last() == b.last());
        assert((m + b).drop_last() =~= m + c);
        lemma_trim_end_is(m, c);
    }
}

proof fn lemma_trim_start_is(a: Seq<char>, m: Seq<char>)
    requires
        is_blank(a),
        m.len() > 0 ==> !is_space(m[0]),
    ensures
        trim_start(a + m) == m,
    decreases a.len(),
{
    if a.len() == 0 {
        assert(a + m =~= m);
    } else {
        let c = a.drop_first();
        assert(is_space(a[0]));
        assert forall|i: int| 0 <= i < c.len() implies is_space(#[trigger] c[i]) by {
            assert(c[i] == a[i + 1]);
        }
        assert((a + m)[0] == a[0]);
        assert((a + m).drop_first() =~= c + m);
        lemma_trim_start_is(c, m);
    }
}

/// Trimming takes the white space around a text away and nothing else: what begins and
/// ends with other characters comes out as it is, whatever stands between them.
pub proof fn law_trimming_takes_white_space_off_the_ends(
    before: Seq<char>,
    text: Seq<char>,
    after: Seq<char>,
)
    requires
        is_blank(before),
        is_blank(after),
        text.len() > 0 ==> !is_space(text[0]) && !is_space(text.last()),
    ensures
        trimmed(before + text + after) == text,
{
    if text.len() == 0 {
        law_blank_text_is_white_space_alone(before, after, ' ');
        assert(before + text + after =~= before + after);
        assert((before + after) + text =~= before + after);
        lemma_trim_start_is(before + after, text);
        assert(trim_start(before + after) == text);
        assert(trim_end(text) =~= text);
    } else {
        assert((text + after)[0] == text[0]);
        assert(before + text + after =~= before + (text + after));
        lemma_trim_start_is(before, text + after);
        lemma_trim_end_is(text, after);
    }
}

/// White space parts a text into words: the words of two texts with white space between
/// them are those of the one and those of the other. A text without white space is one
/// word, and white space alone is none.
pub proof fn law_words_are_parted_by_white_space(a: Seq<char>, c: char, b: Seq<char>)
    requires
        is_space(c),
    ensures
        words(a + seq![c] + b) == words(a) + words(b),
        is_blank(a) ==> words(a) == Seq::<Seq<char>>::empty(),
        a.len() > 0 && (forall|i: int| 0 <= i < a.len() ==> !is_space(#[trigger] a[i])) ==> words(a)
            == seq![a],
    decreases a.len(),
{
    let whole = a + seq![c] + b;
    if a.len() == 0 {
        assert(whole[0] == c);
        assert(whole.drop_first() =~= b);
        assert(words(a) + words(b) =~= words(b));
    } else if is_space(a[0]) {
        let t = a.drop_first();
        law_words_are_parted_by_white_space(t, c, b);
        assert(whole.drop_first() =~= t + seq![c] + b);
        if is_blank(a) {
            assert forall|i: int| 0 <= i < t.len() implies is_space(#[trigger] t[i]) by {
                assert(t[i] == a[i + 1]);
            }
        }
    } else {
        lemma_word_len_bounds(a);
        let n = word_len(a) as int;
        lemma_word_len_stops(a);
        let t = a.skip(n);
        assert forall|i: int| 0 <= i < n implies !is_space(#[trigger] whole[i]) by {
            assert(whole[i] == a[i]);
        }
        assert(n < a.len() ==> whole[n] == a[n]);
        assert(n == a.len() ==> whole[n] == c);
        lemma_word_len_is(whole, n);
        assert(whole.take(n) =~= a.take(n));
        assert(whole.skip(n) =~= t + seq![c] + b);
        law_words_are_parted_by_white_space(t, c, b);
        assert(whole[0] == a[0]);
        assert(words(whole) == seq![whole.take(n)] + words(whole.skip(n)));
        assert(words(whole) =~= words(a) + words(b));
        if forall|i: int| 0 <= i < a.len() ==> !is_space(#[trigger] a[i]) {
            lemma_word_len_is(a, a.len() as int);
            assert(a.take(n) =~= a);
            assert(t =~= Seq::empty());
            assert(words(a) =~= seq![a]);
        }
    }
}

proof fn lemma_word_len_stops(s: Seq<char>)
    ensures
        word_len(s) <= s.len(),
        forall|i: int| 0 <= i < word_len(s) ==> !is_space(#[trigger] s[i]),
        word_len(s) < s.len() ==> is_space(s[word_len(s) as int]),
    decreases s.len(),
{
    if s.len() > 0 && !is_space(s[0]) {
        let t = s.drop_first();
        lemma_word_len_stops(t);
        assert forall|i: int| 0 <= i < word_len(s) implies !is_space(#[trigger] s[i]) by {
            if i > 0 {
                assert(s[i] == t[i - 1]);
            }
        }
    }
}

/// Joining nothing gives nothing, joining one part gives the part, and each further part
/// comes behind one more separator.
pub proof fn law_parts_are_joined_by_one_separator(
    list: Seq<Seq<char>>,
    separator: Seq<char>,
    part: Seq<char>,
)
    ensures
        joined(Seq::empty(), separator) == Seq::<char>::empty(),
        joined(seq![part], separator) == part,
        list.len() > 0 ==> joined(list.push(part), separator) == joined(list, separator) + separator
            + part,
{
    if list.len() > 0 {
        lemma_joined_push(list, separator, part);
    }
}

/// A text comes before every text that goes on where it ends; of two texts that part at a
/// character, the one with the lower code point there comes first.
pub proof fn law_texts_are_ordered_by_code_points(
    common: Seq<char>,
    c: char,
    d: char,
    a: Seq<char>,
    b: Seq<char>,
)
    ensures
        text_less(common, common + seq![d] + b),
        !text_less(common + seq![d] + b, common),
        c != d ==> (text_less(common + seq![c] + a, common + seq![d] + b) <==> (c as u32) < (d as u32)),
{
    let n = common.len() as int;
    let x = common + seq![c] + a;
    let y = common + seq![d] + b;
    assert(agree_before(common, y, n));
    if text_less(y, common) {
        lemma_text_less_transitive(common, y, common);
        lemma_text_less_irreflexive(common);
    }
    if c != d {
        assert(x[n] == c && y[n] == d);
        assert forall|j: int| 0 <= j < n implies x[j] == y[j] by {
            assert(x[j] == common[j] && y[j] == common[j]);
        }
        lemma_char_codes_differ(c, d);
        if (c as u32) < (d as u32) {
            assert(agree_before(x, y, n));
        } else {
            assert(agree_before(y, x, n));
            if text_less(x, y) {
                lemma_text_less_transitive(x, y, x);
                lemma_text_less_irreflexive(x);
            }
        }
    }
}

/// The first text of a set comes before all others of it.
pub proof fn law_the_first_text_comes_before_the_others(
    set: Set<Seq<char>>,
    least: Seq<char>,
    other: Seq<char>,
)
    requires
        set.contains(least),
        forall|text: Seq<char>| #[trigger]
            set.contains(text) ==> text == least || text_less(least, text),
        set.contains(other),
    ensures
        first_of(set) == least,
        other != first_of(set) ==> text_less(first_of(set), other),
{
    assert(is_first_of(set, least));
    lemma_first_of(set, least);
}

/// A text occurs in another exactly where that one is made of something, the text, and
/// something.
pub proof fn law_texts_occur_between_others(before: Seq<char>, needle: Seq<char>, after: Seq<char>)
    ensures
        has_text(before + needle + after, needle),
{
    let whole = before + needle + after;
    let at = before.len() as int;
    assert(whole.subrange(at, at + needle.len()) =~= needle);
    assert(occurs_at(whole, needle, at));
}

/// Where a text occurs in another, there is what stands before it and behind it.
pub proof fn law_what_occurs_stands_there(s: Seq<char>, needle: Seq<char>) -> (at: int)
    requires
        has_text(s, needle),
    ensures
        0 <= at <= at + needle.len() <= s.len(),
        s == s.take(at) + needle + s.skip(at + needle.len()),
{
    let at = choose|at: int| occurs_at(s, needle, at);
    assert(s =~= s.take(at) + s.subrange(at, at + needle.len()) + s.skip(at + needle.len()));
    at
}

/// The bytes of a text are those of its encoding.
pub proof fn law_bytes_are_those_of_the_encoding(s: Seq<char>)
    requires
        encode_utf8(s).len() <= usize::MAX,
    ensures
        byte_len(s) == encode_utf8(s).len(),
{
}

/// A list of strings is taken for the list of their texts, and a list of pairs for the
/// list of the pairs of their texts.
pub proof fn law_lists_are_taken_by_their_texts(
    list: Seq<String>,
    pairs: Seq<(String, String)>,
    i: int,
)
    ensures
        texts(list).len() == list.len(),
        0 <= i < list.len() ==> texts(list)[i] == list[i]@,
        pair_texts(pairs).len() == pairs.len(),
        0 <= i < pairs.len() ==> pair_texts(pairs)[i].0 == pairs[i].0@ && pair_texts(pairs)[i].1
            == pairs[i].1@,
{
}

}
