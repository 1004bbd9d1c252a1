//! The formats that a slot can ask of its value.
use crate::number::{parse_i64, parsed_i64};
use crate::text::{
    begins_with, char_is_alphanumeric, chars_of, finishes_with, has_text, includes_char,
    includes_text, is_alphanumeric, law_texts_occur_between_others, law_what_occurs_stands_there,
    same_text, texts,
};
use vstd::prelude::*;

verus! {

/// Every character is an ASCII letter or digit, or one of `others`.
pub open spec fn made_of(value: Seq<char>, others: Seq<char>) -> bool {
    forall|i: int|
        0 <= i < value.len() ==> is_alphanumeric(#[trigger] value[i]) || others.contains(value[i])
}

/// Every character is ASCII.
pub open spec fn is_ascii_text(value: Seq<char>) -> bool {
    forall|i: int| 0 <= i < value.len() ==> (#[trigger] value[i] as u32) < 128
}

/// A path that begins at no root and never climbs: `..` occurs nowhere in it.
pub open spec fn relative_path_format(value: Seq<char>) -> bool {
    &&& value.len() > 0
    &&& value[0] != '/'
    &&& value[0] != '\\'
    &&& !has_text(value, ".."@)
    &&& made_of(value, "._-/\\"@)
}

/// A path in any form, from ASCII letters, digits and separators.
pub open spec fn path_format(value: Seq<char>) -> bool {
    &&& value.len() > 0
    &&& made_of(value, "._-/\\:"@)
}

/// A single file name: no separator is among its characters.
pub open spec fn filename_format(value: Seq<char>) -> bool {
    &&& value.len() > 0
    &&& made_of(value, "._-"@)
}

/// A name of a git reference.
pub open spec fn git_ref_format(value: Seq<char>) -> bool {
    &&& value.len() > 0
    &&& value[0] != '-'
    &&& value[0] != '/'
    &&& value.last() != '/'
    &&& !has_text(value, ".."@)
    &&& !has_text(value, "//"@)
    &&& !".lock"@.is_suffix_of(value)
    &&& made_of(value, "._-/"@)
}

/// A long command-line flag.
pub open spec fn flag_format(value: Seq<char>) -> bool {
    &&& "--"@.is_prefix_of(value)
    &&& value.len() > 2
    &&& made_of(value, "-_"@)
}

/// A token that no shell or tool gives a meaning of its own.
pub open spec fn safe_token_format(value: Seq<char>) -> bool {
    &&& value.len() > 0
    &&& made_of(value, "._-:@"@)
}

/// The formats that a rule may name.
pub open spec fn supported_format(format: Seq<char>) -> bool {
    ||| format == "ascii"@
    ||| format == "no_nul"@
    ||| format == "relative_path"@
    ||| format == "path"@
    ||| format == "filename"@
    ||| format == "git_ref"@
    ||| format == "flag"@
    ||| format == "integer"@
    ||| format == "safe_token"@
}

/// What each format asks of a value.
pub open spec fn format_accepts(format: Seq<char>, value: Seq<char>) -> bool {
    if format == "ascii"@ {
        is_ascii_text(value)
    } else if format == "no_nul"@ {
        !value.contains('\0')
    } else if format == "relative_path"@ {
        relative_path_format(value)
    } else if format == "path"@ {
        path_format(value)
    } else if format == "filename"@ {
        filename_format(value)
    } else if format == "git_ref"@ {
        git_ref_format(value)
    } else if format == "flag"@ {
        flag_format(value)
    } else if format == "integer"@ {
        parsed_i64(value) is Some
    } else if format == "safe_token"@ {
        safe_token_format(value)
    } else {
        false
    }
}

/// Some format of the list accepts the value.
pub open spec fn some_format_accepts(formats: Seq<Seq<char>>, value: Seq<char>) -> bool {
    exists|i: int| 0 <= i < formats.len() && format_accepts(#[trigger] formats[i], value)
}

fn is_made_of(value: &str, others: &str) -> (b: bool)
    ensures
        b == made_of(value@, others@),
{
    let chars = chars_of(value);
    let mut i: usize = 0;
    while i < chars.len()
        invariant
            chars@ == value@,
            i <= chars@.len(),
            forall|j: int|
                0 <= j < i ==> is_alphanumeric(#[trigger] chars@[j]) || others@.contains(chars@[j]),
        decreases chars@.len() - i,
    {
        if !char_is_alphanumeric(chars[i]) && !includes_char(others, chars[i]) {
            assert(!is_alphanumeric(value@[i as int]));
            return false;
        }
        i += 1;
    }
    true
}

fn is_ascii_only(value: &str) -> (b: bool)
    ensures
        b == is_ascii_text(value@),
{
    let chars = chars_of(value);
    let mut i: usize = 0;
    while i < chars.len()
        invariant
            chars@ == value@,
            i <= chars@.len(),
            forall|j: int| 0 <= j < i ==> (#[trigger] chars@[j] as u32) < 128,
        decreases chars@.len() - i,
    {
        if chars[i] as u32 >= 128 {
            assert(!((value@[i as int] as u32) < 128));
            return false;
        }
        i += 1;
    }
    true
}

fn is_relative_path(value: &str) -> (b: bool)
    ensures
        b == relative_path_format(value@),
{
    let chars = chars_of(value);
    chars.len() > 0 && chars[0] != '/' && chars[0] != '\\' && !includes_text(value, "..")
        && is_made_of(value, "._-/\\")
}

fn is_path_like(value: &str) -> (b: bool)
    ensures
        b == path_format(value@),
{
    !value.is_empty() && is_made_of(value, "._-/\\:")
}

fn is_filename(value: &str) -> (b: bool)
    ensures
        b == filename_format(value@),
{
    !value.is_empty() && is_made_of(value, "._-")
}

fn is_git_ref(value: &str) -> (b: bool)
    ensures
        b == git_ref_format(value@),
{
    let chars = chars_of(value);
    chars.len() > 0 && chars[0] != '-' && chars[0] != '/' && chars[chars.len() - 1] != '/'
        && !includes_text(value, "..") && !includes_text(value, "//") && !finishes_with(
        value,
        ".lock",
    ) && is_made_of(value, "._-/")
}

fn is_flag(value: &str) -> (b: bool)
    ensures
        b == flag_format(value@),
{
    begins_with(value, "--") && chars_of(value).len() > 2 && is_made_of(value, "-_")
}

fn is_safe_token(value: &str) -> (b: bool)
    ensures
        b == safe_token_format(value@),
{
    !value.is_empty() && is_made_of(value, "._-:@")
}

/// Whether a rule may name the format.
pub fn is_supported_format(format: &str) -> (b: bool)
    ensures
        b == supported_format(format@),
{
    same_text(format, "ascii") || same_text(format, "no_nul") || same_text(format, "relative_path")
        || same_text(format, "path") || same_text(format, "filename") || same_text(
        format,
        "git_ref",
    ) || same_text(format, "flag") || same_text(format, "integer") || same_text(
        format,
        "safe_token",
    )
}

/// Whether the value has the format.
pub fn value_matches_format(value: &str, format: &str) -> (b: bool)
    ensures
        b == format_accepts(format@, value@),
{
    if same_text(format, "ascii") {
        is_ascii_only(value)
    } else if same_text(format, "no_nul") {
        !includes_char(value, '\0')
    } else if same_text(format, "relative_path") {
        is_relative_path(value)
    } else if same_text(format, "path") {
        is_path_like(value)
    } else if same_text(format, "filename") {
        is_filename(value)
    } else if same_text(format, "git_ref") {
        is_git_ref(value)
    } else if same_text(format, "flag") {
        is_flag(value)
    } else if same_text(format, "integer") {
        parse_i64(value).is_some()
    } else if same_text(format, "safe_token") {
        is_safe_token(value)
    } else {
        false
    }
}

/// Whether some format of the list accepts the value.
pub fn matches_some_format(value: &str, formats: &Vec<String>) -> (b: bool)
    ensures
        b == some_format_accepts(texts(formats@), value@),
{
    let mut i: usize = 0;
    while i < formats.len()
        invariant
            i <= formats@.len(),
            forall|j: int|
                0 <= j < i ==> !format_accepts(#[trigger] texts(formats@)[j], value@),
        decreases formats@.len() - i,
    {
        assert(texts(formats@)[i as int] == formats@[i as int]@);
        if value_matches_format(value, formats[i].as_str()) {
            return true;
        }
        i += 1;
    }
    false
}

// ---------------------------------------------------------------------------
// Laws
// ---------------------------------------------------------------------------

proof fn lemma_format_names_differ()
    ensures
        "ascii"@ != "no_nul"@,
        "relative_path"@ != "ascii"@,
        "relative_path"@ != "no_nul"@,
        "path"@ != "ascii"@,
        "path"@ != "no_nul"@,
        "path"@ != "relative_path"@,
        "filename"@ != "ascii"@,
        "filename"@ != "no_nul"@,
        "filename"@ != "relative_path"@,
        "filename"@ != "path"@,
        "git_ref"@ != "ascii"@,
        "git_ref"@ != "no_nul"@,
        "git_ref"@ != "relative_path"@,
        "git_ref"@ != "path"@,
        "git_ref"@ != "filename"@,
        "flag"@ != "ascii"@,
        "flag"@ != "no_nul"@,
        "flag"@ != "relative_path"@,
        "flag"@ != "path"@,
        "flag"@ != "filename"@,
        "flag"@ != "git_ref"@,
        "integer"@ != "ascii"@,
        "integer"@ != "no_nul"@,
        "integer"@ != "relative_path"@,
        "integer"@ != "path"@,
        "integer"@ != "filename"@,
        "integer"@ != "git_ref"@,
        "integer"@ != "flag"@,
        "safe_token"@ != "ascii"@,
        "safe_token"@ != "no_nul"@,
        "safe_token"@ != "relative_path"@,
        "safe_token"@ != "path"@,
        "safe_token"@ != "filename"@,
        "safe_token"@ != "git_ref"@,
        "safe_token"@ != "flag"@,
        "safe_token"@ != "integer"@,
{
    reveal_strlit("ascii");
    reveal_strlit("no_nul");
    reveal_strlit("relative_path");
    reveal_strlit("path");
    reveal_strlit("filename");
    reveal_strlit("git_ref");
    reveal_strlit("flag");
    reveal_strlit("integer");
    reveal_strlit("safe_token");
    assert("ascii"@.len() == 5 && "no_nul"@.len() == 6 && "relative_path"@.len() == 13);
    assert("path"@.len() == 4 && "filename"@.len() == 8 && "git_ref"@.len() == 7);
    assert("flag"@.len() == 4 && "integer"@.len() == 7 && "safe_token"@.len() == 10);
    assert("flag"@[0] == 'f' && "path"@[0] == 'p');
    assert("integer"@[0] == 'i' && "git_ref"@[0] == 'g');
}

/// A value is ASCII where each of its characters has a code below 128.
pub proof fn law_ascii_values_are_ascii(value: Seq<char>)
    ensures
        format_accepts("ascii"@, value) <==> forall|i: int|
            0 <= i < value.len() ==> 0 <= (#[trigger] value[i]) as u32 <= 127,
{
    lemma_format_names_differ();
}

/// A value is free of the null character where none of its characters is that one.
pub proof fn law_values_without_null_have_none(value: Seq<char>)
    ensures
        format_accepts("no_nul"@, value) <==> forall|i: int|
            0 <= i < value.len() ==> #[trigger] value[i] != '\0',
{
    lemma_format_names_differ();
    if format_accepts("no_nul"@, value) {
        assert forall|i: int| 0 <= i < value.len() implies #[trigger] value[i] != '\0' by {
            assert(value.contains(value[i]));
        }
    }
}

/// Two characters do not stand side by side where the text of both occurs nowhere.
proof fn lemma_pair_occurs(value: Seq<char>, pair: Seq<char>, a: char, b: char)
    requires
        pair.len() == 2,
        pair[0] == a,
        pair[1] == b,
    ensures
        has_text(value, pair) <==> exists|i: int|
            0 <= i < value.len() - 1 && #[trigger] value[i] == a && value[i + 1] == b,
{
    if has_text(value, pair) {
        let at = law_what_occurs_stands_there(value, pair);
        assert(value[at] == a && value[at + 1] == b);
    }
    if exists|i: int| 0 <= i < value.len() - 1 && #[trigger] value[i] == a && value[i + 1] == b {
        let at = choose|i: int|
            0 <= i < value.len() - 1 && #[trigger] value[i] == a && value[i + 1] == b;
        law_texts_occur_between_others(value.take(at), pair, value.skip(at + 2));
        assert(value =~= value.take(at) + pair + value.skip(at + 2));
    }
}

/// A relative path is not empty, begins with neither kind of slash, has no two dots side by
/// side, and holds letters, digits, dots, low lines, hyphens and slashes.
pub proof fn law_relative_paths_hold_no_root_and_no_step_up(value: Seq<char>)
    ensures
        format_accepts("relative_path"@, value) <==> {
            &&& value.len() > 0
            &&& value[0] != '/'
            &&& value[0] != '\\'
            &&& forall|i: int|
                0 <= i < value.len() - 1 ==> !(#[trigger] value[i] == '.' && value[i + 1] == '.')
            &&& forall|i: int|
                0 <= i < value.len() ==> is_alphanumeric(#[trigger] value[i]) || value[i] == '.'
                    || value[i] == '_' || value[i] == '-' || value[i] == '/' || value[i] == '\\'
        },
{
    lemma_format_names_differ();
    reveal_strlit("._-/\\");
    reveal_strlit("..");
    lemma_pair_occurs(value, ".."@, '.', '.');
    assert forall|c: char| #[trigger]
        "._-/\\"@.contains(c) == (c == '.' || c == '_' || c == '-' || c == '/' || c == '\\') by {
        assert("._-/\\"@[0] == '.');
        assert("._-/\\"@[1] == '_');
        assert("._-/\\"@[2] == '-');
        assert("._-/\\"@[3] == '/');
        assert("._-/\\"@[4] == '\\');
    }
}

/// A path is not empty and holds letters, digits, dots, low lines, hyphens, slashes and
/// colons.
pub proof fn law_paths_hold_slashes_and_colons(value: Seq<char>)
    ensures
        format_accepts("path"@, value) <==> {
            &&& value.len() > 0
            &&& forall|i: int|
                0 <= i < value.len() ==> is_alphanumeric(#[trigger] value[i]) || value[i] == '.'
                    || value[i] == '_' || value[i] == '-' || value[i] == '/' || value[i] == '\\'
                    || value[i] == ':'
        },
{
    lemma_format_names_differ();
    reveal_strlit("._-/\\:");
    assert forall|c: char| #[trigger]
        "._-/\\:"@.contains(c) == (c == '.' || c == '_' || c == '-' || c == '/' || c == '\\' || c == ':') by {
        assert("._-/\\:"@[0] == '.');
        assert("._-/\\:"@[1] == '_');
        assert("._-/\\:"@[2] == '-');
        assert("._-/\\:"@[3] == '/');
        assert("._-/\\:"@[4] == '\\');
        assert("._-/\\:"@[5] == ':');
    }
}

/// A file name is not empty and holds letters, digits, dots, low lines and hyphens.
pub proof fn law_filenames_hold_no_slash(value: Seq<char>)
    ensures
        format_accepts("filename"@, value) <==> {
            &&& value.len() > 0
            &&& forall|i: int|
                0 <= i < value.len() ==> is_alphanumeric(#[trigger] value[i]) || value[i] == '.'
                    || value[i] == '_' || value[i] == '-'
        },
{
    lemma_format_names_differ();
    reveal_strlit("._-");
    assert forall|c: char| #[trigger]
        "._-"@.contains(c) == (c == '.' || c == '_' || c == '-') by {
        assert("._-"@[0] == '.');
        assert("._-"@[1] == '_');
        assert("._-"@[2] == '-');
    }
}

/// A git reference is not empty, begins with neither a hyphen nor a slash and does not end
/// with one, has no two dots and no two slashes side by side, does not end with `.lock`,
/// and holds letters, digits, dots, low lines, hyphens and slashes.
pub proof fn law_git_references_keep_to_their_form(value: Seq<char>)
    ensures
        format_accepts("git_ref"@, value) <==> {
            &&& value.len() > 0
            &&& value[0] != '-'
            &&& value[0] != '/'
            &&& value[value.len() - 1] != '/'
            &&& forall|i: int|
                0 <= i < value.len() - 1 ==> !(#[trigger] value[i] == '.' && value[i + 1] == '.')
            &&& forall|i: int|
                0 <= i < value.len() - 1 ==> !(#[trigger] value[i] == '/' && value[i + 1] == '/')
            &&& !(value.len() >= 5 && value.skip(value.len() - 5) == seq!['.', 'l', 'o', 'c', 'k'])
            &&& forall|i: int|
                0 <= i < value.len() ==> is_alphanumeric(#[trigger] value[i]) || value[i] == '.'
                    || value[i] == '_' || value[i] == '-' || value[i] == '/'
        },
{
    lemma_format_names_differ();
    reveal_strlit("._-/");
    reveal_strlit("..");
    reveal_strlit("//");
    reveal_strlit(".lock");
    lemma_pair_occurs(value, ".."@, '.', '.');
    lemma_pair_occurs(value, "//"@, '/', '/');
    assert forall|c: char| #[trigger]
        "._-/"@.contains(c) == (c == '.' || c == '_' || c == '-' || c == '/') by {
        assert("._-/"@[0] == '.');
        assert("._-/"@[1] == '_');
        assert("._-/"@[2] == '-');
        assert("._-/"@[3] == '/');
    }
    let end = seq!['.', 'l', 'o', 'c', 'k'];
    assert(".lock"@ =~= end);
    if value.len() >= 5 {
        assert(value.skip(value.len() - 5) =~= value.subrange(value.len() - 5, value.len() as int));
    }
}

/// A flag is two hyphens and at least one more character, and holds letters, digits, hyphens
/// and low lines.
pub proof fn law_flags_begin_with_two_hyphens(value: Seq<char>)
    ensures
        format_accepts("flag"@, value) <==> {
            &&& value.len() > 2
            &&& value[0] == '-'
            &&& value[1] == '-'
            &&& forall|i: int|
                0 <= i < value.len() ==> is_alphanumeric(#[trigger] value[i]) || value[i] == '-'
                    || value[i] == '_'
        },
{
    lemma_format_names_differ();
    reveal_strlit("-_");
    reveal_strlit("--");
    assert forall|c: char| #[trigger]
        "-_"@.contains(c) == (c == '-' || c == '_') by {
        assert("-_"@[0] == '-');
        assert("-_"@[1] == '_');
    }
    if "--"@.is_prefix_of(value) {
        assert(value.take(2)[0] == '-' && value.take(2)[1] == '-');
    }
    if value.len() > 2 && value[0] == '-' && value[1] == '-' {
        assert(value.take(2) =~= "--"@);
    }
}

/// A safe token is not empty and holds letters, digits, dots, low lines, hyphens, colons and
/// at signs.
pub proof fn law_safe_tokens_hold_no_other_marks(value: Seq<char>)
    ensures
        format_accepts("safe_token"@, value) <==> {
            &&& value.len() > 0
            &&& forall|i: int|
                0 <= i < value.len() ==> is_alphanumeric(#[trigger] value[i]) || value[i] == '.'
                    || value[i] == '_' || value[i] == '-' || value[i] == ':' || value[i] == '@'
        },
{
    lemma_format_names_differ();
    reveal_strlit("._-:@");
    assert forall|c: char| #[trigger]
        "._-:@"@.contains(c) == (c == '.' || c == '_' || c == '-' || c == ':' || c == '@') by {
        assert("._-:@"@[0] == '.');
        assert("._-:@"@[1] == '_');
        assert("._-:@"@[2] == '-');
        assert("._-:@"@[3] == ':');
        assert("._-:@"@[4] == '@');
    }
}

/// A value is an integer where it can be read as one of 64 bits.
pub proof fn law_integer_values_can_be_read(value: Seq<char>)
    ensures
        format_accepts("integer"@, value) <==> parsed_i64(value) is Some,
{
    lemma_format_names_differ();
}

/// A rule may name these nine formats and no other, and a format that it may not name
/// accepts nothing.
pub proof fn law_nine_formats_are_supported(format: Seq<char>, value: Seq<char>)
    ensures
        supported_format(format) <==> seq![
            "ascii"@,
            "no_nul"@,
            "relative_path"@,
            "path"@,
            "filename"@,
            "git_ref"@,
            "flag"@,
            "integer"@,
            "safe_token"@,
        ].contains(format),
        !supported_format(format) ==> !format_accepts(format, value),
{
    let names = seq![
        "ascii"@,
        "no_nul"@,
        "relative_path"@,
        "path"@,
        "filename"@,
        "git_ref"@,
        "flag"@,
        "integer"@,
        "safe_token"@,
    ];
    assert(names[0] == "ascii"@ && names[1] == "no_nul"@ && names[2] == "relative_path"@);
    assert(names[3] == "path"@ && names[4] == "filename"@ && names[5] == "git_ref"@);
    assert(names[6] == "flag"@ && names[7] == "integer"@ && names[8] == "safe_token"@);
}

/// One format of a list is enough, and each of them is.
pub proof fn law_one_format_is_enough(
    formats: Seq<Seq<char>>,
    more: Seq<Seq<char>>,
    format: Seq<char>,
    value: Seq<char>,
)
    ensures
        !some_format_accepts(Seq::empty(), value),
        some_format_accepts(seq![format], value) <==> format_accepts(format, value),
        some_format_accepts(formats + more, value) <==> some_format_accepts(formats, value)
            || some_format_accepts(more, value),
{
    if format_accepts(format, value) {
        assert(format_accepts(seq![format][0], value));
    }
    let all = formats + more;
    if some_format_accepts(formats, value) {
        let i = choose|i: int| 0 <= i < formats.len() && format_accepts(#[trigger] formats[i], value);
        assert(format_accepts(all[i], value));
    }
    if some_format_accepts(more, value) {
        let i = choose|i: int| 0 <= i < more.len() && format_accepts(#[trigger] more[i], value);
        assert(format_accepts(all[formats.len() + i], value));
    }
    if some_format_accepts(all, value) {
        let i = choose|i: int| 0 <= i < all.len() && format_accepts(#[trigger] all[i], value);
        if i < formats.len() {
            assert(format_accepts(formats[i], value));
        } else {
            assert(format_accepts(more[i - formats.len()], value));
        }
    }
}

}
