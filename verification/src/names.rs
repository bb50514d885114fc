//! Names of shared files and folders as names of local ones.

use crate::text::{
    control, is_control, lemma_trim_both, trim, trim_both, trim_mark, trimmed, white_space,
};
use vstd::prelude::*;
use vstd::string::*;

verus! {

/// The characters that separate paths or that some file system refuses in a name.
pub open spec fn reserved(c: char) -> bool {
    ||| c == '/'
    ||| c == '\\'
    ||| c == ':'
    ||| c == '*'
    ||| c == '?'
    ||| c == '"'
    ||| c == '<'
    ||| c == '>'
    ||| c == '|'
    ||| c == '\0'
}

/// `c`, or an underscore for a reserved or control character.
pub open spec fn replaced(c: char) -> char {
    if reserved(c) || control(c) {
        '_'
    } else {
        c
    }
}

/// `name` with its reserved and control characters replaced, then trimmed of white space, then of
/// dots; an underscore where nothing is left.
pub open spec fn sanitized(name: Seq<char>) -> Seq<char> {
    let kept = trim_both(
        trimmed(name.map_values(|c: char| replaced(c))),
        |c: char| c == '.',
    );
    if kept.len() == 0 {
        seq!['_']
    } else {
        kept
    }
}

/// A name that is one component of a path: not empty, free of reserved and control characters, and
/// with no dot at either end, so neither `.` nor `..`.
pub open spec fn safe_component(name: Seq<char>) -> bool {
    &&& name.len() > 0
    &&& forall|i: int| 0 <= i < name.len() ==> !reserved(#[trigger] name[i]) && !control(name[i])
    &&& name[0] != '.'
    &&& name.last() != '.'
}

fn replacement(c: char) -> (res: char)
    ensures
        res == replaced(c),
{
    match c {
        '/' | '\\' | ':' | '*' | '?' | '"' | '<' | '>' | '|' | '\0' => '_',
        c => if is_control(c) {
            '_'
        } else {
            c
        },
    }
}

/// The name of a local file or folder for the shared name `name`.
pub fn sanitize_component(name: &str) -> (res: String)
    ensures
        res@ == sanitized(name@),
{
    let mut mapped = String::new();
    for c in it: name.chars()
        invariant
            it.seq() == name@,
            mapped@ == name@.take(it.index() as int).map_values(|c: char| replaced(c)),
    {
        mapped.push(replacement(c));
        assert(name@.take(it.index() + 1).map_values(|c: char| replaced(c)) =~= name@.take(
            it.index() as int,
        ).map_values(|c: char| replaced(c)).push(replaced(c)));
    }
    assert(name@.take(name@.len() as int) =~= name@);
    let kept = trim_mark(trim(mapped.as_str()), '.');
    if kept.is_empty() {
        let mut fallback = String::new();
        fallback.push('_');
        assert(fallback@ =~= seq!['_']);
        fallback
    } else {
        kept.to_owned()
    }
}

/// Whatever the shared name, the local one is a single, visible component of a path: it can
/// neither leave its folder nor name another one.
pub proof fn law_sanitized_name_is_safe(name: Seq<char>)
    ensures
        safe_component(sanitized(name)),
{
    let mapped = name.map_values(|c: char| replaced(c));
    let middle = trimmed(mapped);
    let (from, to) = lemma_trim_both(mapped, |c: char| white_space(c));
    let (first, last) = lemma_trim_both(middle, |c: char| c == '.');
    let kept = trim_both(middle, |c: char| c == '.');
    assert forall|i: int| 0 <= i < kept.len() implies !reserved(#[trigger] kept[i]) && !control(
        kept[i],
    ) by {
        assert(kept[i] == middle[first + i]);
        assert(middle[first + i] == mapped[from + first + i]);
        assert(mapped[from + first + i] == replaced(name[from + first + i]));
    }
    if first < last {
        assert(kept[0] == middle[first]);
        assert(kept.last() == middle[last - 1]);
    }
}

/// A safe name without white space at its ends is kept as it is.
pub proof fn law_safe_name_is_kept(name: Seq<char>)
    requires
        safe_component(name),
        !white_space(name[0]),
        !white_space(name.last()),
    ensures
        sanitized(name) == name,
{
    assert(name.map_values(|c: char| replaced(c)) =~= name);
    let (from, to) = lemma_trim_both(name, |c: char| white_space(c));
    assert(from == 0 && to == name.len());
    assert(name.subrange(0, name.len() as int) =~= name);
    let (first, last) = lemma_trim_both(name, |c: char| c == '.');
    assert(first == 0 && last == name.len());
}

/// Sanitizing a name a second time changes nothing, unless dropping dots bared white space.
pub proof fn law_sanitizing_is_idempotent(name: Seq<char>)
    requires
        !white_space(sanitized(name)[0]),
        !white_space(sanitized(name).last()),
    ensures
        sanitized(sanitized(name)) == sanitized(name),
{
    law_sanitized_name_is_safe(name);
    law_safe_name_is_kept(sanitized(name));
}

/// The characters that a name may not hold are ten.
pub proof fn law_reserved_characters(c: char)
    ensures
        reserved(c) <==> "/\\:*?\"<>|\0"@.contains(c),
{
    reveal_strlit("/\\:*?\"<>|\0");
    let all = "/\\:*?\"<>|\0"@;
    assert(all[0] == '/' && all[1] == '\\' && all[2] == ':' && all[3] == '*' && all[4] == '?');
    assert(all[5] == '"' && all[6] == '<' && all[7] == '>' && all[8] == '|' && all[9] == '\0');
    assert(all.len() == 10);
}

/// Sanitizing works character by character. An underscore stands for each reserved or control
/// character, and every other character is kept; of that text, white space and then dots go from the
/// ends, and all the rest stays: the part from `cut.1` to `cut.2`, which is what white space left,
/// from `cut.0` to `cut.3`, without the dots. A lone underscore stands for nothing.
pub proof fn law_sanitizing_goes_character_by_character(name: Seq<char>) -> (cut: (
    int,
    int,
    int,
    int,
))
    ensures
        0 <= cut.0 <= cut.1 <= cut.2 <= cut.3 <= name.len(),
        forall|i: int|
            0 <= i < cut.0 || cut.3 <= i < name.len() ==> white_space(#[trigger] name[i])
                && !control(name[i]),
        cut.0 < cut.3 ==> !white_space(name[cut.0]) || control(name[cut.0]),
        cut.0 < cut.3 ==> !white_space(name[cut.3 - 1]) || control(name[cut.3 - 1]),
        forall|i: int| cut.0 <= i < cut.1 || cut.2 <= i < cut.3 ==> #[trigger] name[i] == '.',
        cut.1 < cut.2 ==> name[cut.1] != '.' && name[cut.2 - 1] != '.',
        cut.1 < cut.2 ==> sanitized(name).len() == cut.2 - cut.1,
        forall|i: int|
            cut.1 <= i < cut.2 ==> (if reserved(name[i]) || control(name[i]) {
                sanitized(name)[i - cut.1] == '_'
            } else {
                sanitized(name)[i - cut.1] == #[trigger] name[i]
            }),
        cut.1 == cut.2 ==> sanitized(name) == seq!['_'],
{
    let mapped = name.map_values(|c: char| replaced(c));
    let middle = trimmed(mapped);
    let (from, to) = lemma_trim_both(mapped, |c: char| white_space(c));
    let (first, last) = lemma_trim_both(middle, |c: char| c == '.');
    assert forall|i: int| 0 <= i < from || to <= i < name.len() implies white_space(
        #[trigger] name[i],
    ) && !control(name[i]) by {
        assert(white_space(mapped[i]));
    }
    assert forall|i: int|
        from <= i < from + first || from + last <= i < to implies #[trigger] name[i] == '.' by {
        assert(middle[i - from] == mapped[i]);
    }
    if first < last {
        assert(middle[first] == mapped[from + first]);
        assert(middle[last - 1] == mapped[from + last - 1]);
        assert(sanitized(name) == middle.subrange(first, last));
        assert forall|i: int|
            from + first <= i < from + last implies sanitized(name)[i - from - first] == replaced(
            #[trigger] name[i],
        ) by {
            assert(middle[i - from] == mapped[i]);
        }
    }
    (from, from + first, from + last, to)
}

/// A name that starts and ends in an ordinary character keeps its length, and every character that
/// is neither reserved nor a control character keeps its place.
pub proof fn law_ordinary_ends_keep_the_name(name: Seq<char>)
    requires
        name.len() > 0,
        name[0] != '.' && !white_space(name[0]),
        name.last() != '.' && !white_space(name.last()),
    ensures
        sanitized(name).len() == name.len(),
        forall|i: int|
            0 <= i < name.len() ==> (if reserved(name[i]) || control(name[i]) {
                sanitized(name)[i] == '_'
            } else {
                sanitized(name)[i] == #[trigger] name[i]
            }),
{
    let cut = law_sanitizing_goes_character_by_character(name);
    assert(name.last() == name[name.len() - 1]);
    assert(cut.0 == 0 && cut.3 == name.len());
    assert(cut.1 == 0 && cut.2 == name.len());
}

/// What is put around a name that starts and ends in an ordinary character changes nothing: dots at
/// its ends, and spaces around them.
pub proof fn law_padding_changes_nothing(name: Seq<char>, before: Seq<char>, after: Seq<char>)
    requires
        name.len() > 0,
        name[0] != '.' && !white_space(name[0]),
        name.last() != '.' && !white_space(name.last()),
        forall|i: int| 0 <= i < before.len() ==> before[i] == ' ' || before[i] == '.',
        forall|i: int| 0 <= i < after.len() ==> after[i] == ' ' || after[i] == '.',
        forall|i: int, j: int| 0 <= i < j < before.len() && before[i] == '.' ==> before[j] == '.',
        forall|i: int, j: int| 0 <= i < j < after.len() && after[i] == ' ' ==> after[j] == ' ',
    ensures
        sanitized(before + name + after) == sanitized(name),
{
    let all = before + name + after;
    let cut = law_sanitizing_goes_character_by_character(all);
    law_ordinary_ends_keep_the_name(name);
    let start = before.len() as int;
    let end = start + name.len();
    assert(all[start] == name[0]);
    assert(all[end - 1] == name.last());
    assert(cut.0 <= start && end <= cut.3);
    if cut.1 < start {
        assert(all[cut.1] == before[cut.1]);
        if cut.1 > cut.0 {
            assert(all[cut.0] == '.');
            assert(before[cut.0] == '.');
        } else {
            assert(all[cut.0] == before[cut.0]);
        }
    }
    assert(cut.1 == start);
    if cut.2 > end {
        assert(all[cut.2 - 1] == after[cut.2 - 1 - end]);
        if cut.2 < cut.3 {
            assert(all[cut.3 - 1] == '.');
            assert(after[cut.3 - 1 - end] == '.');
        } else {
            assert(all[cut.3 - 1] == after[cut.3 - 1 - end]);
        }
    }
    assert(cut.2 == end);
    assert forall|i: int| 0 <= i < name.len() implies sanitized(all)[i] == sanitized(name)[i] by {
        assert(all[start + i] == name[i]);
    }
    assert(sanitized(all) =~= sanitized(name));
}

} // verus!
