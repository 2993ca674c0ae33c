//! The name column of a snapshot entry: the base name of the path that the
//! system reported for a process image, or a placeholder.

use crate::text::string_from_chars;
use vstd::prelude::*;
use vstd::string::StringExecFns;

verus! {

/// The placeholder shown where the system wrote no path at all: access was
/// denied, or the process ended before it was asked.
pub open spec fn access_denied_text() -> Seq<char> {
    "[Access Denied or Process Closed]"@
}

/// The placeholder shown where the reported path is not well-formed UTF-16.
pub open spec fn invalid_name_text() -> Seq<char> {
    "[Invalid Name]"@
}

/// Whether `unit` is the first half of a surrogate pair.
pub open spec fn is_high_surrogate(unit: u16) -> bool {
    0xD800 <= unit <= 0xDBFF
}

/// Whether `unit` is the second half of a surrogate pair.
pub open spec fn is_low_surrogate(unit: u16) -> bool {
    0xDC00 <= unit <= 0xDFFF
}

/// The character that a surrogate pair encodes.
pub open spec fn surrogate_pair_char(high: u16, low: u16) -> char
    recommends
        is_high_surrogate(high),
        is_low_surrogate(low),
{
    (0x10000 + (high - 0xD800) * 0x400 + (low - 0xDC00)) as char
}

/// `first` followed by `rest`, where there is a `rest`.
pub open spec fn prefixed(first: Seq<char>, rest: Option<Seq<char>>) -> Option<Seq<char>> {
    match rest {
        Some(tail) => Some(first + tail),
        None => None,
    }
}

/// The text that a sequence of UTF-16 code units encodes: a unit outside the
/// surrogate range stands for itself, a high surrogate directly followed by a
/// low one stands for the character of the pair, and any other use of a
/// surrogate makes the whole sequence invalid.
pub open spec fn utf16_text(units: Seq<u16>) -> Option<Seq<char>>
    decreases units.len(),
{
    if units.len() == 0 {
        Some(Seq::empty())
    } else if !is_high_surrogate(units[0]) && !is_low_surrogate(units[0]) {
        prefixed(seq![units[0] as char], utf16_text(units.skip(1)))
    } else if is_high_surrogate(units[0]) && units.len() >= 2 && is_low_surrogate(units[1]) {
        prefixed(seq![surrogate_pair_char(units[0], units[1])], utf16_text(units.skip(2)))
    } else {
        None
    }
}

/// Decodes UTF-16 code units into characters; `None` where they are not
/// well-formed.
pub fn decode_utf16(units: &[u16]) -> (text: Option<Vec<char>>)
    ensures
        text.is_some() == utf16_text(units@).is_some(),
        text matches Some(chars) ==> utf16_text(units@) == Some(chars@),
{
    let mut chars: Vec<char> = Vec::new();
    let mut i: usize = 0;
    proof {
        assert(units@.skip(0) == units@);
        lemma_prefixed_empty(utf16_text(units@));
    }
    while i < units.len()
        invariant
            i <= units.len(),
            utf16_text(units@) == prefixed(chars@, utf16_text(units@.skip(i as int))),
        decreases units.len() - i,
    {
        let ghost rest = units@.skip(i as int);
        let ghost before = chars@;
        let unit: u16 = units[i];
        assert(rest[0] == unit);
        if unit < 0xD800 || unit > 0xDFFF {
            let c = char::from_u32(unit as u32);
            assert(c == Some(unit as char));
            chars.push(c.unwrap());
            i += 1;
            proof {
                assert(rest.skip(1) == units@.skip(i as int));
                lemma_prefixed_twice(before, seq![unit as char], utf16_text(rest.skip(1)));
            }
        } else if unit <= 0xDBFF && i + 1 < units.len() && 0xDC00 <= units[i + 1] && units[i + 1]
            <= 0xDFFF {
            let low: u16 = units[i + 1];
            assert(rest[1] == low);
            let code: u32 = 0x10000 + (unit as u32 - 0xD800) * 0x400 + (low as u32 - 0xDC00);
            let c = char::from_u32(code);
            assert(c == Some(surrogate_pair_char(unit, low)));
            chars.push(c.unwrap());
            i += 2;
            proof {
                assert(rest.skip(2) == units@.skip(i as int));
                lemma_prefixed_twice(
                    before,
                    seq![surrogate_pair_char(unit, low)],
                    utf16_text(rest.skip(2)),
                );
            }
        } else {
            assert(utf16_text(rest).is_none());
            return None;
        }
    }
    assert(chars@ + Seq::<char>::empty() == chars@);
    Some(chars)
}

proof fn lemma_prefixed_empty(rest: Option<Seq<char>>)
    ensures
        prefixed(Seq::empty(), rest) == rest,
{
    if let Some(tail) = rest {
        assert(Seq::<char>::empty() + tail == tail);
    }
}

proof fn lemma_prefixed_twice(a: Seq<char>, b: Seq<char>, rest: Option<Seq<char>>)
    ensures
        prefixed(a, prefixed(b, rest)) == prefixed(a + b, rest),
        b.len() == 1 ==> a + b == a.push(b[0]),
{
    if let Some(tail) = rest {
        assert(a + (b + tail) == (a + b) + tail);
    }
    if b.len() == 1 {
        assert(a + b == a.push(b[0]));
    }
}

/// Whether `c` separates the components of a path.
pub open spec fn is_separator(c: char) -> bool {
    c == '\\' || c == '/'
}

/// Whether `path` starts with a drive designator: a letter and a colon.
pub open spec fn has_drive(path: Seq<char>) -> bool {
    path.len() >= 2 && ('a' <= path[0] <= 'z' || 'A' <= path[0] <= 'Z') && path[1] == ':'
}

/// `path` without its drive designator, if it has one.
pub open spec fn without_drive(path: Seq<char>) -> Seq<char> {
    if has_drive(path) {
        path.skip(2)
    } else {
        path
    }
}

/// The longest run of characters at the end of `path` that holds no
/// separator.
pub open spec fn final_run(path: Seq<char>) -> Seq<char>
    decreases path.len(),
{
    if path.len() == 0 || is_separator(path.last()) {
        Seq::empty()
    } else {
        final_run(path.drop_last()).push(path.last())
    }
}

/// The last component of `path` that names something: separators at the end
/// and components that are a single dot are passed over; where the component
/// then found is two dots, or none is left, the result is empty.
pub open spec fn final_component(path: Seq<char>) -> Seq<char>
    decreases path.len(),
{
    if path.len() == 0 {
        Seq::empty()
    } else if is_separator(path.last()) {
        final_component(path.drop_last())
    } else if final_run(path) == seq!['.'] {
        final_component(path.drop_last())
    } else if final_run(path) == seq!['.', '.'] {
        Seq::empty()
    } else {
        final_run(path)
    }
}

/// The base name of a path: its final component, the drive designator set
/// aside. Empty where the path names no file.
pub open spec fn base_name(path: Seq<char>) -> Seq<char> {
    final_component(without_drive(path))
}

fn is_separator_char(c: char) -> (b: bool)
    ensures
        b == is_separator(c),
{
    c == '\\' || c == '/'
}

fn drive_length(path: &Vec<char>) -> (n: usize)
    ensures
        n == if has_drive(path@) { 2int } else { 0int },
        path@.skip(n as int) == without_drive(path@),
{
    if path.len() >= 2 && (('a' <= path[0] && path[0] <= 'z') || ('A' <= path[0] && path[0]
        <= 'Z')) && path[1] == ':' {
        2
    } else {
        assert(path@.skip(0) == path@);
        0
    }
}

/// The base name of `path`.
pub fn file_name(path: &Vec<char>) -> (name: Vec<char>)
    ensures
        name@ == base_name(path@),
{
    let start = drive_length(path);
    let ghost body = path@.skip(start as int);
    let mut end: usize = path.len();
    assert(body.take(end - start) == body);
    loop
        invariant
            start <= end <= path.len(),
            body == path@.skip(start as int),
            body == without_drive(path@),
            final_component(body) == final_component(body.take(end - start)),
        decreases end,
    {
        let ghost rest = body.take(end - start);
        if end == start {
            return Vec::new();
        }
        assert(rest.last() == path@[end - 1]);
        assert(rest.drop_last() == body.take(end - 1 - start));
        if is_separator_char(path[end - 1]) {
            end -= 1;
            continue ;
        }
        let mut begin: usize = end - 1;
        assert(body.subrange(begin - start, end - start) == seq![rest.last()]);
        assert(final_run(rest.drop_last()).push(rest.last()) == final_run(rest.drop_last())
            + seq![rest.last()]);
        while begin > start && !is_separator_char(path[begin - 1])
            invariant
                start <= begin < end <= path.len(),
                body == path@.skip(start as int),
                rest == body.take(end - start),
                final_run(rest) == final_run(body.take(begin - start)) + body.subrange(
                    begin - start,
                    end - start,
                ),
            decreases begin,
        {
            let ghost head = body.take(begin - start);
            assert(head.last() == path@[begin - 1]);
            assert(head.drop_last() == body.take(begin - 1 - start));
            assert(final_run(head.drop_last()).push(head.last()) + body.subrange(
                begin - start,
                end - start,
            ) == final_run(head.drop_last()) + body.subrange(begin - 1 - start, end - start));
            begin -= 1;
        }
        let ghost run = body.subrange(begin - start, end - start);
        proof {
            let head = body.take(begin - start);
            if begin > start {
                assert(head.last() == path@[begin - 1]);
            }
            assert(final_run(head) == Seq::<char>::empty());
            assert(Seq::<char>::empty() + run == run);
            assert(final_run(rest) == run);
            assert(run.len() == end - begin);
            assert(forall|k: int| 0 <= k < run.len() ==> run[k] == path@[begin + k]);
        }
        if end - begin == 1 && path[begin] == '.' {
            assert(run == seq!['.']);
            end -= 1;
            continue ;
        }
        if end - begin == 2 && path[begin] == '.' && path[begin + 1] == '.' {
            assert(run == seq!['.', '.']);
            return Vec::new();
        }
        proof {
            if run == seq!['.'] {
                assert(run.len() == 1 && run[0] == '.');
            }
            if run == seq!['.', '.'] {
                assert(run.len() == 2 && run[0] == '.' && run[1] == '.');
            }
        }
        let mut name: Vec<char> = Vec::new();
        let mut i: usize = begin;
        while i < end
            invariant
                begin <= i <= end <= path.len(),
                name@ == path@.subrange(begin as int, i as int),
            decreases end - i,
        {
            name.push(path[i]);
            assert(path@.subrange(begin as int, i + 1) == path@.subrange(
                begin as int,
                i as int,
            ).push(path@[i as int]));
            i += 1;
        }
        assert(name@ == run);
        return name;
    }
}

/// The name column for the path that the system wrote for a process image:
/// the access placeholder where it wrote nothing, the invalid-name
/// placeholder where the units are not well-formed UTF-16, else the base name
/// of the decoded path.
pub open spec fn process_name_text(path: Seq<u16>) -> Seq<char> {
    if path.len() == 0 {
        access_denied_text()
    } else {
        match utf16_text(path) {
            Some(decoded) => base_name(decoded),
            None => invalid_name_text(),
        }
    }
}

/// The name column for the UTF-16 code units that the system wrote when asked
/// for the path of a process image; no units were written where the query
/// failed.
pub fn get_process_name(path: &[u16]) -> (name: String)
    ensures
        name@ == process_name_text(path@),
{
    if path.len() == 0 {
        return String::from_str("[Access Denied or Process Closed]");
    }
    match decode_utf16(path) {
        Some(decoded) => {
            let base = file_name(&decoded);
            string_from_chars(&base)
        },
        None => String::from_str("[Invalid Name]"),
    }
}

/// Whether `name` can stand as the file component of a path: it is not
/// empty, holds no separator, and is neither a single dot nor two dots.
pub open spec fn is_file_component(name: Seq<char>) -> bool {
    &&& name.len() > 0
    &&& forall|i: int| 0 <= i < name.len() ==> !is_separator(#[trigger] name[i])
    &&& name != seq!['.']
    &&& name != seq!['.', '.']
}

/// A run of characters without a separator, placed behind a directory part
/// that is empty or ends in a separator, is the final run of the whole.
pub proof fn lemma_final_run_of_joined(directory: Seq<char>, name: Seq<char>)
    requires
        directory.len() == 0 || is_separator(directory.last()),
        forall|i: int| 0 <= i < name.len() ==> !is_separator(#[trigger] name[i]),
    ensures
        final_run(directory + name) == name,
    decreases name.len(),
{
    let path = directory + name;
    if name.len() == 0 {
        assert(path == directory);
    } else {
        assert(path.last() == name.last());
        assert(path.drop_last() == directory + name.drop_last());
        lemma_final_run_of_joined(directory, name.drop_last());
        assert(name.drop_last().push(name.last()) == name);
    }
}

/// The final component of a directory part followed by a file component is
/// that file component.
pub proof fn lemma_final_component_of_file(directory: Seq<char>, name: Seq<char>)
    requires
        directory.len() == 0 || is_separator(directory.last()),
        is_file_component(name),
    ensures
        final_component(directory + name) == name,
{
    let path = directory + name;
    assert(path.last() == name.last());
    lemma_final_run_of_joined(directory, name);
}

/// The final run of a path holds no separator and is a suffix of the path.
pub proof fn lemma_final_run(path: Seq<char>)
    ensures
        final_run(path).len() <= path.len(),
        final_run(path) == path.skip(path.len() - final_run(path).len()),
        forall|i: int|
            0 <= i < final_run(path).len() ==> !is_separator(#[trigger] final_run(path)[i]),
    decreases path.len(),
{
    if path.len() == 0 || is_separator(path.last()) {
        assert(path.skip(path.len() as int) == Seq::<char>::empty());
    } else {
        lemma_final_run(path.drop_last());
        let run = final_run(path.drop_last());
        assert(path.skip(path.len() - run.len() - 1) == path.drop_last().skip(
            path.len() - 1 - run.len(),
        ).push(path.last()));
    }
}

/// What `final_component` yields is empty or a file component.
pub proof fn lemma_final_component(path: Seq<char>)
    ensures
        final_component(path).len() == 0 || is_file_component(final_component(path)),
        final_component(path).len() <= path.len(),
    decreases path.len(),
{
    if path.len() == 0 {
    } else if is_separator(path.last()) || final_run(path) == seq!['.'] {
        lemma_final_component(path.drop_last());
    } else if final_run(path) == seq!['.', '.'] {
    } else {
        lemma_final_run(path);
        assert(final_run(path).len() > 0);
    }
}

/// The name column is the access placeholder whenever the system wrote no
/// path, and that placeholder is not empty.
pub proof fn lemma_no_path_gives_access_placeholder(path: Seq<u16>)
    requires
        path.len() == 0,
    ensures
        process_name_text(path) == access_denied_text(),
        access_denied_text().len() == 33,
{
    reveal_strlit("[Access Denied or Process Closed]");
}

} // verus!
