//! Shell-style `KEY=value` config files.

use vstd::prelude::*;
use vstd::string::*;

use crate::text;

verus! {

/// What an assignment to `key` starts with.
pub open spec fn prefix_of(key: Seq<char>) -> Seq<char> {
    key.push('=')
}

/// `value` without the pair of quotes around it, if there is one.
pub open spec fn unquoted(value: Seq<char>) -> Seq<char> {
    if value.len() >= 2 && value[0] == value.last() && (value[0] == '"' || value[0] == '\'') {
        value.subrange(1, value.len() - 1)
    } else {
        value
    }
}

/// What `line` assigns to `key`, if it does.
pub open spec fn assigned(line: Seq<char>, key: Seq<char>) -> Option<Seq<char>> {
    match text::after_prefix(text::trimmed(line), prefix_of(key)) {
        Some(value) => Some(unquoted(text::trimmed(value))),
        None => None,
    }
}

/// What the last of `lines` that assigns to `key` assigns to it.
pub open spec fn last_assigned(lines: Seq<Seq<char>>, key: Seq<char>) -> Option<Seq<char>>
    decreases lines.len(),
{
    if lines.len() == 0 {
        None
    } else {
        match assigned(lines.last(), key) {
            Some(value) => Some(value),
            None => last_assigned(lines.drop_last(), key),
        }
    }
}

/// The value of `key` in `text`: the last assignment wins.
pub open spec fn value_of(text: Seq<char>, key: Seq<char>) -> Option<Seq<char>> {
    last_assigned(text::lines_of(text), key)
}

/// `key` followed by an equals sign.
fn prefix(key: &str) -> (r: String)
    ensures
        r@ == prefix_of(key@),
{
    let mut out: String = key.to_owned();
    proof {
        reveal_strlit("=");
    }
    out.append("=");
    assert(out@ =~= prefix_of(key@));
    out
}

/// Reads one key out of shell-style `KEY=value` text.
pub fn parse_value(text: &str, key: &str) -> (r: Option<String>)
    ensures
        r is Some <==> value_of(text@, key@) is Some,
        r matches Some(value) ==> value_of(text@, key@) == Some(value@),
{
    let prefix: String = prefix(key);
    let lines: Vec<String> = text::lines(text);
    let ghost views = text::views(lines@);
    let mut found: Option<String> = None;
    let mut i: usize = 0;
    while i < lines.len()
        invariant
            i <= lines@.len(),
            views == text::views(lines@),
            prefix@ == prefix_of(key@),
            found is Some <==> last_assigned(views.take(i as int), key@) is Some,
            found matches Some(value) ==> last_assigned(views.take(i as int), key@) == Some(value@),
        decreases lines@.len() - i,
    {
        assert(views.take(i + 1).drop_last() =~= views.take(i as int));
        let line: String = text::trim(lines[i].as_str());
        if let Some(value) = text::strip_prefix(line.as_str(), prefix.as_str()) {
            let value: String = text::trim(value.as_str());
            found = Some(strip_quotes(value.as_str()));
        }
        i = i + 1;
    }
    assert(views.take(i as int) =~= views);
    found
}

/// `value` without the pair of quotes around it, if there is one.
pub fn strip_quotes(value: &str) -> (r: String)
    ensures
        r@ == unquoted(value@),
{
    let chars: Vec<char> = text::to_chars(value);
    let n: usize = chars.len();
    if n >= 2 && chars[0] == chars[n - 1] && (chars[0] == '"' || chars[0] == '\'') {
        text::slice(value, 1, n - 1)
    } else {
        value.to_owned()
    }
}

/// `lines` with `entry` in the place of each one that `is_entry` picks, and at the end if it
/// picks none.
pub open spec fn with_entry(
    lines: Seq<Seq<char>>,
    is_entry: spec_fn(Seq<char>) -> bool,
    entry: Seq<char>,
) -> Seq<Seq<char>> {
    let replaced = lines.map_values(
        |line: Seq<char>|
            if is_entry(line) {
                entry
            } else {
                line
            },
    );
    if exists|i: int| 0 <= i < lines.len() && is_entry(#[trigger] lines[i]) {
        replaced
    } else {
        replaced.push(entry)
    }
}

/// An assignment of `value` to `key`.
pub open spec fn assignment_of(key: Seq<char>, value: Seq<char>) -> Seq<char> {
    prefix_of(key) + value
}

/// The text that sets `key` to `value` in `existing`: each line that starts with `key=` is the
/// assignment, which is appended if there was no such line. Every other line stays as it is.
pub open spec fn upserted(existing: Option<Seq<char>>, key: Seq<char>, value: Seq<char>) -> Seq<
    char,
> {
    match existing {
        None => assignment_of(key, value).push('\n'),
        Some(text) => text::unlines(
            with_entry(
                text::lines_of(text),
                |line: Seq<char>| text::has_prefix(line, prefix_of(key)),
                assignment_of(key, value),
            ),
        ),
    }
}

/// The contents of an optional string.
pub open spec fn opt(s: Option<&str>) -> Option<Seq<char>> {
    match s {
        Some(s) => Some(s@),
        None => None,
    }
}

/// Replaces every `KEY=` line, appending if there was none. A line that is indented is left alone;
/// `set_key` replaces it too.
pub fn upsert_key(existing: Option<&str>, key: &str, value: &str) -> (r: String)
    ensures
        r@ == upserted(opt(existing), key@, value@),
{
    let prefix: String = prefix(key);
    let mut assignment: String = prefix.clone();
    assignment.append(value);
    proof {
        reveal_strlit("\n");
    }
    let existing: &str = match existing {
        None => {
            let ghost entry = assignment@;
            assignment.append("\n");
            assert(assignment@ =~= entry.push('\n'));
            return assignment;
        },
        Some(existing) => existing,
    };
    let lines: Vec<String> = text::lines(existing);
    let ghost views = text::views(lines@);
    let ghost is_entry = |line: Seq<char>| text::has_prefix(line, prefix_of(key@));
    let ghost replaced = views.map_values(
        |line: Seq<char>|
            if is_entry(line) {
                assignment@
            } else {
                line
            },
    );
    let mut out: String = String::new();
    let mut found: bool = false;
    let mut i: usize = 0;
    while i < lines.len()
        invariant
            i <= lines@.len(),
            "\n"@ =~= seq!['\n'],
            views == text::views(lines@),
            prefix@ == prefix_of(key@),
            is_entry == (|line: Seq<char>| text::has_prefix(line, prefix_of(key@))),
            replaced == views.map_values(
                |line: Seq<char>|
                    if is_entry(line) {
                        assignment@
                    } else {
                        line
                    },
            ),
            out@ == text::unlines(replaced.take(i as int)),
            found <==> exists|j: int| 0 <= j < i && is_entry(#[trigger] views[j]),
        decreases lines@.len() - i,
    {
        assert(replaced.take(i + 1).drop_last() =~= replaced.take(i as int));
        assert(lines@[i as int]@ == views[i as int]);
        if text::starts_with(lines[i].as_str(), prefix.as_str()) {
            assert(is_entry(views[i as int]));
            out.append(assignment.as_str());
            found = true;
        } else {
            assert(!is_entry(views[i as int]));
            out.append(lines[i].as_str());
        }
        out.append("\n");
        i = i + 1;
    }
    assert(replaced.take(i as int) =~= replaced);
    if !found {
        assert(replaced.push(assignment@).drop_last() =~= replaced);
        out.append(assignment.as_str());
        out.append("\n");
    }
    out
}

/// The text in which `key` is set to `value`, given what it reads now: each line that is read as
/// an assignment of `key`, indented or not, is the assignment, which is appended if there was no
/// such line. Every other line stays as it is.
pub open spec fn with_key_set(existing: Option<Seq<char>>, key: Seq<char>, value: Seq<char>) -> Seq<
    char,
> {
    match existing {
        None => assignment_of(key, value).push('\n'),
        Some(text) => text::unlines(
            with_entry(
                text::lines_of(text),
                |line: Seq<char>| assigned(line, key) is Some,
                assignment_of(key, value),
            ),
        ),
    }
}

/// Replaces every line that is read as an assignment of `key`, appending if there was none.
pub fn set_key(existing: Option<&str>, key: &str, value: &str) -> (r: String)
    ensures
        r@ == with_key_set(opt(existing), key@, value@),
{
    let prefix: String = prefix(key);
    let mut assignment: String = prefix.clone();
    assignment.append(value);
    proof {
        reveal_strlit("\n");
    }
    let existing: &str = match existing {
        None => {
            let ghost entry = assignment@;
            assignment.append("\n");
            assert(assignment@ =~= entry.push('\n'));
            return assignment;
        },
        Some(existing) => existing,
    };
    let lines: Vec<String> = text::lines(existing);
    let ghost views = text::views(lines@);
    let ghost is_entry = |line: Seq<char>| assigned(line, key@) is Some;
    let ghost replaced = views.map_values(
        |line: Seq<char>|
            if is_entry(line) {
                assignment@
            } else {
                line
            },
    );
    let mut out: String = String::new();
    let mut found: bool = false;
    let mut i: usize = 0;
    while i < lines.len()
        invariant
            i <= lines@.len(),
            "\n"@ =~= seq!['\n'],
            views == text::views(lines@),
            prefix@ == prefix_of(key@),
            is_entry == (|line: Seq<char>| assigned(line, key@) is Some),
            replaced == views.map_values(
                |line: Seq<char>|
                    if is_entry(line) {
                        assignment@
                    } else {
                        line
                    },
            ),
            out@ == text::unlines(replaced.take(i as int)),
            found <==> exists|j: int| 0 <= j < i && is_entry(#[trigger] views[j]),
        decreases lines@.len() - i,
    {
        assert(replaced.take(i + 1).drop_last() =~= replaced.take(i as int));
        assert(lines@[i as int]@ == views[i as int]);
        let line: String = text::trim(lines[i].as_str());
        if text::starts_with(line.as_str(), prefix.as_str()) {
            assert(is_entry(views[i as int]));
            out.append(assignment.as_str());
            found = true;
        } else {
            assert(!is_entry(views[i as int]));
            out.append(lines[i].as_str());
        }
        out.append("\n");
        i = i + 1;
    }
    assert(replaced.take(i as int) =~= replaced);
    if !found {
        assert(replaced.push(assignment@).drop_last() =~= replaced);
        out.append(assignment.as_str());
        out.append("\n");
    }
    out
}

/// Whether a file that holds `current` has to be written for it to hold `contents`: only if the
/// content would actually change.
pub fn write_if_changed(current: Option<&str>, contents: &str) -> (r: bool)
    ensures
        r == (opt(current) != Some(contents@)),
{
    match current {
        Some(current) => !text::same(current, contents),
        None => true,
    }
}

/// What a failed write to `path` is reported as: a refused permission names its usual cause,
/// anything else speaks for itself in `err`.
pub open spec fn write_failure(denied: bool, path: Seq<char>, err: Seq<char>) -> Seq<char> {
    if denied {
        "permission denied writing "@ + path + " - this command must be run as root"@
    } else {
        err
    }
}

/// What a failed write to `path` is reported as.
pub fn annotate_permission(denied: bool, path: &str, err: &str) -> (r: String)
    ensures
        r@ == write_failure(denied, path@, err@),
{
    if denied {
        let mut out: String = "permission denied writing ".to_owned();
        out.append(path);
        out.append(" - this command must be run as root");
        out
    } else {
        err.to_owned()
    }
}

/// The text that `key` is set in: none at all is as good as an empty one.
pub open spec fn text_of(existing: Option<Seq<char>>) -> Seq<char> {
    match existing {
        Some(text) => text,
        None => Seq::empty(),
    }
}

/// The lines that `upserted` puts together.
pub open spec fn upserted_lines(existing: Option<Seq<char>>, key: Seq<char>, value: Seq<char>) -> Seq<
    Seq<char>,
> {
    with_entry(
        text::lines_of(text_of(existing)),
        |line: Seq<char>| text::has_prefix(line, prefix_of(key)),
        assignment_of(key, value),
    )
}

/// The lines that `with_key_set` puts together.
pub open spec fn key_set_lines(existing: Option<Seq<char>>, key: Seq<char>, value: Seq<char>) -> Seq<
    Seq<char>,
> {
    with_entry(
        text::lines_of(text_of(existing)),
        |line: Seq<char>| assigned(line, key) is Some,
        assignment_of(key, value),
    )
}

/// A text with an entry set, read line by line, is the lines it was put together from, less a
/// carriage return at the end of any of them.
proof fn lemma_entry_lines(
    text: Seq<char>,
    is_entry: spec_fn(Seq<char>) -> bool,
    key: Seq<char>,
    value: Seq<char>,
)
    requires
        !key.contains('\n'),
        !value.contains('\n'),
    ensures
        ({
            let result = with_entry(text::lines_of(text), is_entry, assignment_of(key, value));
            text::lines_of(text::unlines(result)) == result.map_values(
                |line: Seq<char>| text::without_cr(line),
            )
        }),
{
    let entry = assignment_of(key, value);
    let lines = text::lines_of(text);
    let result = with_entry(lines, is_entry, entry);
    assert(!entry.contains('\n')) by {
        assert forall|j: int| 0 <= j < entry.len() implies entry[j] != '\n' by {
            if j < key.len() {
                assert(key.contains(key[j]));
            } else if j > key.len() {
                assert(value.contains(value[j - key.len() - 1]));
            }
        }
    }
    text::lemma_lines_hold_no_line_feed(text);
    assert forall|i: int| 0 <= i < result.len() implies !(#[trigger] result[i]).contains('\n') by {
        if i < lines.len() {
            assert(result[i] == entry || result[i] == lines[i]);
        }
    }
    text::lemma_lines_of_unlines(result);
}

/// An entry by itself is what an empty file becomes.
proof fn lemma_entry_alone(is_entry: spec_fn(Seq<char>) -> bool, entry: Seq<char>)
    ensures
        text::unlines(with_entry(text::lines_of(Seq::empty()), is_entry, entry)) == entry.push('\n'),
{
    reveal_with_fuel(text::unlines, 2);
    assert(with_entry(text::lines_of(Seq::empty()), is_entry, entry) =~= seq![entry]);
    assert(seq![entry].drop_last() =~= Seq::<Seq<char>>::empty());
    assert(text::unlines(seq![entry]) =~= entry.push('\n'));
}

/// A missing file is written as an empty one would be, and no line of the result breaks in two.
proof fn lemma_upserted_lines(existing: Option<Seq<char>>, key: Seq<char>, value: Seq<char>)
    requires
        !key.contains('\n'),
        !value.contains('\n'),
    ensures
        upserted(existing, key, value) == text::unlines(upserted_lines(existing, key, value)),
        text::lines_of(upserted(existing, key, value)) == upserted_lines(
            existing,
            key,
            value,
        ).map_values(|line: Seq<char>| text::without_cr(line)),
{
    let is_entry = |line: Seq<char>| text::has_prefix(line, prefix_of(key));
    lemma_entry_alone(is_entry, assignment_of(key, value));
    lemma_entry_lines(text_of(existing), is_entry, key, value);
}

/// A missing file is written as an empty one would be, and no line of the result breaks in two.
proof fn lemma_key_set_lines(existing: Option<Seq<char>>, key: Seq<char>, value: Seq<char>)
    requires
        !key.contains('\n'),
        !value.contains('\n'),
    ensures
        with_key_set(existing, key, value) == text::unlines(key_set_lines(existing, key, value)),
        text::lines_of(with_key_set(existing, key, value)) == key_set_lines(
            existing,
            key,
            value,
        ).map_values(|line: Seq<char>| text::without_cr(line)),
{
    let is_entry = |line: Seq<char>| assigned(line, key) is Some;
    lemma_entry_alone(is_entry, assignment_of(key, value));
    lemma_entry_lines(text_of(existing), is_entry, key, value);
}

/// Lines that assign alike, one by one, assign alike as a whole.
proof fn lemma_last_assigned_alike(a: Seq<Seq<char>>, b: Seq<Seq<char>>, key: Seq<char>)
    requires
        a.len() == b.len(),
        forall|i: int| 0 <= i < a.len() ==> assigned(#[trigger] a[i], key) == assigned(b[i], key),
    ensures
        last_assigned(a, key) == last_assigned(b, key),
    decreases a.len(),
{
    if a.len() > 0 {
        assert(assigned(a[a.len() - 1], key) == assigned(b[a.len() - 1], key));
        assert forall|i: int| 0 <= i < a.drop_last().len() implies assigned(
            #[trigger] a.drop_last()[i],
            key,
        ) == assigned(b.drop_last()[i], key) by {
            assert(assigned(a[i], key) == assigned(b[i], key));
        }
        lemma_last_assigned_alike(a.drop_last(), b.drop_last(), key);
    }
}

/// The line whose assignment counts, if any line assigns.
proof fn lemma_last_assigned_index(lines: Seq<Seq<char>>, key: Seq<char>) -> (at: int)
    ensures
        -1 <= at < lines.len(),
        at >= 0 ==> assigned(lines[at], key) is Some && last_assigned(lines, key) == assigned(
            lines[at],
            key,
        ),
        at < 0 ==> last_assigned(lines, key) is None,
        forall|i: int| at < i < lines.len() ==> assigned(#[trigger] lines[i], key) is None,
    decreases lines.len(),
{
    if lines.len() == 0 {
        -1
    } else if assigned(lines.last(), key) is Some {
        lines.len() - 1
    } else {
        let at = lemma_last_assigned_index(lines.drop_last(), key);
        assert forall|i: int| at < i < lines.len() implies assigned(
            #[trigger] lines[i],
            key,
        ) is None by {
            if i < lines.len() - 1 {
                assert(lines[i] == lines.drop_last()[i]);
            }
        }
        at
    }
}

/// What a carriage return at the end of a line does to its assignment: nothing.
proof fn lemma_assigned_without_cr(lines: Seq<Seq<char>>, key: Seq<char>)
    ensures
        last_assigned(lines.map_values(|line: Seq<char>| text::without_cr(line)), key)
            == last_assigned(lines, key),
{
    let stripped = lines.map_values(|line: Seq<char>| text::without_cr(line));
    assert forall|i: int| 0 <= i < stripped.len() implies assigned(#[trigger] stripped[i], key)
        == assigned(lines[i], key) by {
        text::lemma_trimmed_without_cr(lines[i]);
    }
    lemma_last_assigned_alike(stripped, lines, key);
}

/// A line that starts with `key=` assigns what follows to `key`.
proof fn lemma_assigned_prefix(line: Seq<char>, key: Seq<char>)
    requires
        text::has_prefix(line, prefix_of(key)),
        key.len() > 0 ==> !text::is_whitespace(key[0]),
    ensures
        text::trimmed(line) == prefix_of(key) + text::trim_end_of(
            line.skip(prefix_of(key).len() as int),
        ),
        assigned(line, key) == Some(
            unquoted(text::trimmed(line.skip(prefix_of(key).len() as int))),
        ),
{
    let p = prefix_of(key);
    let rest = line.skip(p.len() as int);
    assert(line =~= p + rest);
    assert(line[0] == p[0]);
    assert(!text::is_whitespace(line[0]));
    assert(text::trim_start_of(line) == line);
    text::lemma_trim_end_append(p, rest);
    let t = text::trimmed(line);
    assert(t == p + text::trim_end_of(rest));
    assert(t.subrange(0, p.len() as int) =~= p);
    assert(t.skip(p.len() as int) =~= text::trim_end_of(rest));
    text::lemma_trimmed_trim_end(rest);
}

/// Whether some line shadows what a `key=` line of `lines` sets: the last assignment to `key` is
/// on a line that does not start with `key=` itself but with whitespace, and assigns something
/// else than `value`.
pub open spec fn shadowed(lines: Seq<Seq<char>>, key: Seq<char>, value: Seq<char>) -> bool {
    &&& exists|j: int| 0 <= j < lines.len() && text::has_prefix(#[trigger] lines[j], prefix_of(key))
    &&& exists|i: int|
        #![trigger lines[i]]
        0 <= i < lines.len() && !text::has_prefix(lines[i], prefix_of(key)) && assigned(
            lines[i],
            key,
        ) is Some && assigned(lines[i], key) != Some(unquoted(text::trimmed(value))) && forall|
            k: int,
        |
            i < k < lines.len() ==> assigned(#[trigger] lines[k], key) is None
}

/// Reading a key gives back what setting it wrote, less the whitespace and the quotes around it,
/// unless an indented assignment further down shadows it.
pub proof fn upsert_reads_back(existing: Option<Seq<char>>, key: Seq<char>, value: Seq<char>)
    requires
        !key.contains('\n'),
        key.len() > 0 ==> !text::is_whitespace(key[0]),
        !value.contains('\n'),
        !shadowed(text::lines_of(text_of(existing)), key, value),
    ensures
        value_of(upserted(existing, key, value), key) == Some(unquoted(text::trimmed(value))),
{
    let entry = assignment_of(key, value);
    let lines = text::lines_of(text_of(existing));
    let result = upserted_lines(existing, key, value);
    let is_entry = |line: Seq<char>| text::has_prefix(line, prefix_of(key));
    let wanted = unquoted(text::trimmed(value));
    lemma_upserted_lines(existing, key, value);
    lemma_assigned_without_cr(result, key);
    assert(entry.subrange(0, prefix_of(key).len() as int) =~= prefix_of(key));
    assert(entry.skip(prefix_of(key).len() as int) =~= value);
    lemma_assigned_prefix(entry, key);
    assert(assigned(entry, key) == Some(wanted));
    if exists|i: int| 0 <= i < lines.len() && is_entry(#[trigger] lines[i]) {
        let j = choose|j: int| 0 <= j < lines.len() && is_entry(#[trigger] lines[j]);
        assert(result[j] == entry);
        let at = lemma_last_assigned_index(result, key);
        assert(at >= j);
        if !is_entry(lines[at]) {
            assert(result[at] == lines[at]);
            assert forall|k: int| at < k < lines.len() implies assigned(
                #[trigger] lines[k],
                key,
            ) is None by {
                assert(assigned(result[k], key) is None);
                assert(!is_entry(lines[k]));
                assert(result[k] == lines[k]);
            }
            assert(text::has_prefix(lines[j], prefix_of(key)));
            assert(!text::has_prefix(lines[at], prefix_of(key)));
            assert(assigned(lines[at], key) == Some(wanted));
        }
    } else {
        assert(result.last() == entry);
    }
}

/// A line that assigns to `key` assigns to no other key.
proof fn lemma_assigns_one_key(line: Seq<char>, key: Seq<char>, other: Seq<char>)
    requires
        assigned(line, key) is Some,
        !key.contains('='),
        !other.contains('='),
        key != other,
    ensures
        assigned(line, other) is None,
{
    let t = text::trimmed(line);
    let p = prefix_of(key);
    let q = prefix_of(other);
    assert(p == t.subrange(0, p.len() as int));
    if text::has_prefix(t, q) {
        assert(t[key.len() as int] == p[key.len() as int]);
        assert(q == t.subrange(0, q.len() as int));
        assert(t[other.len() as int] == q[other.len() as int]);
        if key.len() < other.len() {
            assert(q[key.len() as int] == t[key.len() as int]);
            assert(other[key.len() as int] == '=');
            assert(other.contains('='));
        } else if other.len() < key.len() {
            assert(p[other.len() as int] == t[other.len() as int]);
            assert(key[other.len() as int] == '=');
            assert(key.contains('='));
        } else {
            assert forall|i: int| 0 <= i < key.len() implies key[i] == other[i] by {
                assert(p[i] == t[i] && q[i] == t[i]);
            }
            assert(key =~= other);
        }
    }
}

/// Setting one key leaves the value of every other as it was.
pub proof fn upsert_keeps_other_keys(
    existing: Option<Seq<char>>,
    key: Seq<char>,
    value: Seq<char>,
    other: Seq<char>,
)
    requires
        !key.contains('\n'),
        !key.contains('='),
        key.len() > 0 ==> !text::is_whitespace(key[0]),
        !value.contains('\n'),
        !other.contains('='),
        key != other,
    ensures
        value_of(upserted(existing, key, value), other) == value_of(text_of(existing), other),
{
    let entry = assignment_of(key, value);
    let lines = text::lines_of(text_of(existing));
    let result = upserted_lines(existing, key, value);
    lemma_upserted_lines(existing, key, value);
    lemma_assigned_without_cr(result, other);
    assert(entry.subrange(0, prefix_of(key).len() as int) =~= prefix_of(key));
    lemma_assigned_prefix(entry, key);
    lemma_assigns_one_key(entry, key, other);
    let kept = result.take(lines.len() as int);
    assert forall|i: int| 0 <= i < kept.len() implies assigned(#[trigger] kept[i], other)
        == assigned(lines[i], other) by {
        if text::has_prefix(lines[i], prefix_of(key)) {
            lemma_assigned_prefix(lines[i], key);
            lemma_assigns_one_key(lines[i], key, other);
        }
    }
    lemma_last_assigned_alike(kept, lines, other);
    if result.len() > lines.len() {
        assert(result.drop_last() =~= kept);
    } else {
        assert(kept =~= result);
    }
}

/// Setting a key to the value it was just set to changes nothing, unless the file held a line
/// that ends in two carriage returns: the first pass keeps one of them, the second none.
pub proof fn upsert_is_idempotent(existing: Option<Seq<char>>, key: Seq<char>, value: Seq<char>)
    requires
        !key.contains('\n'),
        !value.contains('\n'),
        forall|i: int|
            0 <= i < text::lines_of(text_of(existing)).len() && !text::has_prefix(
                #[trigger] text::lines_of(text_of(existing))[i],
                prefix_of(key),
            ) ==> text::without_cr(text::lines_of(text_of(existing))[i]) == text::lines_of(
                text_of(existing),
            )[i],
    ensures
        upserted(Some(upserted(existing, key, value)), key, value) == upserted(
            existing,
            key,
            value,
        ),
{
    let entry = assignment_of(key, value);
    let p = prefix_of(key);
    let lines = text::lines_of(text_of(existing));
    let once = upserted_lines(existing, key, value);
    let again = text::lines_of(upserted(existing, key, value));
    lemma_upserted_lines(existing, key, value);
    assert(text::has_prefix(entry, p)) by {
        assert(entry.subrange(0, p.len() as int) =~= p);
    }
    assert(text::has_prefix(text::without_cr(entry), p)) by {
        assert(text::without_cr(entry).len() >= p.len()) by {
            if value.len() == 0 {
                assert(entry =~= p);
                assert(entry.last() == '=');
            }
        }
        assert(text::without_cr(entry).subrange(0, p.len() as int) =~= p);
    }
    let is_entry = |line: Seq<char>| text::has_prefix(line, p);
    assert forall|i: int| 0 <= i < once.len() implies (if is_entry(#[trigger] again[i]) {
        entry
    } else {
        again[i]
    }) == once[i] by {
        assert(again[i] == text::without_cr(once[i]));
        if i < lines.len() && !is_entry(lines[i]) {
            assert(once[i] == lines[i]);
        } else {
            assert(once[i] == entry);
        }
    }
    assert(exists|i: int| 0 <= i < again.len() && is_entry(#[trigger] again[i])) by {
        if exists|i: int| 0 <= i < lines.len() && is_entry(#[trigger] lines[i]) {
            let i = choose|i: int| 0 <= i < lines.len() && is_entry(#[trigger] lines[i]);
            assert(once[i] == entry);
            assert(is_entry(again[i]));
        } else {
            let i = once.len() - 1;
            assert(once[i] == entry);
            assert(is_entry(again[i]));
        }
    }
    assert(with_entry(again, is_entry, entry) =~= once);
}

/// What an assignment that is written assigns.
proof fn lemma_assignment_assigns(key: Seq<char>, value: Seq<char>)
    requires
        key.len() > 0 ==> !text::is_whitespace(key[0]),
    ensures
        assigned(assignment_of(key, value), key) == Some(unquoted(text::trimmed(value))),
{
    let entry = assignment_of(key, value);
    assert(entry.subrange(0, prefix_of(key).len() as int) =~= prefix_of(key));
    assert(entry.skip(prefix_of(key).len() as int) =~= value);
    lemma_assigned_prefix(entry, key);
}

/// A key that was set reads as what it was set to, less the whitespace and the quotes around it,
/// whatever the text read before.
pub proof fn set_key_reads_back(existing: Option<Seq<char>>, key: Seq<char>, value: Seq<char>)
    requires
        !key.contains('\n'),
        key.len() > 0 ==> !text::is_whitespace(key[0]),
        !value.contains('\n'),
    ensures
        value_of(with_key_set(existing, key, value), key) == Some(unquoted(text::trimmed(value))),
{
    let entry = assignment_of(key, value);
    let lines = text::lines_of(text_of(existing));
    let result = key_set_lines(existing, key, value);
    let is_entry = |line: Seq<char>| assigned(line, key) is Some;
    lemma_key_set_lines(existing, key, value);
    lemma_assigned_without_cr(result, key);
    lemma_assignment_assigns(key, value);
    let at = lemma_last_assigned_index(result, key);
    if exists|i: int| 0 <= i < lines.len() && is_entry(#[trigger] lines[i]) {
        let j = choose|j: int| 0 <= j < lines.len() && is_entry(#[trigger] lines[j]);
        assert(result[j] == entry);
        assert(at >= j);
        assert(result[at] == entry || (result[at] == lines[at] && !is_entry(lines[at])));
    } else {
        assert(result.last() == entry);
    }
}

/// Setting one key leaves the value of every other as it was.
pub proof fn set_key_keeps_other_keys(
    existing: Option<Seq<char>>,
    key: Seq<char>,
    value: Seq<char>,
    other: Seq<char>,
)
    requires
        !key.contains('\n'),
        !key.contains('='),
        key.len() > 0 ==> !text::is_whitespace(key[0]),
        !value.contains('\n'),
        !other.contains('='),
        key != other,
    ensures
        value_of(with_key_set(existing, key, value), other) == value_of(text_of(existing), other),
{
    let entry = assignment_of(key, value);
    let lines = text::lines_of(text_of(existing));
    let result = key_set_lines(existing, key, value);
    lemma_key_set_lines(existing, key, value);
    lemma_assigned_without_cr(result, other);
    lemma_assignment_assigns(key, value);
    lemma_assigns_one_key(entry, key, other);
    let kept = result.take(lines.len() as int);
    assert forall|i: int| 0 <= i < kept.len() implies assigned(#[trigger] kept[i], other)
        == assigned(lines[i], other) by {
        if assigned(lines[i], key) is Some {
            lemma_assigns_one_key(lines[i], key, other);
        }
    }
    lemma_last_assigned_alike(kept, lines, other);
    if result.len() > lines.len() {
        assert(result.drop_last() =~= kept);
    } else {
        assert(kept =~= result);
    }
}

/// Setting a key to the value it was just set to changes nothing, unless the file held a line
/// that ends in two carriage returns: the first pass keeps one of them, the second none.
pub proof fn set_key_is_idempotent(existing: Option<Seq<char>>, key: Seq<char>, value: Seq<char>)
    requires
        !key.contains('\n'),
        key.len() > 0 ==> !text::is_whitespace(key[0]),
        !value.contains('\n'),
        forall|i: int|
            0 <= i < text::lines_of(text_of(existing)).len() && assigned(
                #[trigger] text::lines_of(text_of(existing))[i],
                key,
            ) is None ==> text::without_cr(text::lines_of(text_of(existing))[i]) == text::lines_of(
                text_of(existing),
            )[i],
    ensures
        with_key_set(Some(with_key_set(existing, key, value)), key, value) == with_key_set(
            existing,
            key,
            value,
        ),
{
    let entry = assignment_of(key, value);
    let lines = text::lines_of(text_of(existing));
    let once = key_set_lines(existing, key, value);
    let again = text::lines_of(with_key_set(existing, key, value));
    let is_entry = |line: Seq<char>| assigned(line, key) is Some;
    lemma_key_set_lines(existing, key, value);
    lemma_assignment_assigns(key, value);
    text::lemma_trimmed_without_cr(entry);
    assert(is_entry(text::without_cr(entry)));
    assert forall|i: int| 0 <= i < once.len() implies (if is_entry(#[trigger] again[i]) {
        entry
    } else {
        again[i]
    }) == once[i] by {
        assert(again[i] == text::without_cr(once[i]));
        if i < lines.len() && !is_entry(lines[i]) {
            assert(once[i] == lines[i]);
        } else {
            assert(once[i] == entry);
        }
    }
    assert(exists|i: int| 0 <= i < again.len() && is_entry(#[trigger] again[i])) by {
        if exists|i: int| 0 <= i < lines.len() && is_entry(#[trigger] lines[i]) {
            let i = choose|i: int| 0 <= i < lines.len() && is_entry(#[trigger] lines[i]);
            assert(once[i] == entry);
            assert(is_entry(again[i]));
        } else {
            let i = once.len() - 1;
            assert(once[i] == entry);
            assert(is_entry(again[i]));
        }
    }
    assert(with_entry(again, is_entry, entry) =~= once);
}

/// Setting a key puts its assignment on every line that assigned to it, and on a new one if none
/// did; every other line stays in its place.
pub proof fn set_key_touches_only_assignments(text: Seq<char>, key: Seq<char>, value: Seq<char>)
    requires
        !key.contains('\n'),
        !value.contains('\n'),
        text::without_cr(key + seq!['='] + value) == key + seq!['='] + value,
    ensures
        ({
            let before = text::lines_of(text);
            let after = text::lines_of(with_key_set(Some(text), key, value));
            let some = exists|i: int| 0 <= i < before.len() && assigned(#[trigger] before[i], key) is Some;
            &&& after.len() == before.len() + (if some {
                0nat
            } else {
                1nat
            })
            &&& forall|i: int|
                0 <= i < before.len() ==> #[trigger] after[i] == if assigned(before[i], key) is Some {
                    key + seq!['='] + value
                } else {
                    text::without_cr(before[i])
                }
            &&& !some ==> after.last() == key + seq!['='] + value
        }),
{
    lemma_key_set_lines(Some(text), key, value);
    assert(assignment_of(key, value) =~= key + seq!['='] + value);
}

/// A pair of quotes around a value is taken off, and nothing else is.
pub proof fn a_pair_of_quotes_is_taken_off(value: Seq<char>)
    ensures
        unquoted(seq!['"'] + value + seq!['"']) == value,
        unquoted(seq!['\''] + value + seq!['\'']) == value,
        value.len() > 0 && value[0] != '"' && value[0] != '\'' ==> unquoted(value) == value,
        value.len() > 0 && value[0] != value[value.len() - 1] ==> unquoted(value) == value,
        value.len() <= 1 ==> unquoted(value) == value,
{
    let double = seq!['"'] + value + seq!['"'];
    let single = seq!['\''] + value + seq!['\''];
    assert(double.subrange(1, double.len() - 1) =~= value);
    assert(single.subrange(1, single.len() - 1) =~= value);
    assert(double.last() == '"');
    assert(single.last() == '\'');
}

/// The last assignment of a key counts; a line that does not assign to it changes nothing.
pub proof fn the_last_assignment_counts(lines: Seq<Seq<char>>, line: Seq<char>, key: Seq<char>)
    ensures
        last_assigned(lines.push(line), key) == match assigned(line, key) {
            Some(value) => Some(value),
            None => last_assigned(lines, key),
        },
        last_assigned(Seq::empty(), key) is None,
{
    assert(lines.push(line).drop_last() =~= lines);
}

/// A line assigns to a key if it starts with the key and an equals sign, blanks before it aside.
/// What is assigned is the rest, without the blanks and the quotes around it.
pub proof fn a_line_assigns_behind_the_equals_sign(
    key: Seq<char>,
    value: Seq<char>,
    line: Seq<char>,
)
    requires
        key.len() > 0,
        !text::is_whitespace(key[0]),
    ensures
        assigned(key + seq!['='] + value, key) == Some(unquoted(text::trimmed(value))),
        assigned(line, key) is Some <==> text::has_prefix(text::trimmed(line), key + seq!['=']),
{
    assert(assignment_of(key, value) =~= key + seq!['='] + value);
    assert(prefix_of(key) =~= key + seq!['=']);
    lemma_assignment_assigns(key, value);
}

/// A write that was denied is told what to do about it, and for which file; any other failure
/// speaks for itself.
pub proof fn a_denied_write_asks_for_root(path: Seq<char>, err: Seq<char>)
    ensures
        write_failure(true, path, err) == "permission denied writing "@ + path
            + " - this command must be run as root"@,
        write_failure(false, path, err) == err,
{
}

} // verus!
