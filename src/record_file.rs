//! The text of a tool-versions record file: one `<tool> <version>` line
//! per entry, each ended by CRLF when written. A file is read whole: a single
//! malformed line fails the read. The first entry of a tool gives its
//! version; saving a version updates that entry in place, or adds one at the
//! end, and keeps every other line.

use vstd::prelude::*;

use crate::error::AsdfwError;
use crate::text::{chars_of, sub_string};

verus! {

pub open spec fn space_free(s: Seq<char>) -> bool {
    forall|j: int| 0 <= j < s.len() ==> s[j] != ' '
}

pub open spec fn newline_free(s: Seq<char>) -> bool {
    forall|j: int| 0 <= j < s.len() ==> s[j] != '\n'
}

/// `line` reads `<tool> <version>`, and `i` is the index of its only space.
pub open spec fn splits_at(line: Seq<char>, i: int) -> bool {
    &&& 0 < i < line.len() - 1
    &&& line[i] == ' '
    &&& space_free(line.take(i))
    &&& space_free(line.skip(i + 1))
}

/// A line holds exactly one space, with characters on both sides of it.
pub open spec fn is_entry_line(line: Seq<char>) -> bool {
    exists|i: int| splits_at(line, i)
}

/// The tool and the version that an entry line names.
pub open spec fn entry_of(line: Seq<char>) -> (Seq<char>, Seq<char>) {
    let i = choose|i: int| splits_at(line, i);
    (line.take(i), line.skip(i + 1))
}

/// The line that records `version` for `tool`.
pub open spec fn entry_line(tool: Seq<char>, version: Seq<char>) -> Seq<char> {
    tool + seq![' '] + version
}

/// A pair that can be written as a line and read back as the same pair.
pub open spec fn is_valid_entry(tool: Seq<char>, version: Seq<char>) -> bool {
    &&& tool.len() > 0
    &&& version.len() > 0
    &&& space_free(tool)
    &&& space_free(version)
    &&& newline_free(tool)
    &&& newline_free(version)
}

/// The text cut at each `'\n'`: one piece more than it has newlines.
pub open spec fn pieces(s: Seq<char>) -> Seq<Seq<char>>
    decreases s.len(),
{
    if s.len() == 0 {
        seq![Seq::empty()]
    } else {
        let p = pieces(s.drop_last());
        if s.last() == '\n' {
            p.push(Seq::empty())
        } else {
            p.update(p.len() - 1, p.last().push(s.last()))
        }
    }
}

pub open spec fn strip_cr(l: Seq<char>) -> Seq<char> {
    if l.len() > 0 && l.last() == '\r' {
        l.drop_last()
    } else {
        l
    }
}

/// The lines of a text as `BufRead::lines` reads them: cut at each `'\n'`,
/// without a `'\r'` that stands just before it, and with no empty line after a
/// final `'\n'`.
pub open spec fn text_lines(s: Seq<char>) -> Seq<Seq<char>> {
    let p = pieces(s);
    let ended = p.drop_last().map_values(|l: Seq<char>| strip_cr(l));
    if p.last().len() > 0 {
        ended.push(p.last())
    } else {
        ended
    }
}

/// The entries of a sequence of lines, or the first line that is not one.
pub open spec fn parse_lines(lines: Seq<Seq<char>>) -> Result<
    Seq<(Seq<char>, Seq<char>)>,
    Seq<char>,
>
    decreases lines.len(),
{
    if lines.len() == 0 {
        Ok(seq![])
    } else {
        match parse_lines(lines.drop_last()) {
            Err(l) => Err(l),
            Ok(es) => if is_entry_line(lines.last()) {
                Ok(es.push(entry_of(lines.last())))
            } else {
                Err(lines.last())
            },
        }
    }
}

/// The entries of a record file, or its first malformed line.
pub open spec fn record_entries(s: Seq<char>) -> Result<Seq<(Seq<char>, Seq<char>)>, Seq<char>> {
    parse_lines(text_lines(s))
}

/// The index of the first entry for `tool`.
pub open spec fn tool_index(es: Seq<(Seq<char>, Seq<char>)>, tool: Seq<char>) -> Option<int>
    decreases es.len(),
{
    if es.len() == 0 {
        None
    } else {
        match tool_index(es.drop_last(), tool) {
            Some(i) => Some(i),
            None => if es.last().0 == tool {
                Some(es.len() - 1)
            } else {
                None
            },
        }
    }
}

/// The version that the first entry for `tool` gives.
pub open spec fn version_in(es: Seq<(Seq<char>, Seq<char>)>, tool: Seq<char>) -> Option<Seq<char>> {
    match tool_index(es, tool) {
        Some(i) => Some(es[i].1),
        None => None,
    }
}

/// Looking `tool` up in a record file: a malformed line fails the whole file.
pub open spec fn search_record(s: Seq<char>, tool: Seq<char>) -> Result<Option<Seq<char>>, Seq<char>> {
    match record_entries(s) {
        Ok(es) => Ok(version_in(es, tool)),
        Err(l) => Err(l),
    }
}

/// The text of a record file that holds `es`, one CRLF-terminated line each.
pub open spec fn render(es: Seq<(Seq<char>, Seq<char>)>) -> Seq<char>
    decreases es.len(),
{
    if es.len() == 0 {
        Seq::empty()
    } else {
        render(es.drop_last()) + entry_line(es.last().0, es.last().1) + seq!['\r', '\n']
    }
}

/// `es` with `version` recorded for `tool`: its first entry for the tool is
/// updated, or a new entry is added at the end.
pub open spec fn set_version(es: Seq<(Seq<char>, Seq<char>)>, tool: Seq<char>, version: Seq<char>) -> Seq<
    (Seq<char>, Seq<char>),
> {
    match tool_index(es, tool) {
        Some(i) => es.update(i, (tool, version)),
        None => es.push((tool, version)),
    }
}

/// The new text of a record file (`None`: there is none yet) after saving
/// `version` for `tool`, or the malformed line that prevents it.
pub open spec fn saved_record(existing: Option<Seq<char>>, tool: Seq<char>, version: Seq<char>) -> Result<
    Seq<char>,
    Seq<char>,
> {
    let entries = match existing {
        Some(s) => record_entries(s),
        None => Ok(seq![]),
    };
    match entries {
        Err(l) => Err(l),
        Ok(es) => if is_valid_entry(tool, version) {
            Ok(render(set_version(es, tool, version)))
        } else {
            Err(entry_line(tool, version))
        },
    }
}

pub open spec fn str_view(o: Option<&str>) -> Option<Seq<char>> {
    match o {
        Some(s) => Some(s@),
        None => None,
    }
}

pub open spec fn strings_view(v: Seq<String>) -> Seq<Seq<char>> {
    v.map_values(|s: String| s@)
}

pub open spec fn pairs_view(v: Seq<(String, String)>) -> Seq<(Seq<char>, Seq<char>)> {
    v.map_values(|p: (String, String)| (p.0@, p.1@))
}

pub open spec fn invalid_line_error(e: AsdfwError, line: Seq<char>) -> bool {
    e matches AsdfwError::InvalidVersionsLine { line: l } && l@ == line
}

/// `r` is the executable form of the lookup result `s`.
pub open spec fn lookup_result(r: Result<Option<String>, AsdfwError>, s: Result<Option<Seq<char>>, Seq<char>>) -> bool {
    match s {
        Ok(Some(v)) => r matches Ok(Some(w)) && w@ == v,
        Ok(None) => r matches Ok(None),
        Err(l) => r matches Err(e) && invalid_line_error(e, l),
    }
}

proof fn lemma_split_unique(line: Seq<char>, i: int, m: int)
    requires
        splits_at(line, i),
        splits_at(line, m),
    ensures
        i == m,
{
    if m > i {
        assert(line.take(m)[i] == ' ');
    } else if m < i {
        assert(line.take(i)[m] == ' ');
    }
}

proof fn lemma_entry_of(line: Seq<char>, i: int)
    requires
        splits_at(line, i),
    ensures
        is_entry_line(line),
        entry_of(line) == (line.take(i), line.skip(i + 1)),
{
    let m = choose|m: int| splits_at(line, m);
    lemma_split_unique(line, i, m);
}

fn invalid_line(line: &str) -> (e: AsdfwError)
    ensures
        invalid_line_error(e, line@),
{
    AsdfwError::InvalidVersionsLine { line: String::from_str(line) }
}

/// Reads one line of a record: `<tool> <version>`, split at its only space,
/// with neither side empty.
pub fn parse_line(line: &str) -> (r: Result<(String, String), AsdfwError>)
    ensures
        match r {
            Ok((tool, version)) => is_entry_line(line@) && entry_of(line@) == (tool@, version@),
            Err(e) => !is_entry_line(line@) && invalid_line_error(e, line@),
        },
{
    let chars = chars_of(line);
    let n = chars.len();
    let mut i: usize = 0;
    while i < n && chars[i] != ' '
        invariant
            i <= n,
            n == line@.len(),
            chars@ == line@,
            forall|j: int| 0 <= j < i ==> line@[j] != ' ',
        decreases n - i,
    {
        i = i + 1;
    }
    if i == 0 || n - i <= 1 {
        proof {
            if is_entry_line(line@) {
                let m = choose|m: int| splits_at(line@, m);
                if i == 0 {
                    assert(line@.take(m)[0] == ' ');
                }
            }
        }
        return Err(invalid_line(line));
    }
    let mut k: usize = i + 1;
    while k < n && chars[k] != ' '
        invariant
            i < k <= n,
            n == line@.len(),
            chars@ == line@,
            forall|j: int| i < j < k ==> line@[j] != ' ',
        decreases n - k,
    {
        k = k + 1;
    }
    if k < n {
        proof {
            if is_entry_line(line@) {
                let m = choose|m: int| splits_at(line@, m);
                if m > i {
                    assert(line@.take(m)[i as int] == ' ');
                }
                assert(line@.skip(m + 1)[k - m - 1] == ' ');
            }
        }
        return Err(invalid_line(line));
    }
    proof {
        assert(splits_at(line@, i as int));
        lemma_entry_of(line@, i as int);
    }
    Ok((sub_string(line, 0, i), sub_string(line, i + 1, n)))
}

/// The lines of `s`, as `text_lines` describes them.
fn split_lines(s: &str) -> (r: Vec<String>)
    ensures
        strings_view(r@) == text_lines(s@),
{
    let chars = chars_of(s);
    let n = chars.len();
    let mut lines: Vec<String> = Vec::new();
    let mut start: usize = 0;
    let mut i: usize = 0;
    proof {
        assert(s@.take(0) =~= Seq::<char>::empty());
        assert(s@.subrange(0, 0) =~= Seq::<char>::empty());
        assert(strings_view(lines@) =~= pieces(s@.take(0)).drop_last().map_values(
            |l: Seq<char>| strip_cr(l),
        ));
    }
    while i < n
        invariant
            start <= i <= n,
            n == s@.len(),
            chars@ == s@,
            pieces(s@.take(i as int)).len() >= 1,
            strings_view(lines@) == pieces(s@.take(i as int)).drop_last().map_values(
                |l: Seq<char>| strip_cr(l),
            ),
            pieces(s@.take(i as int)).last() == s@.subrange(start as int, i as int),
        decreases n - i,
    {
        let ghost p = pieces(s@.take(i as int));
        proof {
            assert(s@.take(i + 1).drop_last() =~= s@.take(i as int));
        }
        if chars[i] == '\n' {
            let end = if i > start && chars[i - 1] == '\r' {
                i - 1
            } else {
                i
            };
            let line = sub_string(s, start, end);
            proof {
                assert(line@ =~= strip_cr(p.last()));
            }
            let ghost before = lines@;
            lines.push(line);
            start = i + 1;
            proof {
                assert(strings_view(lines@) =~= strings_view(before).push(line@));
                assert(p.map_values(|l: Seq<char>| strip_cr(l)) =~= p.drop_last().map_values(
                    |l: Seq<char>| strip_cr(l),
                ).push(strip_cr(p.last())));
                let q = pieces(s@.take(i + 1));
                assert(q == p.push(Seq::empty()));
                assert(q.drop_last() =~= p);
                assert(strings_view(lines@) =~= q.drop_last().map_values(
                    |l: Seq<char>| strip_cr(l),
                ));
                assert(q.last() =~= s@.subrange(start as int, i + 1));
            }
        } else {
            proof {
                let q = pieces(s@.take(i + 1));
                assert(q == p.update(p.len() - 1, p.last().push(s@[i as int])));
                assert(q.drop_last() =~= p.drop_last());
                assert(q.last() =~= s@.subrange(start as int, i + 1));
            }
        }
        i = i + 1;
    }
    proof {
        assert(s@.take(n as int) =~= s@);
    }
    if start < n {
        let line = sub_string(s, start, n);
        let ghost before = lines@;
        lines.push(line);
        proof {
            assert(strings_view(lines@) =~= strings_view(before).push(line@));
            assert(strings_view(lines@) =~= text_lines(s@));
        }
    } else {
        proof {
            assert(strings_view(lines@) =~= text_lines(s@));
        }
    }
    lines
}

proof fn lemma_parse_error_stays(lines: Seq<Seq<char>>, j: int)
    requires
        0 <= j <= lines.len(),
        parse_lines(lines.take(j)) is Err,
    ensures
        parse_lines(lines) == parse_lines(lines.take(j)),
    decreases lines.len() - j,
{
    if j == lines.len() {
        assert(lines.take(j) =~= lines);
    } else {
        assert(lines.take(j + 1).drop_last() =~= lines.take(j));
        lemma_parse_error_stays(lines, j + 1);
    }
}

proof fn lemma_tool_index_stays(es: Seq<(Seq<char>, Seq<char>)>, tool: Seq<char>, j: int)
    requires
        0 <= j <= es.len(),
        tool_index(es.take(j), tool) is Some,
    ensures
        tool_index(es, tool) == tool_index(es.take(j), tool),
    decreases es.len() - j,
{
    if j == es.len() {
        assert(es.take(j) =~= es);
    } else {
        assert(es.take(j + 1).drop_last() =~= es.take(j));
        lemma_tool_index_stays(es, tool, j + 1);
    }
}

/// The entries of a record file, in the order of its lines.
fn load_file(content: &str) -> (r: Result<Vec<(String, String)>, AsdfwError>)
    ensures
        match record_entries(content@) {
            Ok(es) => r matches Ok(v) && pairs_view(v@) == es,
            Err(l) => r matches Err(e) && invalid_line_error(e, l),
        },
{
    let lines = split_lines(content);
    let ghost ls = strings_view(lines@);
    let mut entries: Vec<(String, String)> = Vec::new();
    let mut k: usize = 0;
    proof {
        assert(ls.take(0) =~= Seq::<Seq<char>>::empty());
        assert(pairs_view(entries@) =~= Seq::<(Seq<char>, Seq<char>)>::empty());
    }
    while k < lines.len()
        invariant
            k <= lines.len(),
            ls == strings_view(lines@),
            ls == text_lines(content@),
            parse_lines(ls.take(k as int)) == Ok::<_, Seq<char>>(pairs_view(entries@)),
        decreases lines.len() - k,
    {
        proof {
            assert(ls.take(k + 1).drop_last() =~= ls.take(k as int));
            assert(ls.take(k + 1).last() == lines@[k as int]@);
        }
        match parse_line(lines[k].as_str()) {
            Ok(pair) => {
                let ghost before = entries@;
                entries.push(pair);
                proof {
                    assert(pairs_view(entries@) =~= pairs_view(before).push((pair.0@, pair.1@)));
                }
            },
            Err(e) => {
                proof {
                    lemma_parse_error_stays(ls, k + 1);
                }
                return Err(e);
            },
        }
        k = k + 1;
    }
    proof {
        assert(ls.take(k as int) =~= ls);
    }
    Ok(entries)
}

proof fn lemma_tool_index_bounds(es: Seq<(Seq<char>, Seq<char>)>, tool: Seq<char>)
    ensures
        match tool_index(es, tool) {
            Some(i) => 0 <= i < es.len() && es[i].0 == tool && forall|j: int|
                0 <= j < i ==> es[j].0 != tool,
            None => forall|j: int| 0 <= j < es.len() ==> es[j].0 != tool,
        },
    decreases es.len(),
{
    if es.len() > 0 {
        lemma_tool_index_bounds(es.drop_last(), tool);
        assert(forall|j: int| 0 <= j < es.len() - 1 ==> es.drop_last()[j] == es[j]);
    }
}

/// The index of the first entry for `tool`.
fn tool_position(entries: &Vec<(String, String)>, tool: &str) -> (r: Option<usize>)
    ensures
        match r {
            Some(k) => tool_index(pairs_view(entries@), tool@) == Some(k as int),
            None => tool_index(pairs_view(entries@), tool@) is None,
        },
{
    let ghost es = pairs_view(entries@);
    let wanted = String::from_str(tool);
    let mut k: usize = 0;
    proof {
        assert(es.take(0) =~= Seq::<(Seq<char>, Seq<char>)>::empty());
    }
    while k < entries.len()
        invariant
            k <= entries.len(),
            es == pairs_view(entries@),
            wanted@ == tool@,
            tool_index(es.take(k as int), tool@) is None,
        decreases entries.len() - k,
    {
        proof {
            assert(es.take(k + 1).drop_last() =~= es.take(k as int));
        }
        if entries[k].0 == wanted {
            proof {
                assert(tool_index(es.take(k + 1), tool@) == Some(k as int));
                lemma_tool_index_stays(es, tool@, k + 1);
            }
            return Some(k);
        }
        k = k + 1;
    }
    proof {
        assert(es.take(k as int) =~= es);
    }
    None
}

/// The version of the first entry for `tool`.
fn version_of(entries: &Vec<(String, String)>, tool: &str) -> (r: Option<String>)
    ensures
        match version_in(pairs_view(entries@), tool@) {
            Some(v) => r matches Some(w) && w@ == v,
            None => r is None,
        },
{
    match tool_position(entries, tool) {
        Some(k) => {
            proof {
                lemma_tool_index_bounds(pairs_view(entries@), tool@);
                assert(tool_index(pairs_view(entries@), tool@) == Some(k as int));
                assert(pairs_view(entries@)[k as int].1 == entries@[k as int].1@);
            }
            let v = entries[k].1.clone();
            assert(v@ == entries@[k as int].1@);
            Some(v)
        },
        None => None,
    }
}

/// Looks `search_for` up in the text of a record file. Every line must be
/// well formed, whether or not it comes before the entry found.
pub fn search_tool_in_file(search_for: &str, content: &str) -> (r: Result<Option<String>, AsdfwError>)
    ensures
        lookup_result(r, search_record(content@, search_for@)),
{
    let entries = load_file(content)?;
    Ok(version_of(&entries, search_for))
}

/// Whether `s` can stand as the tool or the version of an entry.
fn is_valid_value(s: &str) -> (r: bool)
    ensures
        r == (s@.len() > 0 && space_free(s@) && newline_free(s@)),
{
    let chars = chars_of(s);
    let mut k: usize = 0;
    while k < chars.len()
        invariant
            k <= chars.len(),
            chars@ == s@,
            forall|j: int| 0 <= j < k ==> s@[j] != ' ' && s@[j] != '\n',
        decreases chars.len() - k,
    {
        if chars[k] == ' ' || chars[k] == '\n' {
            return false;
        }
        k = k + 1;
    }
    chars.len() > 0
}

/// The text of a record file holding `entries`, in their order.
fn save_file(entries: &Vec<(String, String)>) -> (r: String)
    ensures
        r@ == render(pairs_view(entries@)),
{
    let ghost es = pairs_view(entries@);
    let mut content = String::new();
    proof {
        reveal_strlit(" ");
        reveal_strlit("\r\n");
        assert(es.take(0) =~= Seq::<(Seq<char>, Seq<char>)>::empty());
    }
    let mut k: usize = 0;
    while k < entries.len()
        invariant
            k <= entries.len(),
            es == pairs_view(entries@),
            content@ == render(es.take(k as int)),
            " "@ == seq![' '],
            "\r\n"@ == seq!['\r', '\n'],
        decreases entries.len() - k,
    {
        content.append(entries[k].0.as_str());
        content.append(" ");
        content.append(entries[k].1.as_str());
        content.append("\r\n");
        proof {
            assert(es.take(k + 1).drop_last() =~= es.take(k as int));
            assert(content@ =~= render(es.take(k + 1)));
        }
        k = k + 1;
    }
    proof {
        assert(es.take(k as int) =~= es);
    }
    content
}

/// The new text of a record file after saving `version` for `tool`; the
/// other entries stay as they were.
pub(crate) fn set_tool_version(existing: Option<&str>, tool: &str, version: &str) -> (r: Result<String, AsdfwError>)
    ensures
        match saved_record(str_view(existing), tool@, version@) {
            Ok(c) => r matches Ok(t) && t@ == c,
            Err(l) => r matches Err(e) && invalid_line_error(e, l),
        },
{
    let mut entries: Vec<(String, String)> = match existing {
        Some(content) => load_file(content)?,
        None => Vec::new(),
    };
    proof {
        assert(existing is None ==> pairs_view(entries@) =~= Seq::<(Seq<char>, Seq<char>)>::empty());
    }
    if !(is_valid_value(tool) && is_valid_value(version)) {
        let mut line = String::from_str(tool);
        line.append(" ");
        line.append(version);
        proof {
            reveal_strlit(" ");
            assert(line@ =~= entry_line(tool@, version@));
        }
        return Err(AsdfwError::InvalidVersionsLine { line });
    }
    let ghost es = pairs_view(entries@);
    match tool_position(&entries, tool) {
        Some(k) => {
            proof {
                lemma_tool_index_bounds(es, tool@);
            }
            entries.set(k, (String::from_str(tool), String::from_str(version)));
            proof {
                assert(pairs_view(entries@) =~= set_version(es, tool@, version@));
            }
        },
        None => {
            entries.push((String::from_str(tool), String::from_str(version)));
            proof {
                assert(pairs_view(entries@) =~= set_version(es, tool@, version@));
            }
        },
    }
    Ok(save_file(&entries))
}

proof fn lemma_pieces_len(s: Seq<char>)
    ensures
        pieces(s).len() >= 1,
    decreases s.len(),
{
    if s.len() > 0 {
        lemma_pieces_len(s.drop_last());
    }
}

proof fn lemma_pieces_newline_free(s: Seq<char>)
    ensures
        forall|i: int| 0 <= i < pieces(s).len() ==> newline_free(#[trigger] pieces(s)[i]),
    decreases s.len(),
{
    if s.len() > 0 {
        lemma_pieces_newline_free(s.drop_last());
        lemma_pieces_len(s.drop_last());
        let p = pieces(s.drop_last());
        if s.last() != '\n' {
            let l = p.last().push(s.last());
            assert(newline_free(l)) by {
                assert(newline_free(p[p.len() - 1]));
            }
        }
    }
}

proof fn lemma_text_lines_newline_free(s: Seq<char>)
    ensures
        forall|i: int| 0 <= i < text_lines(s).len() ==> newline_free(#[trigger] text_lines(s)[i]),
{
    lemma_pieces_newline_free(s);
    lemma_pieces_len(s);
    let p = pieces(s);
    assert forall|i: int| 0 <= i < text_lines(s).len() implies newline_free(#[trigger] text_lines(s)[i]) by {
        assert(newline_free(p[i]));
        if i == p.len() - 1 {
        } else {
            assert(text_lines(s)[i] == strip_cr(p[i]));
            assert(p[i].len() > 0 ==> p[i].drop_last() =~= p[i].take(p[i].len() - 1));
        }
    }
}

proof fn lemma_pieces_append(s: Seq<char>, l: Seq<char>)
    requires
        newline_free(l),
    ensures
        pieces(s + l) == pieces(s).update(pieces(s).len() - 1, pieces(s).last() + l),
    decreases l.len(),
{
    lemma_pieces_len(s);
    if l.len() == 0 {
        assert(s + l =~= s);
        assert(pieces(s).last() + l =~= pieces(s).last());
        assert(pieces(s).update(pieces(s).len() - 1, pieces(s).last()) =~= pieces(s));
    } else {
        let init = l.drop_last();
        assert((s + l).drop_last() =~= s + init);
        lemma_pieces_append(s, init);
        assert((pieces(s).last() + init).push(l.last()) =~= pieces(s).last() + l);
        assert(pieces(s + l) =~= pieces(s).update(pieces(s).len() - 1, pieces(s).last() + l));
    }
}

pub open spec fn entry_lines(es: Seq<(Seq<char>, Seq<char>)>) -> Seq<Seq<char>> {
    es.map_values(|e: (Seq<char>, Seq<char>)| entry_line(e.0, e.1))
}

pub open spec fn all_valid(es: Seq<(Seq<char>, Seq<char>)>) -> bool {
    forall|i: int| 0 <= i < es.len() ==> is_valid_entry(#[trigger] es[i].0, es[i].1)
}

proof fn lemma_render_pieces(es: Seq<(Seq<char>, Seq<char>)>)
    requires
        all_valid(es),
    ensures
        pieces(render(es)) == entry_lines(es).map_values(|l: Seq<char>| l.push('\r')).push(
            Seq::empty(),
        ),
    decreases es.len(),
{
    if es.len() == 0 {
        assert(pieces(render(es)) =~= seq![Seq::<char>::empty()]);
        assert(entry_lines(es).map_values(|l: Seq<char>| l.push('\r')).push(Seq::empty()) =~= seq![
            Seq::<char>::empty(),
        ]);
    } else {
        let init = es.drop_last();
        assert(all_valid(init)) by {
            assert forall|i: int| 0 <= i < init.len() implies is_valid_entry(
                #[trigger] init[i].0,
                init[i].1,
            ) by {
                assert(init[i] == es[i]);
            }
        }
        lemma_render_pieces(init);
        let (t, v) = es.last();
        assert(is_valid_entry(es[es.len() - 1].0, es[es.len() - 1].1));
        let line = entry_line(t, v).push('\r');
        assert(newline_free(line)) by {
            assert forall|j: int| 0 <= j < line.len() implies line[j] != '\n' by {
                if j < t.len() {
                    assert(line[j] == t[j]);
                } else if j > t.len() && j < t.len() + 1 + v.len() {
                    assert(line[j] == v[j - t.len() - 1]);
                }
            }
        }
        let body = render(init) + line;
        assert(render(es) =~= body.push('\n'));
        assert(render(es).drop_last() =~= body);
        lemma_pieces_append(render(init), line);
        assert(pieces(render(es)) =~= entry_lines(es).map_values(|l: Seq<char>| l.push('\r')).push(
            Seq::empty(),
        ));
    }
}

proof fn lemma_entry_line_parses(t: Seq<char>, v: Seq<char>)
    requires
        is_valid_entry(t, v),
    ensures
        is_entry_line(entry_line(t, v)),
        entry_of(entry_line(t, v)) == (t, v),
{
    let line = entry_line(t, v);
    assert(line.take(t.len() as int) =~= t);
    assert(line.skip(t.len() as int + 1) =~= v);
    assert(splits_at(line, t.len() as int));
    lemma_entry_of(line, t.len() as int);
}

proof fn lemma_parse_rendered(es: Seq<(Seq<char>, Seq<char>)>)
    requires
        all_valid(es),
    ensures
        record_entries(render(es)) == Ok::<_, Seq<char>>(es),
    decreases es.len(),
{
    lemma_render_pieces(es);
    let lines = entry_lines(es);
    let p = pieces(render(es));
    assert(text_lines(render(es)) =~= lines) by {
        assert forall|i: int| 0 <= i < lines.len() implies text_lines(render(es))[i] == lines[i] by {
            assert(p[i] == lines[i].push('\r'));
            assert(lines[i].push('\r').drop_last() =~= lines[i]);
        }
    }
    lemma_parse_entry_lines(es);
}

proof fn lemma_parse_entry_lines(es: Seq<(Seq<char>, Seq<char>)>)
    requires
        all_valid(es),
    ensures
        parse_lines(entry_lines(es)) == Ok::<_, Seq<char>>(es),
    decreases es.len(),
{
    if es.len() > 0 {
        let init = es.drop_last();
        assert(all_valid(init)) by {
            assert forall|i: int| 0 <= i < init.len() implies is_valid_entry(
                #[trigger] init[i].0,
                init[i].1,
            ) by {
                assert(init[i] == es[i]);
            }
        }
        lemma_parse_entry_lines(init);
        assert(entry_lines(es).drop_last() =~= entry_lines(init));
        assert(is_valid_entry(es[es.len() - 1].0, es[es.len() - 1].1));
        lemma_entry_line_parses(es.last().0, es.last().1);
        assert(entry_lines(es).last() == entry_line(es.last().0, es.last().1));
        assert(es =~= init.push(es.last()));
    } else {
        assert(entry_lines(es) =~= Seq::<Seq<char>>::empty());
        assert(es =~= Seq::<(Seq<char>, Seq<char>)>::empty());
    }
}

proof fn lemma_parsed_entries_valid(lines: Seq<Seq<char>>)
    requires
        forall|i: int| 0 <= i < lines.len() ==> newline_free(#[trigger] lines[i]),
        parse_lines(lines) is Ok,
    ensures
        all_valid(parse_lines(lines)->Ok_0),
    decreases lines.len(),
{
    if lines.len() > 0 {
        let init = lines.drop_last();
        assert forall|i: int| 0 <= i < init.len() implies newline_free(#[trigger] init[i]) by {
            assert(init[i] == lines[i]);
        }
        lemma_parsed_entries_valid(init);
        let line = lines.last();
        assert(newline_free(lines[lines.len() - 1]));
        let m = choose|m: int| splits_at(line, m);
        let (t, v) = entry_of(line);
        assert(t =~= line.take(m));
        assert(newline_free(t)) by {
            assert forall|j: int| 0 <= j < t.len() implies t[j] != '\n' by {
                assert(t[j] == line[j]);
            }
        }
        assert(newline_free(v)) by {
            assert forall|j: int| 0 <= j < v.len() implies v[j] != '\n' by {
                assert(v[j] == line[j + m + 1]);
            }
        }
    }
}

proof fn lemma_parse_ok_all_entries(lines: Seq<Seq<char>>)
    requires
        parse_lines(lines) is Ok,
    ensures
        forall|i: int| 0 <= i < lines.len() ==> is_entry_line(#[trigger] lines[i]),
    decreases lines.len(),
{
    if lines.len() > 0 {
        lemma_parse_ok_all_entries(lines.drop_last());
        assert forall|i: int| 0 <= i < lines.len() implies is_entry_line(#[trigger] lines[i]) by {
            if i < lines.len() - 1 {
                assert(lines[i] == lines.drop_last()[i]);
            }
        }
    }
}

proof fn lemma_set_version_lookup(
    es: Seq<(Seq<char>, Seq<char>)>,
    tool: Seq<char>,
    version: Seq<char>,
    other: Seq<char>,
)
    ensures
        version_in(set_version(es, tool, version), tool) == Some(version),
        other != tool ==> version_in(set_version(es, tool, version), other) == version_in(es, other),
{
    let after = set_version(es, tool, version);
    lemma_tool_index_bounds(es, tool);
    lemma_tool_index_bounds(es, other);
    lemma_tool_index_bounds(after, tool);
    lemma_tool_index_bounds(after, other);
    match tool_index(es, tool) {
        Some(i) => {
            assert(after[i] == (tool, version));
            let k = tool_index(after, tool)->0;
            if k < i {
                assert(after[k] == es[k]);
            }
            if other != tool {
                match tool_index(es, other) {
                    Some(j) => {
                        assert(after[j] == es[j]);
                        let m = tool_index(after, other)->0;
                        if m < j {
                            assert(after[m] == es[m]);
                        }
                    },
                    None => {
                        if let Some(m) = tool_index(after, other) {
                            assert(after[m] == es[m]);
                        }
                    },
                }
            }
        },
        None => {
            assert(after[es.len() as int] == (tool, version));
            let k = tool_index(after, tool)->0;
            if k < es.len() {
                assert(after[k] == es[k]);
            }
            if other != tool {
                match tool_index(es, other) {
                    Some(j) => {
                        assert(after[j] == es[j]);
                        let m = tool_index(after, other)->0;
                        if m < j {
                            assert(after[m] == es[m]);
                        }
                    },
                    None => {
                        if let Some(m) = tool_index(after, other) {
                            if m < es.len() {
                                assert(after[m] == es[m]);
                            }
                        }
                    },
                }
            }
        },
    }
}

/// A record file saved with `version` for `tool` reads back with that version
/// for `tool`, and with what it gave before for every other tool.
pub proof fn lemma_saved_record_reads_back(
    existing: Option<Seq<char>>,
    tool: Seq<char>,
    version: Seq<char>,
    other: Seq<char>,
)
    requires
        saved_record(existing, tool, version) is Ok,
    ensures
        search_record(saved_record(existing, tool, version)->Ok_0, tool) == Ok::<_, Seq<char>>(
            Some(version),
        ),
        other != tool ==> search_record(saved_record(existing, tool, version)->Ok_0, other) == match existing {
            Some(s) => search_record(s, other),
            None => Ok(None),
        },
{
    let es = match existing {
        Some(s) => record_entries(s)->Ok_0,
        None => seq![],
    };
    if let Some(s) = existing {
        lemma_text_lines_newline_free(s);
        lemma_parsed_entries_valid(text_lines(s));
    }
    let after = set_version(es, tool, version);
    lemma_tool_index_bounds(es, tool);
    assert(all_valid(after)) by {
        assert forall|i: int| 0 <= i < after.len() implies is_valid_entry(
            #[trigger] after[i].0,
            after[i].1,
        ) by {
            if i < es.len() && after[i] == es[i] {
                assert(is_valid_entry(es[i].0, es[i].1));
            }
        }
    }
    lemma_parse_rendered(after);
    lemma_set_version_lookup(es, tool, version, other);
}

/// A record file with a malformed line cannot be read: looking up any tool
/// in it fails.
pub proof fn lemma_malformed_line_fails_read(s: Seq<char>, tool: Seq<char>, k: int)
    requires
        0 <= k < text_lines(s).len(),
        !is_entry_line(text_lines(s)[k]),
    ensures
        search_record(s, tool) is Err,
{
    if parse_lines(text_lines(s)) is Ok {
        lemma_parse_ok_all_entries(text_lines(s));
    }
}

} // verus!
