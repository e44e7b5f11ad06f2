//! The skip list: the patterns of commands whose output is not recorded, and
//! how the list is written to and read from its file.

use vstd::prelude::*;
use vstd::string::*;
use crate::text::{
    chars_of, is_single_line, is_trimmed, lemma_line_end, lemma_spaces_end,
    lemma_spaces_start, lemma_trim_of_trimmed, line_end, skip_line, skip_spaces,
    skip_spaces_back, spaces_end, spaces_start, str_eq, trim,
};

verus! {

/// The built-in patterns, in order.
pub const DEFAULT_SKIP_COMMANDS: [&'static str; 14] = [
    "tellme", "clear", "exit", "cd", "vim", "vi", "nano", "less", "man", "htop", "top", "ssh",
    "tmux", "source",
];

/// The texts of a list of strings.
pub open spec fn texts(list: Seq<String>) -> Seq<Seq<char>> {
    list.map_values(|s: String| s@)
}

/// The patterns in force until a list has been saved: navigation, pagers,
/// editors, remote sessions and the tool itself.
pub open spec fn default_skip_list() -> Seq<Seq<char>> {
    seq![
        "tellme"@,
        "clear"@,
        "exit"@,
        "cd"@,
        "vim"@,
        "vi"@,
        "nano"@,
        "less"@,
        "man"@,
        "htop"@,
        "top"@,
        "ssh"@,
        "tmux"@,
        "source"@,
    ]
}

/// The entries that `content` lists from position `from` on: one per line,
/// each trimmed, blank lines left out.
pub open spec fn entries_from(content: Seq<char>, from: int) -> Seq<Seq<char>>
    decreases content.len() - from,
{
    let end = line_end(content, from);
    let entry = trim(content.subrange(from, end));
    let head = if entry.len() > 0 {
        seq![entry]
    } else {
        seq![]
    };
    if from <= end < content.len() {
        head + entries_from(content, end + 1)
    } else {
        head
    }
}

/// The skip list that a file with the text `content` holds.
pub open spec fn parse_entries(content: Seq<char>) -> Seq<Seq<char>> {
    entries_from(content, 0)
}

/// The text of a skip-list file: the entries in order, a line feed between
/// each two.
pub open spec fn join_lines(list: Seq<Seq<char>>) -> Seq<char>
    decreases list.len(),
{
    if list.len() == 0 {
        Seq::empty()
    } else if list.len() == 1 {
        list[0]
    } else {
        list[0] + seq!['\n'] + join_lines(list.drop_first())
    }
}

/// Whether `entry` survives a round through the file: it is not empty, holds
/// no line feed, and neither starts nor ends with whitespace.
pub open spec fn is_storable_entry(entry: Seq<char>) -> bool {
    is_trimmed(entry) && is_single_line(entry)
}

/// Whether every entry of `list` survives a round through the file.
pub open spec fn storable(list: Seq<Seq<char>>) -> bool {
    forall|i: int| 0 <= i < list.len() ==> is_storable_entry(#[trigger] list[i])
}

/// `list` without the entries equal to `entry`, the others in their order.
pub open spec fn without(list: Seq<Seq<char>>, entry: Seq<char>) -> Seq<Seq<char>>
    decreases list.len(),
{
    if list.len() == 0 {
        Seq::empty()
    } else if list.last() == entry {
        without(list.drop_last(), entry)
    } else {
        without(list.drop_last(), entry).push(list.last())
    }
}

/// `without` keeps exactly the entries that differ from `entry`, and keeps
/// a list free of duplicates free of them.
pub proof fn lemma_without(list: Seq<Seq<char>>, entry: Seq<char>)
    ensures
        !without(list, entry).contains(entry),
        forall|e: Seq<char>|
            e != entry ==> (#[trigger] without(list, entry).contains(e) <==> list.contains(e)),
        list.no_duplicates() ==> without(list, entry).no_duplicates(),
        !list.contains(entry) ==> without(list, entry) == list,
    decreases list.len(),
{
    if list.len() > 0 {
        let rest = list.drop_last();
        let last = list.last();
        lemma_without(rest, entry);
        let kept = without(rest, entry);
        assert forall|e: Seq<char>| e != entry implies (#[trigger] without(list, entry).contains(e)
            <==> list.contains(e)) by {
            if list.contains(e) {
                let i = choose|i: int| 0 <= i < list.len() && list[i] == e;
                if i < list.len() - 1 {
                    assert(rest[i] == e);
                    assert(kept.contains(e));
                    let j = choose|j: int| 0 <= j < kept.len() && kept[j] == e;
                    assert(without(list, entry)[j] == e);
                } else {
                    assert(without(list, entry).last() == e);
                }
            }
            if without(list, entry).contains(e) {
                let j = choose|j: int|
                    0 <= j < without(list, entry).len() && without(list, entry)[j] == e;
                if j < kept.len() {
                    assert(kept[j] == e);
                    assert(kept.contains(e));
                    assert(rest.contains(e));
                    let i = choose|i: int| 0 <= i < rest.len() && rest[i] == e;
                    assert(list[i] == e);
                } else {
                    assert(list[list.len() - 1] == e);
                }
            }
        }
        if without(list, entry).contains(entry) {
            let j = choose|j: int|
                0 <= j < without(list, entry).len() && without(list, entry)[j] == entry;
            assert(kept[j] == entry);
        }
        if list.no_duplicates() {
            assert forall|i: int, j: int| 0 <= i < j < rest.len() implies rest[i] != rest[j] by {
                assert(list[i] != list[j]);
            }
            if last != entry {
                if kept.contains(last) {
                    let i = choose|i: int| 0 <= i < rest.len() && rest[i] == last;
                    assert(list[i] == list[list.len() - 1]);
                }
                assert forall|i: int, j: int|
                    0 <= i < j < without(list, entry).len() implies without(list, entry)[i]
                    != without(list, entry)[j] by {
                    if j == kept.len() {
                        assert(kept[i] == without(list, entry)[i]);
                        assert(kept.contains(kept[i]));
                    } else {
                        assert(kept[i] != kept[j]);
                    }
                }
            }
        }
        if !list.contains(entry) {
            assert(list[list.len() - 1] != entry);
            assert forall|i: int| 0 <= i < rest.len() implies rest[i] != entry by {
                assert(list[i] == rest[i]);
            }
            assert(!rest.contains(entry));
            assert(without(list, entry) =~= list);
        }
    }
}

proof fn lemma_join_push(list: Seq<Seq<char>>, entry: Seq<char>)
    requires
        list.len() > 0,
    ensures
        join_lines(list.push(entry)) == join_lines(list) + seq!['\n'] + entry,
    decreases list.len(),
{
    let more = list.push(entry);
    assert(more.drop_first() =~= list.drop_first().push(entry));
    if list.len() == 1 {
        assert(more.drop_first() =~= seq![entry]);
        assert(join_lines(more.drop_first()) == entry);
    } else {
        lemma_join_push(list.drop_first(), entry);
        assert(join_lines(more) =~= join_lines(list) + seq!['\n'] + entry);
    }
}

proof fn lemma_line_end_shift(s: Seq<char>, k: int, j: int)
    requires
        0 <= k,
        0 <= j,
        k + j <= s.len(),
    ensures
        line_end(s, k + j) == k + line_end(s.subrange(k, s.len() as int), j),
    decreases s.len() - (k + j),
{
    let t = s.subrange(k, s.len() as int);
    if k + j < s.len() && s[k + j] != '\n' {
        assert(t[j] == s[k + j]);
        lemma_line_end_shift(s, k, j + 1);
    }
}

proof fn lemma_entries_shift(s: Seq<char>, k: int, j: int)
    requires
        0 <= k,
        0 <= j,
        k + j <= s.len(),
    ensures
        entries_from(s, k + j) == entries_from(s.subrange(k, s.len() as int), j),
    decreases s.len() - (k + j),
{
    let t = s.subrange(k, s.len() as int);
    lemma_line_end_shift(s, k, j);
    lemma_line_end(t, j);
    let end = line_end(t, j);
    assert(s.subrange(k + j, k + end) =~= t.subrange(j, end));
    if end < t.len() {
        lemma_entries_shift(s, k, end + 1);
    }
}

proof fn lemma_line_end_of_first(first: Seq<char>, rest: Seq<char>)
    requires
        is_single_line(first),
    ensures
        line_end(first, 0) == first.len(),
        line_end(first + seq!['\n'] + rest, 0) == first.len(),
{
    let s = first + seq!['\n'] + rest;
    lemma_line_end(first, 0);
    lemma_line_end(s, 0);
    let e = line_end(s, 0);
    if e < first.len() {
        assert(s[e] == first[e]);
    }
    if e > first.len() {
        assert(s[first.len() as int] == '\n');
    }
}

/// A list whose entries are storable is read back from its text as it was
/// written.
pub proof fn lemma_parse_join(list: Seq<Seq<char>>)
    requires
        storable(list),
    ensures
        parse_entries(join_lines(list)) == list,
    decreases list.len(),
{
    let s = join_lines(list);
    if list.len() == 0 {
        assert(s.subrange(0, 0) =~= Seq::<char>::empty());
        assert(parse_entries(s) =~= list);
    } else {
        let first = list[0];
        assert(is_storable_entry(first));
        lemma_trim_of_trimmed(first);
        if list.len() == 1 {
            lemma_line_end_of_first(first, Seq::empty());
            assert(s.subrange(0, s.len() as int) =~= s);
            assert(parse_entries(s) =~= list);
        } else {
            let rest = list.drop_first();
            let tail = join_lines(rest);
            lemma_line_end_of_first(first, tail);
            assert forall|i: int| 0 <= i < rest.len() implies is_storable_entry(
                #[trigger] rest[i],
            ) by {
                assert(rest[i] == list[i + 1]);
            }
            lemma_parse_join(rest);
            let end = first.len() as int;
            assert(s.subrange(0, end) =~= first);
            assert(s.subrange(end + 1, s.len() as int) =~= tail);
            lemma_entries_shift(s, end + 1, 0);
            assert(parse_entries(s) =~= seq![first] + rest);
            assert(seq![first] + rest =~= list);
        }
    }
}

proof fn lemma_entries_storable(content: Seq<char>, from: int)
    requires
        0 <= from <= content.len(),
    ensures
        storable(entries_from(content, from)),
    decreases content.len() - from,
{
    lemma_line_end(content, from);
    let end = line_end(content, from);
    let line = content.subrange(from, end);
    let entry = trim(line);
    lemma_spaces_end(line, 0);
    lemma_spaces_start(line, line.len() as int);
    let head: Seq<Seq<char>> = if entry.len() > 0 {
        seq![entry]
    } else {
        seq![]
    };
    if entry.len() > 0 {
        let a = spaces_end(line, 0);
        let b = spaces_start(line, line.len() as int);
        assert(entry[0] == line[a]);
        assert(entry[entry.len() - 1] == line[b - 1]);
        assert forall|i: int| 0 <= i < entry.len() implies #[trigger] entry[i] != '\n' by {
            assert(entry[i] == content[from + a + i]);
        }
    }
    if end < content.len() {
        lemma_entries_storable(content, end + 1);
        let tail = entries_from(content, end + 1);
        assert forall|i: int| 0 <= i < (head + tail).len() implies is_storable_entry(
            #[trigger] (head + tail)[i],
        ) by {
            if i >= head.len() {
                assert((head + tail)[i] == tail[i - head.len()]);
            }
        }
    }
}

/// Every list that is read from a file is storable.
pub proof fn lemma_parsed_is_storable(content: Seq<char>)
    ensures
        storable(parse_entries(content)),
{
    lemma_entries_storable(content, 0);
}

/// The lists that come back from the file as they went in are exactly the
/// storable ones.
pub proof fn lemma_round_trip_iff_storable(list: Seq<Seq<char>>)
    ensures
        parse_entries(join_lines(list)) == list <==> storable(list),
{
    if storable(list) {
        lemma_parse_join(list);
    }
    lemma_parsed_is_storable(join_lines(list));
}

/// The built-in list is storable and free of duplicates.
pub proof fn lemma_default_is_storable()
    ensures
        storable(default_skip_list()),
        default_skip_list().no_duplicates(),
        default_skip_list().len() == 14,
{
    reveal_strlit("tellme");
    reveal_strlit("clear");
    reveal_strlit("exit");
    reveal_strlit("cd");
    reveal_strlit("vim");
    reveal_strlit("vi");
    reveal_strlit("nano");
    reveal_strlit("less");
    reveal_strlit("man");
    reveal_strlit("htop");
    reveal_strlit("top");
    reveal_strlit("ssh");
    reveal_strlit("tmux");
    reveal_strlit("source");
    let list = default_skip_list();
    assert forall|i: int| 0 <= i < list.len() implies is_storable_entry(#[trigger] list[i]) by {}
    assert forall|i: int, j: int| 0 <= i < j < list.len() implies list[i] != list[j] by {
        assert(list[i].len() != list[j].len() || list[i][0] != list[j][0] || list[i][1]
            != list[j][1]);
    }
}

/// The built-in skip list.
pub fn default_skip_commands() -> (r: Vec<String>)
    ensures
        texts(r@) == default_skip_list(),
{
    let mut out: Vec<String> = Vec::new();
    let mut i: usize = 0;
    while i < 14
        invariant
            i <= 14,
            out@.len() == i,
            forall|k: int| 0 <= k < i ==> (#[trigger] out@[k])@ == DEFAULT_SKIP_COMMANDS[k]@,
        decreases 14 - i,
    {
        out.push(String::from_str(DEFAULT_SKIP_COMMANDS[i]));
        i += 1;
    }
    assert(texts(out@) =~= default_skip_list());
    out
}

fn copy_range(v: &Vec<char>, from: usize, to: usize) -> (r: Vec<char>)
    requires
        from <= to <= v.len(),
    ensures
        r@ == v@.subrange(from as int, to as int),
{
    let mut out: Vec<char> = Vec::new();
    let mut i: usize = from;
    while i < to
        invariant
            from <= i <= to <= v.len(),
            out@ == v@.subrange(from as int, i as int),
        decreases to - i,
    {
        out.push(v[i]);
        i += 1;
        assert(out@ =~= v@.subrange(from as int, i as int));
    }
    out
}

/// Reads the skip list that a file with the text `content` holds.
pub fn parse_skip_list(content: &str) -> (r: Vec<String>)
    ensures
        texts(r@) == parse_entries(content@),
{
    let v = chars_of(content);
    let mut out: Vec<String> = Vec::new();
    let mut from: usize = 0;
    let mut done = false;
    assert(texts(out@) + entries_from(v@, 0) =~= entries_from(v@, 0));
    while !done
        invariant
            v@ == content@,
            from <= v.len(),
            !done ==> parse_entries(v@) == texts(out@) + entries_from(v@, from as int),
            done ==> parse_entries(v@) == texts(out@),
        decreases
                (if done {
                    0
                } else {
                    v.len() - from + 1
                }),
    {
        let end = skip_line(&v, from);
        let line = copy_range(&v, from, end);
        let a = skip_spaces(&line, 0);
        let b = skip_spaces_back(&line, line.len());
        let ghost before = texts(out@);
        let ghost head: Seq<Seq<char>> = if trim(line@).len() > 0 {
            seq![trim(line@)]
        } else {
            seq![]
        };
        if a < b {
            let piece = content.substring_char(from + a, from + b);
            assert(piece@ =~= trim(line@));
            out.push(String::from_str(piece));
        }
        assert(texts(out@) =~= before + head);
        if end < v.len() {
            assert(before + (head + entries_from(v@, end + 1)) =~= (before + head) + entries_from(
                v@,
                end + 1,
            ));
            from = end + 1;
        } else {
            done = true;
        }
    }
    out
}

/// Whether `entry` is in `list`.
pub fn contains_entry(list: &Vec<String>, entry: &str) -> (r: bool)
    ensures
        r == texts(list@).contains(entry@),
{
    let mut i: usize = 0;
    while i < list.len()
        invariant
            i <= list@.len(),
            forall|k: int| 0 <= k < i ==> texts(list@)[k] != entry@,
        decreases list.len() - i,
    {
        if str_eq(list[i].as_str(), entry) {
            assert(texts(list@)[i as int] == entry@);
            return true;
        }
        i += 1;
    }
    false
}

/// `list` without the entries equal to `entry`.
pub fn remove_entry(list: &Vec<String>, entry: &str) -> (r: Vec<String>)
    ensures
        texts(r@) == without(texts(list@), entry@),
{
    let mut out: Vec<String> = Vec::new();
    let mut i: usize = 0;
    assert(texts(list@).subrange(0, 0) =~= Seq::<Seq<char>>::empty());
    while i < list.len()
        invariant
            i <= list@.len(),
            texts(out@) == without(texts(list@).subrange(0, i as int), entry@),
        decreases list.len() - i,
    {
        let ghost before = texts(out@);
        let ghost done = texts(list@).subrange(0, i + 1);
        assert(done.drop_last() =~= texts(list@).subrange(0, i as int));
        assert(done.last() == list@[i as int]@);
        if !str_eq(list[i].as_str(), entry) {
            out.push(list[i].clone());
            assert(texts(out@) =~= before.push(list@[i as int]@));
        }
        i += 1;
    }
    assert(texts(list@).subrange(0, i as int) =~= texts(list@));
    out
}

/// Writes the text of a skip-list file.
pub fn format_skip_list(list: &[String]) -> (r: String)
    ensures
        r@ == join_lines(texts(list@)),
{
    let mut out = String::new();
    let mut i: usize = 0;
    while i < list.len()
        invariant
            i <= list@.len(),
            out@ == join_lines(texts(list@).subrange(0, i as int)),
        decreases list.len() - i,
    {
        let ghost done = texts(list@).subrange(0, i as int);
        if i > 0 {
            proof {
                reveal_strlit("\n");
            }
            out.append("\n");
        }
        out.append(list[i].as_str());
        i += 1;
        proof {
            assert(texts(list@).subrange(0, i as int) =~= done.push(list@[i - 1]@));
            if i > 1 {
                lemma_join_push(done, list@[i - 1]@);
                assert(out@ =~= join_lines(done) + seq!['\n'] + list@[i - 1]@);
            } else {
                assert(done =~= Seq::<Seq<char>>::empty());
                assert(out@ =~= list@[0]@);
            }
        }
    }
    assert(texts(list@).subrange(0, i as int) =~= texts(list@));
    out
}

} // verus!
