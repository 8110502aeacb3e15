//! The on-disk format of a list: one record per line, each ended by `'\n'`.
use vstd::prelude::*;

verus! {

/// The text of a line without the `'\r'` of a CRLF line ending.
pub open spec fn strip_cr(line: Seq<char>) -> Seq<char> {
    if line.len() > 0 && line.last() == '\r' {
        line.drop_last()
    } else {
        line
    }
}

/// Reading `text` from the left: the lines completed so far (first) and
/// the characters of the line that is not yet ended by a newline (second).
pub open spec fn scan(text: Seq<char>) -> (Seq<Seq<char>>, Seq<char>)
    decreases text.len(),
{
    if text.len() == 0 {
        (seq![], seq![])
    } else {
        let prev = scan(text.drop_last());
        if text.last() == '\n' {
            (prev.0.push(strip_cr(prev.1)), seq![])
        } else {
            (prev.0, prev.1.push(text.last()))
        }
    }
}

/// The records that a list file holding `text` yields, in file order: a
/// last line without a newline still counts, an empty file yields none.
pub open spec fn lines_of(text: Seq<char>) -> Seq<Seq<char>> {
    let s = scan(text);
    if s.1.len() == 0 {
        s.0
    } else {
        s.0.push(strip_cr(s.1))
    }
}

/// What appending `entry` writes to the end of a list file.
pub open spec fn line_of(entry: Seq<char>) -> Seq<char> {
    entry + seq!['\n']
}

/// The text of a list file that holds `entries`, in order.
pub open spec fn render(entries: Seq<Seq<char>>) -> Seq<char>
    decreases entries.len(),
{
    if entries.len() == 0 {
        seq![]
    } else {
        render(entries.drop_last()) + line_of(entries.last())
    }
}

/// A record can stand on a line of its own and be read back unchanged.
pub open spec fn is_record(entry: Seq<char>) -> bool {
    &&& !entry.contains('\n')
    &&& !(entry.len() > 0 && entry.last() == '\r')
}

/// The character sequences of a vector of strings.
pub open spec fn views(v: Seq<String>) -> Seq<Seq<char>> {
    v.map_values(|s: String| s@)
}

/// The text between two character positions of `text`, without a final `'\r'`.
fn line_text(text: &str, start: usize, end: usize) -> (r: String)
    requires
        start <= end <= text@.len(),
    ensures
        r@ == strip_cr(text@.subrange(start as int, end as int)),
{
    let mut stop = end;
    if end > start && text.get_char(end - 1) == '\r' {
        stop = end - 1;
        assert(text@.subrange(start as int, end as int).drop_last() =~= text@.subrange(
            start as int,
            stop as int,
        ));
    }
    let piece = text.substring_char(start, stop);
    let r = String::from_str(piece);
    r
}

/// Splits the text of a list file into its records.
pub fn split_lines(text: &str) -> (r: Vec<String>)
    ensures
        views(r@) == lines_of(text@),
{
    let n = text.unicode_len();
    let mut out: Vec<String> = Vec::new();
    let mut start: usize = 0;
    let mut i: usize = 0;
    while i < n
        invariant
            n == text@.len(),
            start <= i <= n,
            views(out@) == scan(text@.subrange(0, i as int)).0,
            scan(text@.subrange(0, i as int)).1 == text@.subrange(start as int, i as int),
        decreases n - i,
    {
        let c = text.get_char(i);
        let ghost before = text@.subrange(0, i as int);
        assert(text@.subrange(0, i + 1).drop_last() =~= before);
        if c == '\n' {
            let line = line_text(text, start, i);
            out.push(line);
            assert(views(out@) =~= scan(before).0.push(strip_cr(scan(before).1)));
            start = i + 1;
        } else {
            assert(text@.subrange(start as int, i + 1) =~= text@.subrange(start as int, i as int).push(c));
        }
        i = i + 1;
    }
    assert(text@.subrange(0, n as int) =~= text@);
    if start < n {
        let line = line_text(text, start, n);
        out.push(line);
        assert(views(out@) =~= lines_of(text@));
    }
    out
}

/// Whether `entry` can be stored as a record: no line break in it, and no
/// `'\r'` at its end that reading would take for part of a CRLF ending.
pub fn is_record_text(entry: &str) -> (r: bool)
    ensures
        r == is_record(entry@),
{
    let n = entry.unicode_len();
    let mut i: usize = 0;
    while i < n
        invariant
            n == entry@.len(),
            i <= n,
            forall|k: int| 0 <= k < i ==> entry@[k] != '\n',
        decreases n - i,
    {
        if entry.get_char(i) == '\n' {
            assert(entry@.contains('\n'));
            return false;
        }
        i = i + 1;
    }
    if n > 0 && entry.get_char(n - 1) == '\r' {
        return false;
    }
    true
}

/// The text that appending `entry` to a list file writes.
pub fn entry_line(entry: &str) -> (r: String)
    ensures
        r@ == line_of(entry@),
{
    let mut r = String::from_str(entry);
    r.append("\n");
    proof {
        reveal_strlit("\n");
    }
    assert(r@ =~= line_of(entry@));
    r
}

/// The whole text of a list file that holds `entries`, in order.
pub fn render_list(entries: &Vec<String>) -> (r: String)
    ensures
        r@ == render(views(entries@)),
{
    let mut r = String::new();
    let mut i: usize = 0;
    while i < entries.len()
        invariant
            i <= entries@.len(),
            r@ == render(views(entries@.subrange(0, i as int))),
        decreases entries@.len() - i,
    {
        let line = entry_line(entries[i].as_str());
        r.append(line.as_str());
        assert(views(entries@.subrange(0, i + 1)).drop_last() =~= views(
            entries@.subrange(0, i as int),
        ));
        i = i + 1;
    }
    assert(entries@.subrange(0, entries@.len() as int) =~= entries@);
    r
}

/// Reading on after a finished line through text without a newline keeps
/// that text as the unfinished line.
proof fn lemma_scan_partial(prefix: Seq<char>, tail: Seq<char>)
    requires
        scan(prefix).1 == Seq::<char>::empty(),
        !tail.contains('\n'),
    ensures
        scan(prefix + tail) == (scan(prefix).0, tail),
    decreases tail.len(),
{
    if tail.len() == 0 {
        assert(prefix + tail =~= prefix);
    } else {
        let shorter = tail.drop_last();
        assert(!shorter.contains('\n')) by {
            if shorter.contains('\n') {
                let k = choose|k: int| 0 <= k < shorter.len() && shorter[k] == '\n';
                assert(tail[k] == '\n');
            }
        }
        lemma_scan_partial(prefix, shorter);
        assert((prefix + tail).drop_last() =~= prefix + shorter);
        assert(tail.last() != '\n') by {
            assert(tail[tail.len() - 1] == tail.last());
        }
        assert(shorter.push(tail.last()) =~= tail);
    }
}

/// A rendered list is read back as complete lines, each record unchanged.
proof fn lemma_scan_render(entries: Seq<Seq<char>>)
    requires
        forall|i: int| 0 <= i < entries.len() ==> is_record(#[trigger] entries[i]),
    ensures
        scan(render(entries)) == (entries, Seq::<char>::empty()),
    decreases entries.len(),
{
    if entries.len() > 0 {
        let before = entries.drop_last();
        let e = entries.last();
        assert(is_record(entries[entries.len() - 1]));
        lemma_scan_render(before);
        lemma_scan_partial(render(before), e);
        let text = render(entries);
        assert(text =~= (render(before) + e).push('\n'));
        assert(text.drop_last() =~= render(before) + e);
        assert(strip_cr(e) == e);
        assert(before.push(e) =~= entries);
    }
}

/// Whatever sequence of records is added to a freshly created list, listing
/// the list yields exactly those records, in the order they were added,
/// duplicates included.
pub proof fn lemma_round_trip(entries: Seq<Seq<char>>)
    requires
        forall|i: int| 0 <= i < entries.len() ==> is_record(#[trigger] entries[i]),
    ensures
        lines_of(render(entries)) == entries,
{
    lemma_scan_render(entries);
}

/// Appending one more record to a list file written from `entries` yields
/// the file of `entries` followed by that record.
pub proof fn lemma_append(entries: Seq<Seq<char>>, entry: Seq<char>)
    requires
        forall|i: int| 0 <= i < entries.len() ==> is_record(#[trigger] entries[i]),
        is_record(entry),
    ensures
        render(entries) + line_of(entry) == render(entries.push(entry)),
        lines_of(render(entries) + line_of(entry)) == entries.push(entry),
{
    assert(entries.push(entry).drop_last() =~= entries);
    assert forall|i: int| 0 <= i < entries.push(entry).len() implies is_record(
        #[trigger] entries.push(entry)[i],
    ) by {
        if i < entries.len() {
            assert(entries.push(entry)[i] == entries[i]);
        }
    }
    lemma_round_trip(entries.push(entry));
}

} // verus!
