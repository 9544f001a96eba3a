use vstd::prelude::*;
use vstd::string::StrSliceExecFns;
use vstd::string::StringExecFns;

verus! {

/// One mount request read from the manifest: the location to mount and
/// whether the attempt must proceed anonymously. Created from one non-empty
/// manifest line and immutable afterwards.
#[derive(Debug, PartialEq)]
pub struct MountEntry {
    pub mount_path: String,
    pub is_anonymous: bool,
}

/// Mathematical model of a `MountEntry`.
pub struct MountEntryView {
    pub mount_path: Seq<char>,
    pub is_anonymous: bool,
}

impl View for MountEntry {
    type V = MountEntryView;

    open spec fn view(&self) -> MountEntryView {
        MountEntryView { mount_path: self.mount_path@, is_anonymous: self.is_anonymous }
    }
}

/// Number of characters of `s` before its first newline (all of `s` if it
/// has none).
pub open spec fn line_len(s: Seq<char>) -> nat
    decreases s.len(),
{
    if s.len() == 0 {
        0
    } else if s[0] == '\n' {
        0
    } else {
        1 + line_len(s.drop_first())
    }
}

/// A line that was terminated by a newline loses one carriage return
/// directly before it.
pub open spec fn chomp_cr(line: Seq<char>) -> Seq<char> {
    if line.len() > 0 && line.last() == '\r' {
        line.drop_last()
    } else {
        line
    }
}

/// The lines of a manifest text: split at each newline, a carriage return
/// directly before a newline dropped, and a final newline optional.
pub open spec fn lines_of(s: Seq<char>) -> Seq<Seq<char>>
    decreases s.len(),
{
    if s.len() == 0 {
        Seq::empty()
    } else if line_len(s) >= s.len() {
        seq![s]
    } else {
        seq![chomp_cr(s.take(line_len(s) as int))] + lines_of(s.skip(line_len(s) as int + 1))
    }
}

/// The non-empty lines of a manifest text, in file order.
pub open spec fn nonempty_lines(s: Seq<char>) -> Seq<Seq<char>> {
    lines_of(s).filter(|l: Seq<char>| l.len() > 0)
}

/// The marker that requests an anonymous mount when it opens a line.
pub open spec fn anon_marker() -> Seq<char> {
    "[anonymous]"@
}

/// The request denoted by one non-empty manifest line: a line opened by the
/// anonymous marker has the marker stripped and the anonymous flag set; any
/// other line is the location itself, never validated further.
pub open spec fn entry_of_line(line: Seq<char>) -> MountEntryView {
    if line.len() >= anon_marker().len() && line.take(anon_marker().len() as int)
        == anon_marker() {
        MountEntryView { mount_path: line.skip(anon_marker().len() as int), is_anonymous: true }
    } else {
        MountEntryView { mount_path: line, is_anonymous: false }
    }
}

/// All requests a manifest text denotes: one per non-empty line, in file
/// order.
pub open spec fn entries_of(s: Seq<char>) -> Seq<MountEntryView> {
    nonempty_lines(s).map_values(|l: Seq<char>| entry_of_line(l))
}

proof fn lemma_line_len_is_first(s: Seq<char>, m: int)
    requires
        0 <= m <= s.len(),
        forall|k: int| 0 <= k < m ==> s[k] != '\n',
        m < s.len() ==> s[m] == '\n',
    ensures
        line_len(s) == m,
    decreases m,
{
    if m == 0 {
    } else {
        assert(s[0] != '\n');
        let t = s.drop_first();
        assert forall|k: int| 0 <= k < m - 1 implies t[k] != '\n' by {
            assert(t[k] == s[k + 1]);
        }
        assert(m - 1 < t.len() ==> t[m - 1] == s[m]);
        lemma_line_len_is_first(t, m - 1);
    }
}

/// The entries contributed by one line: one if the line is non-empty, none
/// otherwise.
spec fn head_entries(line: Seq<char>) -> Seq<MountEntryView> {
    if line.len() > 0 {
        seq![entry_of_line(line)]
    } else {
        Seq::empty()
    }
}

proof fn lemma_entries_of_nil(s: Seq<char>)
    requires
        s.len() == 0,
    ensures
        entries_of(s) == Seq::<MountEntryView>::empty(),
{
    assert(lines_of(s) == Seq::<Seq<char>>::empty());
    assert(nonempty_lines(s) =~= Seq::<Seq<char>>::empty());
    assert(entries_of(s) =~= Seq::<MountEntryView>::empty());
}

proof fn lemma_entries_of_single(line: Seq<char>)
    ensures
        seq![line].filter(|l: Seq<char>| l.len() > 0).map_values(
            |l: Seq<char>| entry_of_line(l),
        ) =~= head_entries(line),
{
    reveal(Seq::filter);
    let pred = |l: Seq<char>| l.len() > 0;
    assert(seq![line].drop_last() =~= Seq::<Seq<char>>::empty());
    assert(Seq::<Seq<char>>::empty().filter(pred) =~= Seq::<Seq<char>>::empty());
    assert(seq![line].last() == line);
    if line.len() > 0 {
        assert(seq![line].filter(pred) =~= seq![line]);
    } else {
        assert(seq![line].filter(pred) =~= Seq::<Seq<char>>::empty());
    }
}

proof fn lemma_entries_of_step(s: Seq<char>)
    requires
        s.len() > 0,
    ensures
        line_len(s) >= s.len() ==> entries_of(s) == seq![entry_of_line(s)],
        line_len(s) < s.len() ==> entries_of(s) == head_entries(
            chomp_cr(s.take(line_len(s) as int)),
        ) + entries_of(s.skip(line_len(s) as int + 1)),
{
    let pred = |l: Seq<char>| l.len() > 0;
    let f = |l: Seq<char>| entry_of_line(l);
    if line_len(s) >= s.len() {
        assert(lines_of(s) == seq![s]);
        lemma_entries_of_single(s);
        assert(head_entries(s) == seq![entry_of_line(s)]);
        assert(entries_of(s) =~= seq![entry_of_line(s)]);
    } else {
        let line = chomp_cr(s.take(line_len(s) as int));
        let rest = s.skip(line_len(s) as int + 1);
        assert(lines_of(s) == seq![line] + lines_of(rest));
        Seq::filter_distributes_over_add(seq![line], lines_of(rest), pred);
        lemma_entries_of_single(line);
        assert(nonempty_lines(s) == seq![line].filter(pred) + nonempty_lines(rest));
        assert(entries_of(s) =~= seq![line].filter(pred).map_values(f) + nonempty_lines(
            rest,
        ).map_values(f));
        assert(seq![line].filter(pred).map_values(f) =~= head_entries(line));
    }
}

/// Turns manifest text into the mount requests it lists: one request per
/// non-empty line, in file order. A line opened by the literal marker
/// `[anonymous]` has the marker stripped and the request marked anonymous;
/// every other non-empty line becomes a non-anonymous request for the whole
/// line. Blank lines are skipped silently, and no line is ever rejected.
pub fn parse_entries(content: &str) -> (entries: Vec<MountEntry>)
    ensures
        entries@.map_values(|e: MountEntry| e@) == entries_of(content@),
{
    let len = content.unicode_len();
    let mut entries: Vec<MountEntry> = Vec::new();
    let mut pos: usize = 0;
    proof {
        lemma_entries_of_nil(Seq::<char>::empty());
        assert(entries@.map_values(|e: MountEntry| e@) =~= Seq::<MountEntryView>::empty());
        assert(content@.skip(0) =~= content@);
    }
    while pos < len
        invariant
            len == content@.len(),
            pos <= len,
            entries@.map_values(|e: MountEntry| e@) + entries_of(content@.skip(pos as int))
                == entries_of(content@),
        decreases len - pos,
    {
        // Scan to the terminating newline of the current line, or to the end
        // of the text.
        let mut j = pos;
        while j < len && content.get_char(j) != '\n'
            invariant
                len == content@.len(),
                pos <= j <= len,
                forall|k: int| pos <= k < j ==> content@[k] != '\n',
            decreases len - j,
        {
            j = j + 1;
        }
        // A carriage return directly before the newline is not part of the
        // line.
        let mut end = j;
        if j < len && j > pos {
            if content.get_char(j - 1) == '\r' {
                end = j - 1;
            }
        }
        let ghost t = content@.skip(pos as int);
        let ghost line = content@.subrange(pos as int, end as int);
        proof {
            assert forall|k: int| 0 <= k < j - pos implies t[k] != '\n' by {
                assert(t[k] == content@[pos + k]);
            }
            lemma_line_len_is_first(t, j - pos);
            lemma_entries_of_step(t);
            if j < len {
                assert(t.take(line_len(t) as int) =~= content@.subrange(pos as int, j as int));
                assert(chomp_cr(t.take(line_len(t) as int)) =~= line);
                assert(t.skip(line_len(t) as int + 1) =~= content@.skip(j + 1));
                assert(entries_of(t) == head_entries(line) + entries_of(content@.skip(j + 1)));
            } else {
                assert(t =~= line);
                assert(entries_of(t) == seq![entry_of_line(line)]);
                assert(head_entries(line) == seq![entry_of_line(line)]);
                lemma_entries_of_nil(content@.skip(len as int));
                assert(entries_of(t) =~= head_entries(line) + entries_of(
                    content@.skip(len as int),
                ));
            }
        }
        if end > pos {
            let mut is_anonymous = false;
            if end - pos >= 11 {
                let head = content.substring_char(pos, pos + 11);
                if String::from_str(head) == String::from_str("[anonymous]") {
                    is_anonymous = true;
                }
                proof {
                    reveal_strlit("[anonymous]");
                    assert(anon_marker().len() == 11);
                    assert(head@ =~= line.take(11));
                    assert(is_anonymous <==> line.take(11) == anon_marker());
                }
            } else {
                proof {
                    reveal_strlit("[anonymous]");
                    assert(anon_marker().len() == 11);
                }
            }
            let mount_path = if is_anonymous {
                content.substring_char(pos + 11, end).to_owned()
            } else {
                content.substring_char(pos, end).to_owned()
            };
            let entry = MountEntry { mount_path, is_anonymous };
            proof {
                if is_anonymous {
                    assert(entry.mount_path@ =~= line.skip(11));
                }
                assert(entry@ == entry_of_line(line));
            }
            let ghost before = entries@;
            entries.push(entry);
            proof {
                assert(entries@.map_values(|e: MountEntry| e@) =~= before.map_values(
                    |e: MountEntry| e@,
                ).push(entry_of_line(line)));
                assert(before.map_values(|e: MountEntry| e@).push(entry_of_line(line))
                    =~= before.map_values(|e: MountEntry| e@) + head_entries(line));
            }
        } else {
            proof {
                assert(line.len() == 0);
                assert(head_entries(line) =~= Seq::<MountEntryView>::empty());
            }
        }
        let ghost new_pos: int = if j < len {
            j + 1
        } else {
            len as int
        };
        proof {
            assert(entries@.map_values(|e: MountEntry| e@) + entries_of(content@.skip(new_pos))
                =~= entries_of(content@));
        }
        pos = if j < len {
            j + 1
        } else {
            len
        };
    }
    proof {
        lemma_entries_of_nil(content@.skip(pos as int));
        assert(entries@.map_values(|e: MountEntry| e@) + Seq::<MountEntryView>::empty()
            =~= entries@.map_values(|e: MountEntry| e@));
    }
    entries
}

/// Law: every manifest yields exactly one request per non-empty line, in
/// file order; a request is anonymous if and only if its line opens with the
/// anonymous marker, and the stored location is the line with the marker
/// stripped if it was present, the whole line otherwise.
pub proof fn lemma_one_request_per_line(s: Seq<char>)
    ensures
        entries_of(s).len() == nonempty_lines(s).len(),
        forall|i: int|
            0 <= i < entries_of(s).len() ==> #[trigger] entries_of(s)[i] == entry_of_line(
                nonempty_lines(s)[i],
            ),
        forall|i: int|
            0 <= i < entries_of(s).len() ==> ((#[trigger] entries_of(s)[i]).is_anonymous
                <==> (nonempty_lines(s)[i].len() >= anon_marker().len() && nonempty_lines(s)[i].take(
                anon_marker().len() as int,
            ) == anon_marker())),
        forall|i: int|
            0 <= i < entries_of(s).len() ==> (#[trigger] entries_of(s)[i]).mount_path == (
            if entries_of(s)[i].is_anonymous {
                nonempty_lines(s)[i].skip(anon_marker().len() as int)
            } else {
                nonempty_lines(s)[i]
            }),
{
}

} // verus!
