use vstd::prelude::*;

use crate::path_map::PathMap;

verus! {

/// The number of context lines a diff uses when none is asked for.
pub const DEFAULT_CONTEXT_LINES: u32 = 3;

/// The context-line setting of a working-directory diff: the requested number,
/// or the default when zero is requested; a number that does not fit in a `u32`
/// is refused.
pub fn diff_context_lines(context_lines: usize) -> (r: Result<u32, core::num::TryFromIntError>)
    ensures
        match r {
            Ok(n) => (context_lines == 0 && n == DEFAULT_CONTEXT_LINES) || (context_lines != 0
                && n == context_lines),
            Err(_) => context_lines > u32::MAX,
        },
{
    if context_lines == 0 {
        Ok(DEFAULT_CONTEXT_LINES)
    } else {
        u32::try_from(context_lines)
    }
}

/// One printed line of a patch: the file it belongs to, its origin marker and its text.
pub struct DiffLine {
    pub path: String,
    pub origin: char,
    pub content: String,
}

/// Whether a line origin is one that is printed in front of the line:
/// an addition, a deletion or a context line.
pub open spec fn origin_is_printed(origin: char) -> bool {
    origin == '+' || origin == '-' || origin == ' '
}

/// The text a line contributes to its file's diff: its origin marker, when that
/// is printed, followed by its content.
pub open spec fn rendered_line(origin: char, content: Seq<char>) -> Seq<char> {
    if origin_is_printed(origin) {
        seq![origin] + content
    } else {
        content
    }
}

/// The path of the line before position `i`, or the empty path at the start.
pub open spec fn previous_path(lines: Seq<DiffLine>, i: int) -> Seq<char> {
    if i <= 0 {
        Seq::empty()
    } else {
        lines[i - 1].path@
    }
}

/// The diff text by file of a sequence of lines. The empty path starts out with
/// empty text; each line then extends its file's text when it continues the
/// file of the line before it, and otherwise starts that file's text afresh.
pub open spec fn diff_by_file(lines: Seq<DiffLine>) -> Map<Seq<char>, Seq<char>>
    decreases lines.len(),
{
    if lines.len() == 0 {
        Map::empty().insert(Seq::empty(), Seq::empty())
    } else {
        let n = lines.len() - 1;
        let before = diff_by_file(lines.drop_last());
        let l = lines[n];
        let text = rendered_line(l.origin, l.content@);
        if previous_path(lines, n) == l.path@ {
            before.insert(l.path@, before[l.path@] + text)
        } else {
            before.insert(l.path@, text)
        }
    }
}

/// `String::push`: appends one character.
#[verifier::external_body]
fn push_char(s: &mut String, c: char)
    ensures
        final(s)@ == old(s)@.push(c),
{
    s.push(c);
}

/// Appends the rendering of one line to `text`.
fn append_line(text: &mut String, line: &DiffLine)
    ensures
        final(text)@ == old(text)@ + rendered_line(line.origin, line.content@),
{
    if line.origin == '+' || line.origin == '-' || line.origin == ' ' {
        push_char(text, line.origin);
    }
    text.append(line.content.as_str());
    proof {
        if origin_is_printed(line.origin) {
            assert(old(text)@.push(line.origin) + line.content@ =~= old(text)@ + (seq![line.origin]
                + line.content@));
        } else {
            assert(old(text)@ + Seq::<char>::empty() + line.content@ =~= old(text)@ + line.content@);
        }
    }
}

/// Groups the printed lines of a working-directory diff by file.
pub fn group_diff_lines(lines: &Vec<DiffLine>) -> (r: PathMap<String>)
    ensures
        r@.dom() == diff_by_file(lines@).dom(),
        forall|p: Seq<char>| #[trigger] r@.contains_key(p) ==> r@[p]@ == diff_by_file(lines@)[p],
{
    let mut done: PathMap<String> = PathMap::new();
    let mut current = String::new();
    let mut last_path = String::new();
    let mut i: usize = 0;
    while i < lines.len()
        invariant
            i <= lines@.len(),
            last_path@ == previous_path(lines@, i as int),
            done@.dom().insert(last_path@) == diff_by_file(lines@.take(i as int)).dom(),
            forall|p: Seq<char>| #[trigger] done@.contains_key(p) && p != last_path@
                ==> done@[p]@ == diff_by_file(lines@.take(i as int))[p],
            current@ == diff_by_file(lines@.take(i as int))[last_path@],
        decreases lines@.len() - i,
    {
        let line = &lines[i];
        let ghost pre = lines@.take(i as int);
        let ghost post = lines@.take(i + 1);
        proof {
            assert(post.drop_last() == pre);
            assert(previous_path(post, i as int) == previous_path(lines@, i as int));
        }
        if line.path == last_path {
            append_line(&mut current, line);
        } else {
            done.insert(last_path, current);
            current = String::new();
            append_line(&mut current, line);
            last_path = line.path.clone();
        }
        proof {
            assert(previous_path(lines@, i + 1) == line.path@);
            assert(done@.dom().insert(last_path@) =~= diff_by_file(post).dom());
        }
        i = i + 1;
    }
    done.insert(last_path, current);
    proof {
        assert(lines@.take(lines@.len() as int) == lines@);
    }
    done
}

/// The files that a diff's lines belong to, and the empty path.
pub open spec fn diff_files(lines: Seq<DiffLine>) -> Set<Seq<char>> {
    Set::new(|p: Seq<char>| p == Seq::<char>::empty() || exists|i: int| 0 <= i < lines.len() && #[trigger] lines[i].path@ == p)
}

/// The grouped diff has an entry for every file that has a line, and one for
/// the empty path, and for nothing else.
pub proof fn law_diff_has_every_file(lines: Seq<DiffLine>)
    ensures
        diff_by_file(lines).dom() == diff_files(lines),
    decreases lines.len(),
{
    if lines.len() > 0 {
        let pre = lines.drop_last();
        law_diff_has_every_file(pre);
        assert forall|p: Seq<char>| #[trigger] diff_files(lines).contains(p) == (diff_files(pre).contains(p)
            || p == lines.last().path@) by {
            if diff_files(pre).contains(p) && p != Seq::<char>::empty() {
                let i = choose|i: int| 0 <= i < pre.len() && #[trigger] pre[i].path@ == p;
                assert(lines[i].path@ == p);
            }
            if diff_files(lines).contains(p) && p != Seq::<char>::empty() && p != lines.last().path@ {
                let i = choose|i: int| 0 <= i < lines.len() && #[trigger] lines[i].path@ == p;
                assert(pre[i].path@ == p);
            }
            if p == lines.last().path@ {
                assert(lines[lines.len() - 1].path@ == p);
            }
        }
        assert(diff_by_file(lines).dom() =~= diff_files(lines));
    } else {
        assert(diff_by_file(lines).dom() =~= diff_files(lines));
    }
}

/// The rendering of a run of lines, one after the other.
pub open spec fn rendered_lines(lines: Seq<DiffLine>) -> Seq<char>
    decreases lines.len(),
{
    if lines.len() == 0 {
        Seq::empty()
    } else {
        rendered_lines(lines.drop_last()) + rendered_line(lines.last().origin, lines.last().content@)
    }
}

/// When all lines belong to one file, that file's text is its lines rendered in
/// order.
pub proof fn law_single_file_text(lines: Seq<DiffLine>, path: Seq<char>)
    requires
        lines.len() > 0,
        forall|i: int| 0 <= i < lines.len() ==> #[trigger] lines[i].path@ == path,
    ensures
        diff_by_file(lines)[path] == rendered_lines(lines),
    decreases lines.len(),
{
    let pre = lines.drop_last();
    if pre.len() > 0 {
        law_single_file_text(pre, path);
        assert(previous_path(lines, lines.len() - 1) == lines[lines.len() - 2].path@);
    } else {
        let l = lines[0];
        assert(rendered_lines(pre) =~= Seq::<char>::empty());
        if previous_path(lines, 0) == l.path@ {
            assert(diff_by_file(pre)[l.path@] == Seq::<char>::empty());
        }
        assert(Seq::<char>::empty() + rendered_line(l.origin, l.content@) =~= rendered_line(l.origin, l.content@));
    }
}

/// For any lines, a file's text is the rendering, in order, of every line of
/// its last contiguous run: the run `start..end` of lines of the file `p`,
/// preceded by a line of another file (or the start) and followed by no line
/// of `p`.
pub proof fn law_file_text_is_its_last_run(lines: Seq<DiffLine>, p: Seq<char>, start: int, end: int)
    requires
        0 <= start < end <= lines.len(),
        forall|k: int| start <= k < end ==> #[trigger] lines[k].path@ == p,
        start == 0 || lines[start - 1].path@ != p,
        forall|k: int| end <= k < lines.len() ==> #[trigger] lines[k].path@ != p,
    ensures
        diff_by_file(lines).contains_key(p),
        diff_by_file(lines)[p] == rendered_lines(lines.subrange(start, end)),
    decreases lines.len(),
{
    let n = lines.len() - 1;
    let pre = lines.drop_last();
    let l = lines[n];
    let text = rendered_line(l.origin, l.content@);
    if end < lines.len() {
        assert(lines[n].path@ != p);
        assert forall|k: int| start <= k < end implies #[trigger] pre[k].path@ == p by {
            assert(lines[k].path@ == p);
        }
        assert forall|k: int| end <= k < pre.len() implies #[trigger] pre[k].path@ != p by {
            assert(lines[k].path@ != p);
        }
        if start > 0 {
            assert(pre[start - 1] == lines[start - 1]);
        }
        law_file_text_is_its_last_run(pre, p, start, end);
        assert(pre.subrange(start, end) =~= lines.subrange(start, end));
    } else {
        assert(l.path@ == p);
        let run = lines.subrange(start, end);
        assert(run.drop_last() =~= lines.subrange(start, end - 1));
        assert(run.last() == l);
        if end - start >= 2 {
            assert(lines[n - 1].path@ == p);
            assert(previous_path(lines, n) == p);
            assert forall|k: int| start <= k < end - 1 implies #[trigger] pre[k].path@ == p by {
                assert(lines[k].path@ == p);
            }
            if start > 0 {
                assert(pre[start - 1] == lines[start - 1]);
            }
            law_file_text_is_its_last_run(pre, p, start, end - 1);
            assert(pre.subrange(start, end - 1) =~= lines.subrange(start, end - 1));
        } else {
            assert(rendered_lines(lines.subrange(start, end - 1)) =~= Seq::<char>::empty()) by {
                assert(lines.subrange(start, end - 1) =~= Seq::<DiffLine>::empty());
            }
            assert(Seq::<char>::empty() + text =~= text);
            if n == 0 {
                assert(pre =~= Seq::<DiffLine>::empty());
                assert(diff_by_file(pre) == Map::<Seq<char>, Seq<char>>::empty().insert(
                    Seq::<char>::empty(),
                    Seq::<char>::empty(),
                ));
                if previous_path(lines, n) == l.path@ {
                    assert(diff_by_file(pre)[l.path@] == Seq::<char>::empty());
                }
            } else {
                assert(lines[n - 1].path@ != p);
            }
        }
    }
}

/// The empty path's text is empty unless some line has the empty path.
pub proof fn law_empty_path_text(lines: Seq<DiffLine>)
    requires
        forall|k: int| 0 <= k < lines.len() ==> #[trigger] lines[k].path@ != Seq::<char>::empty(),
    ensures
        diff_by_file(lines).contains_key(Seq::<char>::empty()),
        diff_by_file(lines)[Seq::<char>::empty()] == Seq::<char>::empty(),
    decreases lines.len(),
{
    if lines.len() > 0 {
        let pre = lines.drop_last();
        assert(lines[lines.len() - 1].path@ != Seq::<char>::empty());
        assert forall|k: int| 0 <= k < pre.len() implies #[trigger] pre[k].path@ != Seq::<char>::empty() by {
            assert(lines[k].path@ != Seq::<char>::empty());
        }
        law_empty_path_text(pre);
    }
}

/// An added, deleted or context line is written with its marker in front;
/// any other line (a file or hunk header, for instance) is written as it is.
pub proof fn law_line_markers(origin: char, content: Seq<char>)
    ensures
        (origin == '+' || origin == '-' || origin == ' ') ==> rendered_line(origin, content).len()
            == content.len() + 1 && rendered_line(origin, content)[0] == origin && rendered_line(
            origin,
            content,
        ).subrange(1, content.len() + 1int) == content,
        !(origin == '+' || origin == '-' || origin == ' ') ==> rendered_line(origin, content) == content,
{
    if origin == '+' || origin == '-' || origin == ' ' {
        assert(rendered_line(origin, content).subrange(1, content.len() + 1int) =~= content);
    }
}

} // verus!
