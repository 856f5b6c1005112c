use vstd::prelude::*;
use vstd::seq_lib::to_multiset_insert;
use vstd::utf8::encode_utf8;
use vstd::string::StringExecFns;
use crate::session::files::{info_shown, FileInfo, FileInfoView};
use crate::text::{chars_of, find_char, first_at, first_at_is_first, same_chars, slice_of, string_of, text_eq};

verus! {

/// Longest file content handed out in full, in characters.
pub const MAX_FILE_CONTENT: usize = 2000;

/// Most rows of a table handed out by one query.
pub const MAX_CSV_ROWS: usize = 20;

/// True iff `c` is whitespace, as `char::is_whitespace` tells it.
pub uninterp spec fn is_space(c: char) -> bool;

/// `char::is_whitespace`. The contract gives the result a name.
#[verifier::external_body]
pub(crate) fn space_char(c: char) -> (r: bool)
    ensures
        r == is_space(c),
{
    c.is_whitespace()
}

/// Index of the last whitespace character among the first `upto`, or -1 if
/// there is none.
pub open spec fn last_space(s: Seq<char>, upto: int) -> int
    decreases upto,
{
    if upto <= 0 || upto > s.len() {
        -1
    } else if is_space(s[upto - 1]) {
        upto - 1
    } else {
        last_space(s, upto - 1)
    }
}

/// `s` cut to at most `max` characters. A longer text is cut at its last
/// whitespace within the first `max` characters, if that lies beyond half
/// of `max`; otherwise after `max` characters.
pub open spec fn truncated(s: Seq<char>, max: nat) -> Seq<char> {
    if s.len() <= max {
        s
    } else if last_space(s, max as int) > max / 2 {
        s.take(last_space(s, max as int))
    } else {
        s.take(max as int)
    }
}

/// Cuts `s` to at most `max_chars` characters, at a word boundary where
/// one lies in the second half.
pub fn truncate_string(s: &str, max_chars: usize) -> (r: String)
    ensures
        r@ == truncated(s@, max_chars as nat),
        r@.len() <= max_chars || r@ == s@,
{
    let chars = chars_of(s);
    if chars.len() <= max_chars {
        return string_of(&chars, 0, chars.len());
    }
    let mut i: usize = max_chars;
    while i > 0 && !space_char(chars[i - 1])
        invariant
            i <= max_chars < chars.len(),
            last_space(chars@, max_chars as int) == last_space(chars@, i as int),
        decreases i,
    {
        i -= 1;
    }
    if i > 0 && i - 1 > max_chars / 2 {
        string_of(&chars, 0, i - 1)
    } else {
        string_of(&chars, 0, max_chars)
    }
}

/// The content of a file as it is handed out: whole if it has at most
/// [`MAX_FILE_CONTENT`] characters, else cut, with a note of its full
/// length.
pub open spec fn clipped(content: Seq<char>) -> Seq<char> {
    if content.len() > MAX_FILE_CONTENT {
        truncated(content, MAX_FILE_CONTENT as nat) + "...\n[Truncated: "@ + crate::text::decimal_of(
            content.len(),
        ) + " chars total]"@
    } else {
        content
    }
}

/// Cuts the content of a file to what is handed out.
pub fn clip_content(content: &str) -> (r: String)
    ensures
        r@ == clipped(content@),
{
    let n = content.unicode_len();
    if n > MAX_FILE_CONTENT {
        let mut out = truncate_string(content, MAX_FILE_CONTENT);
        out.append("...\n[Truncated: ");
        crate::text::push_decimal(&mut out, n as u64);
        out.append(" chars total]");
        out
    } else {
        String::from_str(content)
    }
}

/// The lines of `s` from position `from` on. A line ends at a line feed;
/// the line feed, and a carriage return right before it, are not part of
/// the line. What follows the last line feed is a line if it is not
/// empty.
pub open spec fn lines_from(s: Seq<char>, from: int) -> Seq<Seq<char>>
    decreases s.len() - from,
    via lines_from_ends
{
    if from < 0 || from >= s.len() {
        Seq::empty()
    } else {
        let feed = first_at(s, '\n', from);
        if feed >= s.len() {
            seq![s.subrange(from, s.len() as int)]
        } else if feed > from && s[feed - 1] == '\r' {
            seq![s.subrange(from, feed - 1)] + lines_from(s, feed + 1)
        } else {
            seq![s.subrange(from, feed)] + lines_from(s, feed + 1)
        }
    }
}

#[via_fn]
proof fn lines_from_ends(s: Seq<char>, from: int) {
    if 0 <= from < s.len() {
        first_at_is_first(s, '\n', from);
    }
}

/// The characters of a vector are its deep view.
pub proof fn chars_deep_view(v: Vec<char>)
    ensures
        v.deep_view() == v@,
{
    assert(v.deep_view() =~= v@);
}

/// The lines of `s`.
pub fn lines_of(s: &Vec<char>) -> (r: Vec<Vec<char>>)
    ensures
        r.deep_view() == lines_from(s@, 0),
{
    let mut r: Vec<Vec<char>> = Vec::new();
    let mut from: usize = 0;
    while from < s.len()
        invariant
            from <= s.len(),
            lines_from(s@, 0) == r.deep_view() + lines_from(s@, from as int),
        decreases s.len() - from,
    {
        let ghost before = r.deep_view();
        let feed = find_char(s, '\n', from);
        if feed >= s.len() {
            let line = slice_of(s, from, s.len());
            proof {
                chars_deep_view(line);
            }
            r.push(line);
            assert(r.deep_view() == before.push(line@));
            assert(before + seq![line@] == before.push(line@));
            from = s.len();
        } else {
            let end = if feed > from && s[feed - 1] == '\r' {
                feed - 1
            } else {
                feed
            };
            let line = slice_of(s, from, end);
            proof {
                chars_deep_view(line);
            }
            r.push(line);
            assert(r.deep_view() == before.push(line@));
            assert(before + (seq![line@] + lines_from(s@, feed + 1)) == before.push(line@)
                + lines_from(s@, feed + 1));
            from = feed + 1;
        }
    }
    assert(lines_from(s@, from as int) == Seq::<Seq<char>>::empty());
    assert(r.deep_view() + Seq::<Seq<char>>::empty() == r.deep_view());
    r
}

/// True iff `part` occurs in `s`.
pub open spec fn holds(s: Seq<char>, part: Seq<char>) -> bool {
    exists|i: int| 0 <= i && i + part.len() <= s.len() && #[trigger] s.subrange(i, i + part.len()) == part
}

/// True iff `part` occurs in `s`.
pub fn contains_chars(s: &Vec<char>, part: &Vec<char>) -> (r: bool)
    ensures
        r == holds(s@, part@),
{
    if part.len() > s.len() {
        return false;
    }
    let last = s.len() - part.len();
    let mut i: usize = 0;
    loop
        invariant
            i <= last,
            last == s.len() - part.len(),
            forall|k: int| 0 <= k < i ==> #[trigger] s@.subrange(k, k + part.len()) != part@,
        decreases last - i,
    {
        let piece = slice_of(s, i, i + part.len());
        if same_chars(&piece, part) {
            return true;
        }
        if i == last {
            return false;
        }
        i += 1;
    }
}

/// The rows that a query hands out: from row `from` on, those that hold
/// `filter`, or all where there is no filter, `limit` of them at most.
pub open spec fn picked(
    rows: Seq<Seq<char>>,
    filter: Option<Seq<char>>,
    from: int,
    limit: nat,
) -> Seq<Seq<char>>
    decreases rows.len() - from,
{
    if from < 0 || from >= rows.len() || limit == 0 {
        Seq::empty()
    } else if filter is None || holds(rows[from], filter->0) {
        seq![rows[from]] + picked(rows, filter, from + 1, (limit - 1) as nat)
    } else {
        picked(rows, filter, from + 1, limit)
    }
}

/// The lines, each followed by a line feed.
pub open spec fn lines_written(lines: Seq<Seq<char>>) -> Seq<char>
    decreases lines.len(),
{
    if lines.len() == 0 {
        Seq::empty()
    } else {
        lines_written(lines.drop_last()) + lines.last() + seq!['\n']
    }
}

/// The number of rows that a query hands out at most: what was asked for,
/// but never more than [`MAX_CSV_ROWS`], and that many where nothing was
/// asked for.
pub open spec fn row_limit(limit: Option<usize>) -> nat {
    match limit {
        Some(n) => if n < MAX_CSV_ROWS {
            n as nat
        } else {
            MAX_CSV_ROWS as nat
        },
        None => MAX_CSV_ROWS as nat,
    }
}

/// What a query makes of the content of a table: the header line and the
/// rows picked, each on a line of its own; nothing for an empty file.
pub open spec fn rows_selected(
    content: Seq<char>,
    filter: Option<Seq<char>>,
    limit: Option<usize>,
) -> Seq<char> {
    let lines = lines_from(content, 0);
    if lines.len() == 0 {
        Seq::empty()
    } else {
        lines_written(seq![lines[0]] + picked(lines, filter, 1, row_limit(limit)))
    }
}

/// Picks rows of a table given as text: the header line, then the rows
/// that hold `filter`, up to the limit.
pub fn select_rows(content: &str, filter: Option<&str>, limit: Option<usize>) -> (r: String)
    ensures
        r@ == rows_selected(content@, filter.deep_view(), limit),
{
    let most = match limit {
        Some(n) => if n < MAX_CSV_ROWS {
            n
        } else {
            MAX_CSV_ROWS
        },
        None => MAX_CSV_ROWS,
    };
    let chars = chars_of(content);
    let lines = lines_of(&chars);
    let mut out = String::new();
    if lines.len() == 0 {
        return out;
    }
    let part = match filter {
        Some(f) => Some(chars_of(f)),
        None => None,
    };
    let ghost all = lines.deep_view();
    let ghost wanted = filter.deep_view();
    push_line(&mut out, &lines[0]);
    proof {
        chars_deep_view(lines[0]);
        if part is Some {
            chars_deep_view(part->0);
        }
    }
    assert(all[0] == lines[0]@);
    let ghost mut written: Seq<Seq<char>> = seq![all[0]];
    assert(lines_written(written) == all[0] + seq!['\n']) by {
        assert(written.drop_last() == Seq::<Seq<char>>::empty());
        assert(lines_written(written.drop_last()) == Seq::<char>::empty());
    }
    let mut taken: usize = 0;
    let mut i: usize = 1;
    while i < lines.len() && taken < most
        invariant
            1 <= i <= lines.len(),
            taken <= most,
            all == lines.deep_view(),
            wanted == filter.deep_view(),
            part.deep_view() == wanted,
            out@ == lines_written(written),
            seq![all[0]] + picked(all, wanted, 1, most as nat) == written + picked(
                all,
                wanted,
                i as int,
                (most - taken) as nat,
            ),
        decreases lines.len() - i,
    {
        proof {
            chars_deep_view(lines[i as int]);
            if part is Some {
                chars_deep_view(part->0);
            }
        }
        assert(all[i as int] == lines[i as int]@);
        let fits = match &part {
            Some(p) => contains_chars(&lines[i], p),
            None => true,
        };
        if fits {
            push_line(&mut out, &lines[i]);
            proof {
                let next = written.push(all[i as int]);
                assert(next.drop_last() == written);
                assert(written + (seq![all[i as int]] + picked(
                    all,
                    wanted,
                    i + 1,
                    (most - taken - 1) as nat,
                )) == next + picked(all, wanted, i + 1, (most - taken - 1) as nat));
                written = next;
            }
            taken += 1;
        }
        i += 1;
    }
    proof {
        assert(picked(all, wanted, i as int, (most - taken) as nat) == Seq::<Seq<char>>::empty());
        assert(written + Seq::<Seq<char>>::empty() == written);
    }
    out
}

fn push_line(out: &mut String, line: &Vec<char>)
    ensures
        final(out)@ == old(out)@ + line@ + seq!['\n'],
{
    let mut i: usize = 0;
    while i < line.len()
        invariant
            i <= line.len(),
            out@ == old(out)@ + line@.take(i as int),
        decreases line.len() - i,
    {
        out.push(line[i]);
        assert(line@.take(i + 1) == line@.take(i as int).push(line@[i as int]));
        i += 1;
    }
    assert(line@.take(line.len() as int) == line@);
    out.push('\n');
    assert(out@ == old(out)@ + line@ + seq!['\n']);
}

/// True iff, from position `from` on, `a` comes before `b` or is `b`, byte
/// by byte: at the first position where they differ `a` has the smaller
/// byte, or `a` ends there.
pub open spec fn bytes_le(a: Seq<u8>, b: Seq<u8>, from: int) -> bool
    decreases a.len() - from,
{
    if from < 0 || from >= a.len() {
        true
    } else if from >= b.len() {
        false
    } else if a[from] != b[from] {
        a[from] < b[from]
    } else {
        bytes_le(a, b, from + 1)
    }
}

/// True iff the name `a` sorts before the name `b` or is `b`: names are
/// ordered by their bytes.
pub open spec fn name_le(a: Seq<char>, b: Seq<char>) -> bool {
    bytes_le(encode_utf8(a), encode_utf8(b), 0)
}

/// Of two names one sorts before the other, or they are in either order.
pub proof fn bytes_le_total(a: Seq<u8>, b: Seq<u8>, from: int)
    requires
        0 <= from,
    ensures
        bytes_le(a, b, from) || bytes_le(b, a, from),
    decreases a.len() - from,
{
    if from < a.len() && from < b.len() && a[from] == b[from] {
        bytes_le_total(a, b, from + 1);
    }
}

/// The order of names is transitive.
pub proof fn bytes_le_transitive(a: Seq<u8>, b: Seq<u8>, c: Seq<u8>, from: int)
    requires
        0 <= from,
        bytes_le(a, b, from),
        bytes_le(b, c, from),
    ensures
        bytes_le(a, c, from),
    decreases a.len() - from,
{
    if from < a.len() && a[from] == b[from] && b[from] == c[from] {
        bytes_le_transitive(a, b, c, from + 1);
    }
}

/// True iff the files are in the order of their names.
pub open spec fn sorted_by_name(files: Seq<FileInfoView>) -> bool {
    forall|i: int, j: int|
        0 <= i < j < files.len() ==> name_le(
            (#[trigger] files[i]).filename,
            (#[trigger] files[j]).filename,
        )
}

/// Where a file named `name` goes into files that are in order: after
/// every file whose name sorts before it or is the same, which is the
/// index of the first file at or after `from` whose name sorts after it,
/// or `files.len()` if there is none.
pub open spec fn place_of(files: Seq<FileInfoView>, name: Seq<char>, from: int) -> int
    decreases files.len() - from,
{
    if from < 0 || from >= files.len() {
        files.len() as int
    } else if !name_le(files[from].filename, name) {
        from
    } else {
        place_of(files, name, from + 1)
    }
}

/// The files in the order of their names; files of one name keep the
/// order in which they came.
pub open spec fn sorted_files(files: Seq<FileInfoView>) -> Seq<FileInfoView>
    decreases files.len(),
{
    if files.len() == 0 {
        Seq::empty()
    } else {
        let before = sorted_files(files.drop_last());
        before.insert(place_of(before, files.last().filename, 0), files.last())
    }
}

/// True iff the name `a` sorts before the name `b` or is `b`.
pub fn name_sorts_before(a: &str, b: &str) -> (r: bool)
    ensures
        r == name_le(a@, b@),
{
    let x = a.as_bytes();
    let y = b.as_bytes();
    let mut i: usize = 0;
    while i < x.len()
        invariant
            i <= x.len(),
            x@ == encode_utf8(a@),
            y@ == encode_utf8(b@),
            name_le(a@, b@) == bytes_le(x@, y@, i as int),
        decreases x.len() - i,
    {
        if i >= y.len() {
            return false;
        }
        if x[i] != y[i] {
            return x[i] < y[i];
        }
        i += 1;
    }
    true
}

/// The files that an editing session may consult.
pub struct ContextManager {
    file_index: Vec<FileInfo>,
}

/// Index of the first file at or after `from` named `name`, or
/// `files.len()` if there is none.
pub open spec fn first_file(files: Seq<FileInfoView>, name: Seq<char>, from: int) -> int
    decreases files.len() - from,
{
    if from < 0 || from >= files.len() {
        files.len() as int
    } else if files[from].filename == name {
        from
    } else {
        first_file(files, name, from + 1)
    }
}

/// The first `n` files as lines of a listing, each `- ` and the file's
/// display form.
pub open spec fn listing(files: Seq<FileInfoView>, n: nat) -> Seq<char>
    decreases n,
{
    if n == 0 {
        Seq::empty()
    } else {
        listing(files, (n - 1) as nat) + "- "@ + info_shown(files[n - 1]) + "\n"@
    }
}

/// Appends the listing of `files` to `out`.
pub fn push_listing(out: &mut String, files: &Vec<FileInfo>)
    ensures
        final(out)@ == old(out)@ + listing(files.deep_view(), files.len() as nat),
{
    let ghost all = files.deep_view();
    let mut i: usize = 0;
    while i < files.len()
        invariant
            i <= files.len(),
            all == files.deep_view(),
            out@ == old(out)@ + listing(all, i as nat),
        decreases files.len() - i,
    {
        let ghost before = listing(all, i as nat);
        let line = files[i].display();
        out.append("- ");
        out.append(line.as_str());
        out.append("\n");
        assert(all[i as int] == files[i as int]@);
        assert(out@ == old(out)@ + (before + "- "@ + info_shown(all[i as int]) + "\n"@));
        i += 1;
    }
}

impl ContextManager {
    /// The indexed files, in order.
    pub closed spec fn files(&self) -> Seq<FileInfoView> {
        self.file_index.deep_view()
    }

    /// A manager for the given files, which it puts in the order of their
    /// names.
    pub fn from_index(files: Vec<FileInfo>) -> (r: Self)
        ensures
            r.files() == sorted_files(files.deep_view()),
            sorted_by_name(r.files()),
            r.files().to_multiset() == files.deep_view().to_multiset(),
    {
        let ghost all = files.deep_view();
        let mut sorted: Vec<FileInfo> = Vec::new();
        let mut i: usize = 0;
        assert(all.take(0) == sorted.deep_view());
        while i < files.len()
            invariant
                i <= files.len(),
                all == files.deep_view(),
                sorted.deep_view() == sorted_files(all.take(i as int)),
                sorted_by_name(sorted.deep_view()),
                sorted.deep_view().to_multiset() == all.take(i as int).to_multiset(),
            decreases files.len() - i,
        {
            let file = files[i].copy();
            let ghost before = sorted.deep_view();
            let mut at: usize = 0;
            while at < sorted.len() && name_sorts_before(
                sorted[at].filename.as_str(),
                file.filename.as_str(),
            )
                invariant
                    at <= sorted.len(),
                    before == sorted.deep_view(),
                    place_of(before, file@.filename, 0) == place_of(
                        before,
                        file@.filename,
                        at as int,
                    ),
                    forall|k: int|
                        0 <= k < at ==> name_le((#[trigger] before[k]).filename, file@.filename),
                decreases sorted.len() - at,
            {
                assert(before[at as int] == sorted[at as int]@);
                at += 1;
            }
            proof {
                if at < sorted.len() {
                    assert(before[at as int] == sorted[at as int]@);
                    bytes_le_total(
                        encode_utf8(before[at as int].filename),
                        encode_utf8(file@.filename),
                        0,
                    );
                }
            }
            sorted.insert(at, file);
            proof {
                let after = sorted.deep_view();
                assert(after == before.insert(at as int, file@));
                assert forall|x: int, y: int| 0 <= x < y < after.len() implies name_le(
                    (#[trigger] after[x]).filename,
                    (#[trigger] after[y]).filename,
                ) by {
                    if y < at {
                        assert(after[x] == before[x] && after[y] == before[y]);
                    } else if y == at {
                        assert(after[x] == before[x]);
                    } else if x == at {
                        assert(after[y] == before[y - 1]);
                        if y - 1 > at {
                            assert(name_le(before[at as int].filename, before[y - 1].filename));
                            bytes_le_transitive(
                                encode_utf8(file@.filename),
                                encode_utf8(before[at as int].filename),
                                encode_utf8(before[y - 1].filename),
                                0,
                            );
                        }
                    } else if x < at {
                        assert(after[x] == before[x] && after[y] == before[y - 1]);
                    } else {
                        assert(after[x] == before[x - 1] && after[y] == before[y - 1]);
                    }
                }
                to_multiset_insert(before, at as int, file@);
                assert(all.take(i + 1).drop_last() == all.take(i as int));
                assert(all.take(i + 1).last() == all[i as int]);
                assert(all.take(i + 1) == all.take(i as int).push(all[i as int]));
                vstd::seq_lib::to_multiset_build(all.take(i as int), all[i as int]);
                assert(all[i as int] == file@);
            }
            i += 1;
        }
        assert(all.take(files.len() as int) == all);
        ContextManager { file_index: sorted }
    }

    /// Number of indexed files.
    pub fn file_count(&self) -> (n: usize)
        ensures
            n == self.files().len(),
    {
        self.file_index.len()
    }

    /// All indexed files.
    pub fn list_files(&self) -> (r: &Vec<FileInfo>)
        ensures
            r.deep_view() == self.files(),
    {
        &self.file_index
    }

    /// The first indexed file named `filename`.
    pub fn get_file_info(&self, filename: &str) -> (r: Option<&FileInfo>)
        ensures
            match r {
                Some(info) => first_file(self.files(), filename@, 0) < self.files().len()
                    && info@ == self.files()[first_file(self.files(), filename@, 0)],
                None => first_file(self.files(), filename@, 0) == self.files().len(),
            },
    {
        let mut i: usize = 0;
        while i < self.file_index.len()
            invariant
                i <= self.file_index.len(),
                first_file(self.files(), filename@, 0) == first_file(
                    self.files(),
                    filename@,
                    i as int,
                ),
            decreases self.file_index.len() - i,
        {
            assert(self.files()[i as int] == self.file_index[i as int]@);
            if text_eq(self.file_index[i].filename.as_str(), filename) {
                return Some(&self.file_index[i]);
            }
            i += 1;
        }
        None
    }

    /// The listing of all indexed files, one line each.
    pub fn build_file_index_summary(&self) -> (s: String)
        ensures
            s@ == listing(self.files(), self.files().len()),
    {
        let mut out = String::new();
        push_listing(&mut out, &self.file_index);
        out
    }
}

} // verus!
