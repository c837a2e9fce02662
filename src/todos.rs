//! The comment grammar: finds `// TODO(<ticket>)` markers, with an optional
//! `: <message>`, in lines of source text.

use vstd::prelude::*;

use crate::text::chars_of;

verus! {

/// A space or a tab: what may stand between `//` and `TODO(`, and around the
/// colon that introduces a message.
pub open spec fn is_blank(c: char) -> bool {
    c == ' ' || c == '\t'
}

/// The first index at or after `i` that does not hold a blank (or the length).
pub open spec fn skip_blanks(s: Seq<char>, i: int) -> int
    decreases s.len() - i,
{
    if 0 <= i < s.len() && is_blank(s[i]) {
        skip_blanks(s, i + 1)
    } else {
        i
    }
}

/// The first index at or after `i` that holds `)` (or the length).
pub open spec fn find_close(s: Seq<char>, i: int) -> int
    decreases s.len() - i,
{
    if 0 <= i < s.len() && s[i] != ')' {
        find_close(s, i + 1)
    } else {
        i
    }
}

/// `s` holds `TODO(` at index `w`.
pub open spec fn opens_todo(s: Seq<char>, w: int) -> bool {
    &&& 0 <= w
    &&& w + 5 <= s.len()
    &&& s[w] == 'T'
    &&& s[w + 1] == 'O'
    &&& s[w + 2] == 'D'
    &&& s[w + 3] == 'O'
    &&& s[w + 4] == '('
}

/// A marker starts at index `i`: `//`, blanks, `TODO(`, at least one char
/// other than `)`, then `)`.
pub open spec fn marker_at(s: Seq<char>, i: int) -> bool {
    &&& 0 <= i
    &&& i + 1 < s.len()
    &&& s[i] == '/'
    &&& s[i + 1] == '/'
    &&& opens_todo(s, skip_blanks(s, i + 2))
    &&& skip_blanks(s, i + 2) + 5 < find_close(s, skip_blanks(s, i + 2) + 5) < s.len()
}

/// The leftmost index at or after `i` where a marker starts.
pub open spec fn first_marker(s: Seq<char>, i: int) -> Option<int>
    decreases s.len() - i,
{
    if 0 <= i < s.len() {
        if marker_at(s, i) {
            Some(i)
        } else {
            first_marker(s, i + 1)
        }
    } else {
        None
    }
}

/// Where the parts of the leftmost marker of a line lie: the ticket's start and
/// end, and the message's start (it runs to the end of the line) where a colon
/// follows the closing parenthesis, blanks aside.
pub open spec fn marker_parts(s: Seq<char>) -> Option<(int, int, Option<int>)> {
    match first_marker(s, 0) {
        None => None,
        Some(i) => {
            let lo = skip_blanks(s, i + 2) + 5;
            let hi = find_close(s, lo);
            let j = skip_blanks(s, hi + 1);
            let message = if j < s.len() && s[j] == ':' {
                Some(skip_blanks(s, j + 1))
            } else {
                None
            };
            Some((lo, hi, message))
        },
    }
}

/// What a line says: its ticket and, where a colon follows the marker, its
/// message (empty where nothing follows the colon).
pub open spec fn parse_todo(s: Seq<char>) -> Option<(Seq<char>, Option<Seq<char>>)> {
    match marker_parts(s) {
        None => None,
        Some((lo, hi, m)) => Some(
            (
                s.subrange(lo, hi),
                match m {
                    Some(k) => Some(s.subrange(k, s.len() as int)),
                    None => None,
                },
            ),
        ),
    }
}

/// The content of an optional string.
pub open spec fn opt_view(o: Option<String>) -> Option<Seq<char>> {
    match o {
        Some(s) => Some(s@),
        None => None,
    }
}

/// An optional index, as an integer.
pub open spec fn opt_int(o: Option<usize>) -> Option<int> {
    match o {
        Some(k) => Some(k as int),
        None => None,
    }
}

/// A marker found in a line: the ticket it names and its message, if any.
#[derive(Debug, PartialEq, Eq)]
pub struct Todo {
    pub ticket_id: String,
    pub message: Option<String>,
}

impl View for Todo {
    type V = (Seq<char>, Option<Seq<char>>);

    open spec fn view(&self) -> Self::V {
        (self.ticket_id@, opt_view(self.message))
    }
}

fn skip_blanks_from(s: &Vec<char>, i: usize) -> (r: usize)
    requires
        i <= s.len(),
    ensures
        r as int == skip_blanks(s@, i as int),
        i <= r <= s.len(),
{
    let mut j = i;
    while j < s.len() && (s[j] == ' ' || s[j] == '\t')
        invariant
            i <= j <= s.len(),
            skip_blanks(s@, i as int) == skip_blanks(s@, j as int),
        decreases s.len() - j,
    {
        j = j + 1;
    }
    j
}

fn find_close_from(s: &Vec<char>, i: usize) -> (r: usize)
    requires
        i <= s.len(),
    ensures
        r as int == find_close(s@, i as int),
        i <= r <= s.len(),
{
    let mut j = i;
    while j < s.len() && s[j] != ')'
        invariant
            i <= j <= s.len(),
            find_close(s@, i as int) == find_close(s@, j as int),
        decreases s.len() - j,
    {
        j = j + 1;
    }
    j
}

fn is_marker_at(s: &Vec<char>, i: usize) -> (r: bool)
    requires
        i < s.len(),
    ensures
        r == marker_at(s@, i as int),
{
    if i + 1 >= s.len() || s[i] != '/' || s[i + 1] != '/' {
        return false;
    }
    let w = skip_blanks_from(s, i + 2);
    if s.len() - w < 5 {
        return false;
    }
    if s[w] != 'T' || s[w + 1] != 'O' || s[w + 2] != 'D' || s[w + 3] != 'O' || s[w + 4] != '(' {
        return false;
    }
    let c = find_close_from(s, w + 5);
    w + 5 < c && c < s.len()
}

/// Locates the parts of the leftmost marker of a line.
fn find_marker(s: &Vec<char>) -> (r: Option<(usize, usize, Option<usize>)>)
    ensures
        r is None <==> marker_parts(s@) is None,
        r matches Some((lo, hi, m)) ==> marker_parts(s@) == Some(
            (lo as int, hi as int, opt_int(m)),
        ),
        r matches Some((lo, hi, m)) ==> lo <= hi <= s.len() && (m matches Some(k) ==> k
            <= s.len()),
{
    let mut i: usize = 0;
    while i < s.len()
        invariant
            i <= s.len(),
            first_marker(s@, 0) == first_marker(s@, i as int),
        decreases s.len() - i,
    {
        if is_marker_at(s, i) {
            let lo = skip_blanks_from(s, i + 2) + 5;
            let hi = find_close_from(s, lo);
            let j = skip_blanks_from(s, hi + 1);
            let message = if j < s.len() && s[j] == ':' {
                Some(skip_blanks_from(s, j + 1))
            } else {
                None
            };
            return Some((lo, hi, message));
        }
        i = i + 1;
    }
    None
}

/// Reads the marker of `line`, whose chars stand in `src` from index `start`
/// on; the ticket and message are copied out of `src`.
fn todo_in(src: &str, start: usize, line: &Vec<char>) -> (r: Option<Todo>)
    requires
        start + line.len() <= src@.len(),
        start + line.len() <= usize::MAX,
        line@ == src@.subrange(start as int, start + line.len()),
    ensures
        r matches Some(t) ==> parse_todo(line@) == Some(t@),
        r is None <==> parse_todo(line@) is None,
{
    match find_marker(line) {
        None => None,
        Some((lo, hi, m)) => {
            let ticket_id = String::from_str(src.substring_char(start + lo, start + hi));
            assert(ticket_id@ =~= line@.subrange(lo as int, hi as int));
            let message = match m {
                Some(k) => {
                    let msg = String::from_str(src.substring_char(start + k, start + line.len()));
                    assert(msg@ =~= line@.subrange(k as int, line.len() as int));
                    Some(msg)
                },
                None => None,
            };
            Some(Todo { ticket_id, message })
        },
    }
}

impl Todo {
    /// Reads the marker of one line of source text (a line holds no newline);
    /// `None` where it has none.
    pub fn parse(line: &str) -> (r: Option<Todo>)
        ensures
            r matches Some(t) ==> parse_todo(line@) == Some(t@),
            r is None <==> parse_todo(line@) is None,
    {
        let cs = chars_of(line);
        assert(cs@ =~= line@.subrange(0, cs.len() as int));
        todo_in(line, 0, &cs)
    }
}

/// A marker as it stands in a file: the file's path, the 1-based number of its
/// line, its ticket and its message.
pub struct TodoModel {
    pub file: Seq<char>,
    pub line: nat,
    pub ticket_id: Seq<char>,
    pub message: Option<Seq<char>>,
}

/// A marker found in a file, with the file's path and its 1-based line number.
#[derive(Debug, PartialEq, Eq)]
pub struct TodoInCode {
    pub file: String,
    pub line: usize,
    pub ticket_id: String,
    pub message: Option<String>,
}

impl View for TodoInCode {
    type V = TodoModel;

    open spec fn view(&self) -> TodoModel {
        TodoModel {
            file: self.file@,
            line: self.line as nat,
            ticket_id: self.ticket_id@,
            message: opt_view(self.message),
        }
    }
}

impl Todo {
    /// Places the marker in a file, at a line.
    pub fn with_location(self, file: String, line: usize) -> (r: TodoInCode)
        ensures
            r.file@ == file@,
            r.line == line,
            r.ticket_id@ == self.ticket_id@,
            opt_view(r.message) == opt_view(self.message),
    {
        let Todo { ticket_id, message } = self;
        TodoInCode { file, line, ticket_id, message }
    }
}

/// Drops a carriage return that ends a line.
pub open spec fn strip_cr(l: Seq<char>) -> Seq<char> {
    if l.len() > 0 && l.last() == '\r' {
        l.drop_last()
    } else {
        l
    }
}

/// Splitting a text read from its start: the lines closed by a newline so far
/// (each without its `\r\n` or `\n`), and the line still open.
pub open spec fn line_state(t: Seq<char>) -> (Seq<Seq<char>>, Seq<char>)
    decreases t.len(),
{
    if t.len() == 0 {
        (Seq::empty(), Seq::empty())
    } else {
        let (done, open) = line_state(t.drop_last());
        if t.last() == '\n' {
            (done.push(strip_cr(open)), Seq::empty())
        } else {
            (done, open.push(t.last()))
        }
    }
}

/// The lines of a text: a final newline ends the last line and opens no
/// empty one.
pub open spec fn lines_of(t: Seq<char>) -> Seq<Seq<char>> {
    let (done, open) = line_state(t);
    if open.len() > 0 {
        done.push(open)
    } else {
        done
    }
}

/// The markers of the lines `ls` of the file `file`, in line order; the line
/// at index `k` is numbered `k + 1`.
pub open spec fn todos_of_lines(file: Seq<char>, ls: Seq<Seq<char>>) -> Seq<TodoModel>
    decreases ls.len(),
{
    if ls.len() == 0 {
        Seq::empty()
    } else {
        let before = todos_of_lines(file, ls.drop_last());
        match parse_todo(ls.last()) {
            Some((ticket_id, message)) => before.push(
                TodoModel { file, line: ls.len(), ticket_id, message },
            ),
            None => before,
        }
    }
}

/// The markers of a file with path `file` and content `text`.
pub open spec fn todos_of_text(file: Seq<char>, text: Seq<char>) -> Seq<TodoModel> {
    todos_of_lines(file, lines_of(text))
}

/// The models of a sequence of markers.
pub open spec fn models(v: Seq<TodoInCode>) -> Seq<TodoModel> {
    v.map_values(|x: TodoInCode| x@)
}

/// Appends the marker of `line`, if it has one, as line `n` of `file`.
fn push_line_todo(
    out: &mut Vec<TodoInCode>,
    file: &str,
    n: usize,
    src: &str,
    start: usize,
    line: &Vec<char>,
)
    requires
        start + line.len() <= src@.len(),
        start + line.len() <= usize::MAX,
        line@ == src@.subrange(start as int, start + line.len()),
    ensures
        models(final(out)@) == match parse_todo(line@) {
            Some((ticket_id, message)) => models(old(out)@).push(
                TodoModel { file: file@, line: n as nat, ticket_id, message },
            ),
            None => models(old(out)@),
        },
{
    if let Some(todo) = todo_in(src, start, line) {
        let item = todo.with_location(String::from_str(file), n);
        out.push(item);
        assert(models(final(out)@) =~= models(old(out)@).push(item@));
    }
}

/// The markers of one file, given its path and its content.
pub fn todos_in_text(file: &str, text: &str) -> (r: Vec<TodoInCode>)
    ensures
        models(r@) == todos_of_text(file@, text@),
{
    let cs = chars_of(text);
    let mut out: Vec<TodoInCode> = Vec::new();
    let mut open: Vec<char> = Vec::new();
    let mut start: usize = 0;
    let mut n: usize = 0;
    let mut i: usize = 0;
    while i < cs.len()
        invariant
            cs@ == text@,
            i <= cs.len(),
            n <= start,
            start + open.len() == i,
            open@ == text@.subrange(start as int, i as int),
            line_state(text@.take(i as int)).0.len() == n,
            line_state(text@.take(i as int)).1 == open@,
            models(out@) == todos_of_lines(file@, line_state(text@.take(i as int)).0),
        decreases cs.len() - i,
    {
        let c = cs[i];
        let ghost before = line_state(text@.take(i as int));
        assert(text@.take(i + 1).drop_last() =~= text@.take(i as int));
        if c == '\n' {
            if open.len() > 0 && open[open.len() - 1] == '\r' {
                open.pop();
            }
            assert(open@ == strip_cr(before.1));
            assert(open@ =~= text@.subrange(start as int, start + open.len()));
            proof {
                let done = before.0.push(open@);
                assert(done.drop_last() =~= before.0);
            }
            n = n + 1;
            push_line_todo(&mut out, file, n, text, start, &open);
            open = Vec::new();
            start = i + 1;
        } else {
            open.push(c);
        }
        i = i + 1;
    }
    assert(text@.take(i as int) =~= text@);
    if open.len() > 0 {
        proof {
            let done = line_state(text@).0.push(open@);
            assert(done.drop_last() =~= line_state(text@).0);
        }
        push_line_todo(&mut out, file, n + 1, text, start, &open);
    }
    out
}

/// The paths and contents of a sequence of files.
pub open spec fn file_views(files: Seq<(String, String)>) -> Seq<(Seq<char>, Seq<char>)> {
    files.map_values(|f: (String, String)| (f.0@, f.1@))
}

/// The markers of the files `files`, each a path and a content, file after
/// file.
pub open spec fn todos_of_files(files: Seq<(Seq<char>, Seq<char>)>) -> Seq<TodoModel>
    decreases files.len(),
{
    if files.len() == 0 {
        Seq::empty()
    } else {
        todos_of_files(files.drop_last()) + todos_of_text(files.last().0, files.last().1)
    }
}

/// The markers of all the files given, each a path and its content.
pub fn todos(files: Vec<(String, String)>) -> (r: Vec<TodoInCode>)
    ensures
        models(r@) == todos_of_files(file_views(files@)),
{
    let mut out: Vec<TodoInCode> = Vec::new();
    let mut k: usize = 0;
    while k < files.len()
        invariant
            k <= files.len(),
            models(out@) == todos_of_files(file_views(files@).take(k as int)),
        decreases files.len() - k,
    {
        let mut found = todos_in_text(files[k].0.as_str(), files[k].1.as_str());
        let ghost prev = out@;
        let ghost got = found@;
        out.append(&mut found);
        proof {
            let fs = file_views(files@).take(k + 1);
            assert(fs.drop_last() =~= file_views(files@).take(k as int));
            assert(models(out@) =~= models(prev) + models(got));
        }
        k = k + 1;
    }
    assert(file_views(files@).take(k as int) =~= file_views(files@));
    out
}

/// `l` holds, from index `i`, `//`, blanks up to `w`, `TODO(`, chars other
/// than `)` up to `c`, and `)` at `c`, with at least one char between the
/// parentheses.
pub open spec fn marker_text(l: Seq<char>, i: int, w: int, c: int) -> bool {
    &&& 0 <= i
    &&& i + 2 <= w
    &&& w + 5 < c < l.len()
    &&& l[i] == '/'
    &&& l[i + 1] == '/'
    &&& (forall|j: int| i + 2 <= j < w ==> is_blank(#[trigger] l[j]))
    &&& opens_todo(l, w)
    &&& l[c] == ')'
    &&& (forall|j: int| w + 5 <= j < c ==> #[trigger] l[j] != ')')
}

/// `l` holds `// TODO(`, one or more chars other than `)`, and `)`, with any
/// run of blanks (the literal text has one space) between `//` and `TODO(`.
pub open spec fn has_marker_text(l: Seq<char>) -> bool {
    exists|i: int, w: int, c: int| #[trigger] marker_text(l, i, w, c)
}

proof fn lemma_skip_blanks(s: Seq<char>, i: int)
    requires
        0 <= i <= s.len(),
    ensures
        i <= skip_blanks(s, i) <= s.len(),
        forall|j: int| i <= j < skip_blanks(s, i) ==> is_blank(#[trigger] s[j]),
    decreases s.len() - i,
{
    if i < s.len() && is_blank(s[i]) {
        lemma_skip_blanks(s, i + 1);
    }
}

proof fn lemma_find_close(s: Seq<char>, i: int)
    requires
        0 <= i <= s.len(),
    ensures
        i <= find_close(s, i) <= s.len(),
        find_close(s, i) < s.len() ==> s[find_close(s, i)] == ')',
        forall|j: int| i <= j < find_close(s, i) ==> #[trigger] s[j] != ')',
    decreases s.len() - i,
{
    if i < s.len() && s[i] != ')' {
        lemma_find_close(s, i + 1);
    }
}

proof fn lemma_no_marker_from(l: Seq<char>, i: int)
    requires
        0 <= i,
        !has_marker_text(l),
    ensures
        first_marker(l, i) is None,
    decreases l.len() - i,
{
    if i < l.len() {
        if marker_at(l, i) {
            let w = skip_blanks(l, i + 2);
            lemma_skip_blanks(l, i + 2);
            lemma_find_close(l, w + 5);
            assert(marker_text(l, i, w, find_close(l, w + 5)));
        }
        lemma_no_marker_from(l, i + 1);
    }
}

/// A line without `//`, blanks, `TODO(`, a ticket and `)` has no marker.
pub proof fn lemma_no_marker_text_no_todo(l: Seq<char>)
    requires
        !has_marker_text(l),
    ensures
        parse_todo(l) is None,
{
    lemma_no_marker_from(l, 0);
}

/// Each marker found stands on a line, numbered from 1, that has one.
pub proof fn lemma_todos_come_from_marked_lines(file: Seq<char>, ls: Seq<Seq<char>>)
    ensures
        forall|j: int|
            0 <= j < todos_of_lines(file, ls).len() ==> {
                let m = #[trigger] todos_of_lines(file, ls)[j];
                &&& 1 <= m.line <= ls.len()
                &&& parse_todo(ls[m.line - 1]) is Some
            },
    decreases ls.len(),
{
    if ls.len() > 0 {
        lemma_todos_come_from_marked_lines(file, ls.drop_last());
        let before = todos_of_lines(file, ls.drop_last());
        assert forall|j: int| 0 <= j < before.len() implies ls[before[j].line - 1] == ls.drop_last()[
            before[j].line - 1] by {}
    }
}

/// Scanning a file yields nothing for a line without `//`, blanks, `TODO(`, a
/// ticket and `)`.
pub proof fn lemma_unmarked_line_yields_nothing(file: Seq<char>, text: Seq<char>, k: int)
    requires
        0 <= k < lines_of(text).len(),
        !has_marker_text(lines_of(text)[k]),
    ensures
        forall|j: int|
            0 <= j < todos_of_text(file, text).len() ==> (#[trigger] todos_of_text(
                file,
                text,
            )[j]).line != k + 1,
{
    lemma_no_marker_text_no_todo(lines_of(text)[k]);
    lemma_todos_come_from_marked_lines(file, lines_of(text));
}

/// Scanning the same files twice yields the same markers.
pub proof fn lemma_scan_is_repeatable(
    files: Seq<(String, String)>,
    first: Seq<TodoInCode>,
    second: Seq<TodoInCode>,
)
    requires
        models(first) == todos_of_files(file_views(files)),
        models(second) == todos_of_files(file_views(files)),
    ensures
        models(first) == models(second),
{
}

} // verus!
