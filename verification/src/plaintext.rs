//! The plaintext record scanner: splits the audit tool's human-readable
//! report into records and parses each one.
//!
//! A record begins at a line starting with the record marker and ends at
//! the first blank line after it, or at the end of the input.  Inside a
//! record, each line is split on its first colon into a key and a value;
//! unrecognized keys are ignored.  The dependency-tree key switches to
//! block mode, in which the following lines are concatenated verbatim up
//! to the next blank line.  A record lacking a package identifier, a
//! version or a non-empty dependency-tree block is malformed and aborts
//! the whole scan.

use vstd::prelude::*;
use crate::errors::ReportError;
use crate::textfmt::str_eq;

verus! {

/// One parsed record of the plaintext report.  `package`, `version` and
/// `dependency_tree` are always non-empty; the rest is optional.
#[derive(Debug, Clone)]
pub struct VulnerabilityRecord {
    pub package: String,
    pub version: String,
    pub kind: Option<String>,
    pub title: Option<String>,
    pub id: Option<String>,
    pub url: Option<String>,
    pub date: Option<String>,
    pub solution: Option<String>,
    pub dependency_tree: String,
}

/// The ghost image of a record.
#[verifier::ext_equal]
pub ghost struct RecordModel {
    pub package: Seq<char>,
    pub version: Seq<char>,
    pub kind: Option<Seq<char>>,
    pub title: Option<Seq<char>>,
    pub id: Option<Seq<char>>,
    pub url: Option<Seq<char>>,
    pub date: Option<Seq<char>>,
    pub solution: Option<Seq<char>>,
    pub dependency_tree: Seq<char>,
}

pub open spec fn opt_view(o: Option<String>) -> Option<Seq<char>> {
    match o {
        Some(s) => Some(s@),
        None => None,
    }
}

impl View for VulnerabilityRecord {
    type V = RecordModel;

    open spec fn view(&self) -> RecordModel {
        RecordModel {
            package: self.package@,
            version: self.version@,
            kind: opt_view(self.kind),
            title: opt_view(self.title),
            id: opt_view(self.id),
            url: opt_view(self.url),
            date: opt_view(self.date),
            solution: opt_view(self.solution),
            dependency_tree: self.dependency_tree@,
        }
    }
}

/// The first position at or after `from` holding `c`, or the length if
/// there is none.
pub open spec fn find_char(s: Seq<char>, c: char, from: int) -> int
    decreases s.len() - from,
{
    if from < 0 || from >= s.len() {
        s.len() as int
    } else if s[from] == c {
        from
    } else {
        find_char(s, c, from + 1)
    }
}

pub proof fn lemma_find_char(s: Seq<char>, c: char, from: int)
    requires
        0 <= from <= s.len(),
    ensures
        from <= find_char(s, c, from) <= s.len(),
        find_char(s, c, from) < s.len() ==> s[find_char(s, c, from)] == c,
        forall|k: int| from <= k < find_char(s, c, from) ==> s[k] != c,
    decreases s.len() - from,
{
    if from < s.len() && s[from] != c {
        lemma_find_char(s, c, from + 1);
    }
}

/// A string without leading spaces.
pub open spec fn trim_start(s: Seq<char>) -> Seq<char>
    decreases s.len(),
{
    if s.len() > 0 && s[0] == ' ' {
        trim_start(s.drop_first())
    } else {
        s
    }
}

/// A string without trailing spaces.
pub open spec fn trim_end(s: Seq<char>) -> Seq<char>
    decreases s.len(),
{
    if s.len() > 0 && s.last() == ' ' {
        trim_end(s.drop_last())
    } else {
        s
    }
}

/// A string without leading or trailing spaces: how a field value is
/// stored after the split on the colon.
pub open spec fn spec_trim(s: Seq<char>) -> Seq<char> {
    trim_end(trim_start(s))
}

proof fn lemma_trim_start_at(s: Seq<char>, i: int)
    requires
        0 <= i <= s.len(),
        forall|k: int| 0 <= k < i ==> s[k] == ' ',
        i < s.len() ==> s[i] != ' ',
    ensures
        trim_start(s) =~= s.subrange(i, s.len() as int),
    decreases i,
{
    if i == 0 {
        if s.len() > 0 && s[0] == ' ' {
            assert(false);
        }
    } else {
        assert(s.len() > 0 && s[0] == ' ');
        let t = s.drop_first();
        assert forall|k: int| 0 <= k < i - 1 implies t[k] == ' ' by {
            assert(t[k] == s[k + 1]);
        }
        lemma_trim_start_at(t, i - 1);
        assert(t.subrange(i - 1, t.len() as int) =~= s.subrange(i, s.len() as int));
    }
}

proof fn lemma_trim_end_at(s: Seq<char>, e: int)
    requires
        0 <= e <= s.len(),
        forall|k: int| e <= k < s.len() ==> s[k] == ' ',
        e > 0 ==> s[e - 1] != ' ',
    ensures
        trim_end(s) =~= s.subrange(0, e),
    decreases s.len() - e,
{
    if e == s.len() {
        if s.len() > 0 && s.last() == ' ' {
            assert(false);
        }
    } else {
        assert(s.last() == ' ');
        let t = s.drop_last();
        lemma_trim_end_at(t, e);
        assert(t.subrange(0, e) =~= s.subrange(0, e));
    }
}

/// Removes leading and trailing spaces.
pub fn trim_spaces(s: &str) -> (r: String)
    ensures
        r@ == spec_trim(s@),
{
    let len = s.unicode_len();
    let mut i: usize = 0;
    while i < len && s.get_char(i) == ' '
        invariant
            i <= len,
            len == s@.len(),
            forall|k: int| 0 <= k < i ==> s@[k] == ' ',
        decreases len - i,
    {
        i = i + 1;
    }
    proof {
        lemma_trim_start_at(s@, i as int);
    }
    let mut e: usize = len;
    while e > i && s.get_char(e - 1) == ' '
        invariant
            i <= e <= len,
            len == s@.len(),
            forall|k: int| e <= k < len ==> s@[k] == ' ',
        decreases e,
    {
        e = e - 1;
    }
    proof {
        let t = s@.subrange(i as int, len as int);
        assert forall|k: int| e - i <= k < t.len() implies t[k] == ' ' by {
            assert(t[k] == s@[k + i]);
        }
        if e > i {
            assert(t[e - i - 1] == s@[e - 1 as int]);
        }
        lemma_trim_end_at(t, e - i);
        assert(t.subrange(0, e - i) =~= s@.subrange(i as int, e as int));
    }
    let r = s.substring_char(i, e);
    r.to_owned()
}

/// The lines of a text, split on the newline character.  The final line
/// has no terminator; a trailing newline yields a final empty line.
pub open spec fn split_lines(r: Seq<char>) -> Seq<Seq<char>>
    decreases r.len(),
    via split_lines_decreases
{
    let k = find_char(r, '\n', 0);
    if k == r.len() {
        seq![r]
    } else {
        seq![r.subrange(0, k)] + split_lines(r.subrange(k + 1, r.len() as int))
    }
}

#[via_fn]
proof fn split_lines_decreases(r: Seq<char>) {
    lemma_find_char(r, '\n', 0);
}

/// The fields gathered while walking a record's lines, plus whether the
/// walk is inside the dependency-tree block.
#[verifier::ext_equal]
pub ghost struct ParseState {
    pub package: Seq<char>,
    pub version: Seq<char>,
    pub kind: Option<Seq<char>>,
    pub title: Option<Seq<char>>,
    pub id: Option<Seq<char>>,
    pub url: Option<Seq<char>>,
    pub date: Option<Seq<char>>,
    pub solution: Option<Seq<char>>,
    pub tree: Seq<char>,
    pub in_block: bool,
}

/// The state before any line: every field empty or absent.
pub open spec fn init_state() -> ParseState {
    ParseState {
        package: Seq::empty(),
        version: Seq::empty(),
        kind: None,
        title: None,
        id: None,
        url: None,
        date: None,
        solution: None,
        tree: Seq::empty(),
        in_block: false,
    }
}

/// One line's effect on the parse state.  In block mode a non-blank line
/// is appended verbatim to the tree and a blank line ends the block.
/// Outside it, the line is split on its first colon; a recognized key
/// stores its trimmed value, the dependency-tree key enters block mode,
/// and anything else is ignored.
pub open spec fn parse_line(st: ParseState, line: Seq<char>) -> ParseState {
    if st.in_block {
        if line.len() == 0 {
            ParseState { in_block: false, ..st }
        } else {
            ParseState { tree: st.tree + line, ..st }
        }
    } else if line.len() == 0 {
        st
    } else {
        let c = find_char(line, ':', 0);
        if c == line.len() {
            st
        } else {
            let key = line.subrange(0, c);
            let value = spec_trim(line.subrange(c + 1, line.len() as int));
            if key == "Crate"@ {
                ParseState { package: value, ..st }
            } else if key == "Version"@ {
                ParseState { version: value, ..st }
            } else if key == "Warning"@ {
                ParseState { kind: Some(value), ..st }
            } else if key == "Title"@ {
                ParseState { title: Some(value), ..st }
            } else if key == "ID"@ {
                ParseState { id: Some(value), ..st }
            } else if key == "URL"@ {
                ParseState { url: Some(value), ..st }
            } else if key == "Date"@ {
                ParseState { date: Some(value), ..st }
            } else if key == "Solution"@ {
                ParseState { solution: Some(value), ..st }
            } else if key == "Dependency tree"@ {
                ParseState { in_block: true, ..st }
            } else {
                st
            }
        }
    }
}

/// The lines of a record folded through [`parse_line`], in order.
pub open spec fn parse_lines(st: ParseState, lines: Seq<Seq<char>>) -> ParseState
    decreases lines.len(),
{
    if lines.len() == 0 {
        st
    } else {
        parse_line(parse_lines(st, lines.drop_last()), lines.last())
    }
}

/// The record a final parse state yields, if its required fields are all
/// non-empty.
pub open spec fn state_record(st: ParseState) -> RecordModel {
    RecordModel {
        package: st.package,
        version: st.version,
        kind: st.kind,
        title: st.title,
        id: st.id,
        url: st.url,
        date: st.date,
        solution: st.solution,
        dependency_tree: st.tree,
    }
}

/// Whether a final parse state is acceptable: package identifier, version
/// and dependency-tree block all non-empty.
pub open spec fn state_complete(st: ParseState) -> bool {
    st.package.len() > 0 && st.version.len() > 0 && st.tree.len() > 0
}

/// What parsing one raw record text yields: its lines folded through
/// [`parse_line`], accepted only if the required fields are all present.
pub open spec fn spec_parse_record(r: Seq<char>) -> Option<RecordModel> {
    let st = parse_lines(init_state(), split_lines(r));
    if state_complete(st) {
        Some(state_record(st))
    } else {
        None
    }
}

/// The builder the executable parser walks a record with; its ghost image
/// is a [`ParseState`].
struct RecordBuilder {
    package: String,
    version: String,
    kind: Option<String>,
    title: Option<String>,
    id: Option<String>,
    url: Option<String>,
    date: Option<String>,
    solution: Option<String>,
    tree: String,
    in_block: bool,
}

impl View for RecordBuilder {
    type V = ParseState;

    closed spec fn view(&self) -> ParseState {
        ParseState {
            package: self.package@,
            version: self.version@,
            kind: opt_view(self.kind),
            title: opt_view(self.title),
            id: opt_view(self.id),
            url: opt_view(self.url),
            date: opt_view(self.date),
            solution: opt_view(self.solution),
            tree: self.tree@,
            in_block: self.in_block,
        }
    }
}

/// The first position at or after `from` holding `c`, or the length.
fn find_char_from(s: &str, c: char, from: usize) -> (r: usize)
    requires
        from <= s@.len(),
    ensures
        r == find_char(s@, c, from as int),
        from <= r <= s@.len(),
    decreases s@.len() - from,
{
    let len = s.unicode_len();
    if from >= len {
        len
    } else if s.get_char(from) == c {
        from
    } else {
        find_char_from(s, c, from + 1)
    }
}

impl RecordBuilder {
    fn new() -> (r: RecordBuilder)
        ensures
            r@ == init_state(),
    {
        let r = RecordBuilder {
            package: String::new(),
            version: String::new(),
            kind: None,
            title: None,
            id: None,
            url: None,
            date: None,
            solution: None,
            tree: String::new(),
            in_block: false,
        };
        proof {
            assert(r@ =~~= init_state());
        }
        r
    }

    /// Applies one line, exactly as [`parse_line`] prescribes.
    fn line(&mut self, line: &str)
        ensures
            final(self)@ == parse_line(old(self)@, line@),
    {
        let ghost st0 = self@;
        let len = line.unicode_len();
        if self.in_block {
            if len == 0 {
                self.in_block = false;
            } else {
                self.tree.append(line);
            }
            proof {
                assert(self@ =~~= parse_line(st0, line@));
            }
            return ;
        }
        if len == 0 {
            proof {
                assert(self@ =~~= parse_line(st0, line@));
            }
            return ;
        }
        let c = find_char_from(line, ':', 0);
        if c == len {
            proof {
                assert(self@ =~~= parse_line(st0, line@));
            }
            return ;
        }
        let key = line.substring_char(0, c);
        let raw_value = line.substring_char(c + 1, len);
        let value = trim_spaces(raw_value);
        if str_eq(key, "Crate") {
            self.package = value;
        } else if str_eq(key, "Version") {
            self.version = value;
        } else if str_eq(key, "Warning") {
            self.kind = Some(value);
        } else if str_eq(key, "Title") {
            self.title = Some(value);
        } else if str_eq(key, "ID") {
            self.id = Some(value);
        } else if str_eq(key, "URL") {
            self.url = Some(value);
        } else if str_eq(key, "Date") {
            self.date = Some(value);
        } else if str_eq(key, "Solution") {
            self.solution = Some(value);
        } else if str_eq(key, "Dependency tree") {
            self.in_block = true;
        }
        proof {
            assert(self@ =~~= parse_line(st0, line@));
        }
    }

    /// The record the builder holds, if the required fields are present.
    fn into_record(self) -> (r: Option<VulnerabilityRecord>)
        ensures
            match r {
                Some(v) => state_complete(self@) && v@ == state_record(self@),
                None => !state_complete(self@),
            },
    {
        if self.package.unicode_len() > 0 && self.version.unicode_len() > 0
            && self.tree.unicode_len() > 0 {
            let r = VulnerabilityRecord {
                package: self.package,
                version: self.version,
                kind: self.kind,
                title: self.title,
                id: self.id,
                url: self.url,
                date: self.date,
                solution: self.solution,
                dependency_tree: self.tree,
            };
            proof {
                assert(r@ =~~= state_record(self@));
            }
            Some(r)
        } else {
            None
        }
    }
}

/// Parses one raw record text, line by line.  The malformed-record error
/// comes exactly when a required field is missing or empty.
pub fn parse_record(r: &str) -> (res: Result<VulnerabilityRecord, ReportError>)
    ensures
        match res {
            Result::Ok(v) => spec_parse_record(r@) == Some(v@),
            Result::Err(e) => spec_parse_record(r@) is None && e is MalformedRecord,
        },
{
    let len = r.unicode_len();
    let mut builder = RecordBuilder::new();
    let mut p: usize = 0;
    let mut done = false;
    let ghost mut lines_done: Seq<Seq<char>> = Seq::empty();
    proof {
        assert(r@.subrange(0, len as int) =~= r@);
        assert(split_lines(r@) =~= lines_done + split_lines(r@.subrange(0 as int, len as int)));
    }
    while !done
        invariant
            p <= len,
            len == r@.len(),
            builder@ == parse_lines(init_state(), lines_done),
            !done ==> split_lines(r@) =~= lines_done + split_lines(
                r@.subrange(p as int, len as int),
            ),
            done ==> lines_done =~= split_lines(r@),
        decreases (if done { 0int } else { 1int }), len - p,
    {
        let ghost rest = r@.subrange(p as int, len as int);
        let ghost prev_lines = lines_done;
        let ghost builder_pre = builder@;
        let k = find_char_from(r, '\n', p);
        proof {
            lemma_find_char(r@, '\n', p as int);
            lemma_find_char_subrange(r@, p as int, len as int);
        }
        if k < len {
            let line = r.substring_char(p, k);
            builder.line(line);
            proof {
                let krel = find_char(rest, '\n', 0);
                assert(krel == k - p);
                assert(rest.subrange(0, krel) =~= line@);
                assert(rest.subrange(krel + 1, rest.len() as int) =~= r@.subrange(
                    k + 1 as int,
                    len as int,
                ));
                assert(split_lines(rest) =~= seq![line@] + split_lines(
                    r@.subrange(k + 1 as int, len as int),
                ));
                lines_done = prev_lines.push(line@);
                assert(lines_done.drop_last() =~= prev_lines);
                assert(lines_done.last() == line@);
                assert(builder@ == parse_line(builder_pre, line@));
                assert(builder@ == parse_lines(init_state(), lines_done));
            }
            p = k + 1;
        } else {
            let line = r.substring_char(p, len);
            builder.line(line);
            proof {
                let krel = find_char(rest, '\n', 0);
                assert(krel == rest.len());
                assert(split_lines(rest) =~= seq![rest]);
                assert(rest =~= line@);
                lines_done = prev_lines.push(line@);
                assert(lines_done.drop_last() =~= prev_lines);
                assert(lines_done.last() == line@);
                assert(builder@ == parse_line(builder_pre, line@));
                assert(builder@ == parse_lines(init_state(), lines_done));
                assert(lines_done =~= split_lines(r@));
            }
            done = true;
        }
    }
    match builder.into_record() {
        Some(v) => Ok(v),
        None => Err(
            ReportError::MalformedRecord {
                detail: {
                    let mut d = String::new();
                    d.append("missing package, version or dependency tree");
                    d
                },
            },
        ),
    }
}

/// Whether position `i` starts a line: the very beginning of the text,
/// or the position right after a newline.
pub open spec fn line_start(s: Seq<char>, i: int) -> bool {
    i == 0 || s[i - 1] == '\n'
}

/// Whether a record begins at `i`: a line start holding the record
/// marker.
pub open spec fn marker_at(s: Seq<char>, i: int) -> bool {
    &&& 0 <= i
    &&& i + 6 <= s.len()
    &&& line_start(s, i)
    &&& s.subrange(i, i + 6) == "Crate:"@
}

/// The first record start at or after `from`, or the length if there is
/// none.
pub open spec fn next_marker(s: Seq<char>, from: int) -> int
    decreases s.len() - from,
{
    if from < 0 || from >= s.len() {
        s.len() as int
    } else if marker_at(s, from) {
        from
    } else {
        next_marker(s, from + 1)
    }
}

pub proof fn lemma_next_marker(s: Seq<char>, from: int)
    requires
        0 <= from <= s.len(),
    ensures
        from <= next_marker(s, from) <= s.len(),
        next_marker(s, from) < s.len() ==> marker_at(s, next_marker(s, from)),
        forall|k: int| from <= k < next_marker(s, from) ==> !marker_at(s, k),
    decreases s.len() - from,
{
    if from < s.len() && !marker_at(s, from) {
        lemma_next_marker(s, from + 1);
    }
}

/// Whether a blank line follows position `k`: two consecutive newlines.
pub open spec fn blank_at(s: Seq<char>, k: int) -> bool {
    0 <= k && k + 1 < s.len() && s[k] == '\n' && s[k + 1] == '\n'
}

/// The first blank line at or after `from`, or the length if there is
/// none.
pub open spec fn next_blank(s: Seq<char>, from: int) -> int
    decreases s.len() - from,
{
    if from < 0 || from >= s.len() {
        s.len() as int
    } else if blank_at(s, from) {
        from
    } else {
        next_blank(s, from + 1)
    }
}

pub proof fn lemma_next_blank(s: Seq<char>, from: int)
    requires
        0 <= from <= s.len(),
    ensures
        from <= next_blank(s, from) <= s.len(),
        next_blank(s, from) < s.len() ==> blank_at(s, next_blank(s, from)),
        forall|k: int| from <= k < next_blank(s, from) ==> !blank_at(s, k),
    decreases s.len() - from,
{
    if from < s.len() && !blank_at(s, from) {
        lemma_next_blank(s, from + 1);
    }
}

/// The raw record texts from position `from` on.  Each record runs from
/// its marker to the first blank line after it, or to the end of the
/// input; the scan resumes after the blank line.
pub open spec fn spec_records(s: Seq<char>, from: int) -> Seq<Seq<char>>
    decreases s.len() - from,
    via spec_records_decreases
{
    let st = next_marker(s, from);
    if st >= s.len() {
        Seq::empty()
    } else {
        let e = next_blank(s, st);
        let nxt = if e == s.len() {
            e
        } else {
            e + 2
        };
        seq![s.subrange(st, e)] + spec_records(s, nxt)
    }
}

#[via_fn]
proof fn spec_records_decreases(s: Seq<char>, from: int) {
    if 0 <= from <= s.len() {
        lemma_next_marker(s, from);
        let st = next_marker(s, from);
        if st < s.len() {
            lemma_next_blank(s, st);
        }
    }
}

/// Whether every raw record parses.
pub open spec fn all_records_ok(raws: Seq<Seq<char>>) -> bool {
    forall|i: int| 0 <= i < raws.len() ==> spec_parse_record(#[trigger] raws[i]) is Some
}

/// What scanning the whole report text yields: every record parsed, in
/// order, or nothing at all if any record is malformed.
pub open spec fn spec_scan(s: Seq<char>) -> Option<Seq<RecordModel>> {
    let raws = spec_records(s, 0);
    if all_records_ok(raws) {
        Some(Seq::new(raws.len(), |i: int| spec_parse_record(raws[i])->Some_0))
    } else {
        None
    }
}

/// Whether a record begins at `i`, decided executably.
fn is_marker_at(s: &str, i: usize) -> (r: bool)
    requires
        i <= s@.len(),
    ensures
        r == marker_at(s@, i as int),
{
    let len = s.unicode_len();
    if len - i < 6 {
        return false;
    }
    if i > 0 && s.get_char(i - 1) != '\n' {
        return false;
    }
    let seg = s.substring_char(i, i + 6);
    str_eq(seg, "Crate:")
}

/// The first record start at or after `from`, decided executably.
fn next_marker_from(s: &str, from: usize) -> (r: usize)
    requires
        from <= s@.len(),
    ensures
        r == next_marker(s@, from as int),
        from <= r <= s@.len(),
{
    let len = s.unicode_len();
    let mut i: usize = from;
    while i < len
        invariant
            from <= i <= len,
            len == s@.len(),
            next_marker(s@, from as int) == next_marker(s@, i as int),
        decreases len - i,
    {
        if is_marker_at(s, i) {
            proof {
                lemma_next_marker(s@, i as int);
            }
            return i;
        }
        i = i + 1;
    }
    proof {
        lemma_next_marker(s@, from as int);
    }
    len
}

/// The first blank line at or after `from`, decided executably.
fn next_blank_from(s: &str, from: usize) -> (r: usize)
    requires
        from <= s@.len(),
    ensures
        r == next_blank(s@, from as int),
        from <= r <= s@.len(),
{
    let len = s.unicode_len();
    let mut i: usize = from;
    while i < len
        invariant
            from <= i <= len,
            len == s@.len(),
            next_blank(s@, from as int) == next_blank(s@, i as int),
        decreases len - i,
    {
        let two_left = len - i > 1;
        if two_left && s.get_char(i) == '\n' && s.get_char(i + 1) == '\n' {
            proof {
                lemma_next_blank(s@, i as int);
            }
            return i;
        }
        i = i + 1;
    }
    proof {
        lemma_next_blank(s@, from as int);
    }
    len
}

/// Scans the whole report text: finds each record and parses it.  The
/// first malformed record aborts the scan with its error; there is no way
/// to resynchronize past one.
pub fn scan_records(s: &str) -> (res: Result<Vec<VulnerabilityRecord>, ReportError>)
    ensures
        match res {
            Result::Ok(v) => spec_scan(s@) == Some(
                v@.map_values(|x: VulnerabilityRecord| x@),
            ),
            Result::Err(e) => spec_scan(s@) is None && e is MalformedRecord,
        },
{
    let len = s.unicode_len();
    let mut out: Vec<VulnerabilityRecord> = Vec::new();
    let mut p: usize = 0;
    let mut done = false;
    let ghost mut raws_done: Seq<Seq<char>> = Seq::empty();
    while !done
        invariant
            p <= len,
            len == s@.len(),
            spec_records(s@, 0) =~= raws_done + spec_records(s@, p as int),
            out@.len() == raws_done.len(),
            forall|i: int|
                0 <= i < raws_done.len() ==> spec_parse_record(#[trigger] raws_done[i]) == Some(
                    out@[i]@,
                ),
            done ==> spec_records(s@, p as int) =~= Seq::<Seq<char>>::empty(),
        decreases (if done { 0int } else { 1int }), len - p,
    {
        let ghost prev_raws = raws_done;
        let st = next_marker_from(s, p);
        if st >= len {
            proof {
                assert(spec_records(s@, p as int) =~= Seq::<Seq<char>>::empty());
            }
            done = true;
        } else {
            proof {
                lemma_next_marker(s@, p as int);
                lemma_next_blank(s@, st as int);
            }
            let e = next_blank_from(s, st);
            let rec = s.substring_char(st, e);
            let nxt = if e == len {
                e
            } else {
                e + 2
            };
            proof {
                assert(spec_records(s@, p as int) =~= seq![rec@] + spec_records(
                    s@,
                    nxt as int,
                ));
            }
            match parse_record(rec) {
                Result::Ok(v) => {
                    out.push(v);
                    proof {
                        raws_done = prev_raws.push(rec@);
                        assert(spec_records(s@, 0) =~= raws_done + spec_records(s@, nxt as int));
                    }
                    p = nxt;
                },
                Result::Err(err) => {
                    proof {
                        let raws = spec_records(s@, 0);
                        assert(raws[prev_raws.len() as int] == rec@);
                        assert(spec_parse_record(rec@) is None);
                        assert(!all_records_ok(raws));
                    }
                    return Err(err);
                },
            }
        }
    }
    proof {
        assert(spec_records(s@, 0) =~= raws_done);
        let raws = spec_records(s@, 0);
        assert(all_records_ok(raws));
        assert(Seq::new(raws.len(), |i: int| spec_parse_record(raws[i])->Some_0) =~= out@.map_values(
            |x: VulnerabilityRecord| x@,
        ));
    }
    Ok(out)
}

/// Every raw record text the scanner extracts begins with the record
/// marker and holds no blank line.
pub proof fn lemma_records_shape(s: Seq<char>, from: int, i: int)
    requires
        0 <= from <= s.len(),
        0 <= i < spec_records(s, from).len(),
    ensures
        ({
            let r = spec_records(s, from)[i];
            &&& r.len() >= 6
            &&& r.subrange(0, 6) == "Crate:"@
            &&& forall|k: int| 0 <= k && k + 1 < r.len() ==> !((#[trigger] r[k]) == '\n' && r[k + 1] == '\n')
        }),
    decreases s.len() - from,
{
    reveal_strlit("Crate:");
    lemma_next_marker(s, from);
    let st = next_marker(s, from);
    assert(st < s.len());
    lemma_next_blank(s, st);
    let e = next_blank(s, st);
    let nxt = if e == s.len() {
        e
    } else {
        e + 2
    };
    if i == 0 {
        let r = s.subrange(st, e);
        assert(s.subrange(st, st + 6) == "Crate:"@);
        assert forall|j: int| 0 <= j < 6 implies (#[trigger] s[st + j]) != '\n' by {
            assert(s[st + j] == s.subrange(st, st + 6)[j]);
        }
        assert(e >= st + 6) by {
            if e < st + 6 {
                assert(blank_at(s, e));
                assert(s[e] == '\n');
                assert(s[st + (e - st)] != '\n');
            }
        }
        assert(r.subrange(0, 6) =~= s.subrange(st, st + 6));
        assert forall|k: int| 0 <= k && k + 1 < r.len() implies !((#[trigger] r[k]) == '\n' && r[k + 1]
            == '\n') by {
            assert(!blank_at(s, st + k));
            assert(r[k] == s[st + k] && r[k + 1] == s[st + k + 1]);
        }
    } else {
        lemma_records_shape(s, nxt, i - 1);
        assert(spec_records(s, from)[i] == spec_records(s, nxt)[i - 1]);
    }
}

/// Scanning the raw text of one record that parses yields exactly that
/// record again: record parsing is idempotent on well-formed input.
pub proof fn lemma_rescan_record(r: Seq<char>)
    requires
        r.len() >= 6,
        r.subrange(0, 6) == "Crate:"@,
        forall|k: int| 0 <= k && k + 1 < r.len() ==> !((#[trigger] r[k]) == '\n' && r[k + 1] == '\n'),
        spec_parse_record(r) is Some,
    ensures
        spec_records(r, 0) =~= seq![r],
        spec_scan(r) == Some(seq![spec_parse_record(r)->Some_0]),
{
    assert(marker_at(r, 0));
    assert(next_marker(r, 0) == 0);
    lemma_next_blank(r, 0);
    if next_blank(r, 0) < r.len() {
        assert(blank_at(r, next_blank(r, 0)));
        assert(false);
    }
    assert(r.subrange(0, r.len() as int) =~= r);
    assert(spec_records(r, r.len() as int) =~= Seq::<Seq<char>>::empty());
    assert(spec_records(r, 0) =~= seq![r]);
    let raws = spec_records(r, 0);
    assert(raws[0] == r);
    assert(all_records_ok(raws));
    assert(Seq::new(raws.len(), |i: int| spec_parse_record(raws[i])->Some_0) =~= seq![
        spec_parse_record(r)->Some_0,
    ]);
}

/// The scan is idempotent record by record: feeding the raw text of any
/// record of a successfully scanned report back through the scanner
/// yields exactly the record that the first scan produced, and nothing
/// else.
pub proof fn lemma_scan_idempotent(s: Seq<char>, i: int)
    requires
        spec_scan(s) is Some,
        0 <= i < spec_records(s, 0).len(),
    ensures
        spec_scan(spec_records(s, 0)[i]) == Some(seq![spec_scan(s)->Some_0[i]]),
{
    lemma_records_shape(s, 0, i);
    let r = spec_records(s, 0)[i];
    assert(spec_parse_record(r) is Some);
    lemma_rescan_record(r);
}

/// Looking for a character inside a suffix is looking for it from that
/// position in the whole text, shifted.
proof fn lemma_find_char_subrange(s: Seq<char>, p: int, len: int)
    requires
        0 <= p <= len,
        len == s.len(),
    ensures
        forall|c: char|
            #[trigger] find_char(s.subrange(p, len), c, 0) == find_char(s, c, p) - p,
    decreases len - p,
{
    assert forall|c: char|
        #[trigger] find_char(s.subrange(p, len), c, 0) == find_char(s, c, p) - p by {
        lemma_find_char_shift(s, c, p, 0);
    }
}

proof fn lemma_find_char_shift(s: Seq<char>, c: char, p: int, off: int)
    requires
        0 <= p <= s.len(),
        0 <= off <= s.len() - p,
    ensures
        find_char(s.subrange(p, s.len() as int), c, off) == find_char(s, c, p + off) - p,
    decreases s.len() - p - off,
{
    let t = s.subrange(p, s.len() as int);
    if p + off < s.len() {
        assert(t[off] == s[p + off]);
        if s[p + off] != c {
            lemma_find_char_shift(s, c, p, off + 1);
        }
    }
}

} // verus!
