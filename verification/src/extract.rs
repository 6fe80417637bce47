use vstd::prelude::*;
use vstd::string::*;
use crate::text::find_from;
use crate::text::find_sub;
use crate::text::contains_sub;
use crate::text::starts_with_sub;
use crate::text::trim_spec;
use crate::text::trim_str;
use crate::text::parse_i32;
use crate::text::parse_i32_spec;
use crate::text::lines_spec;
use crate::text::split_lines;
use crate::text::match_at;
use crate::text::lemma_find_from_ensures;

verus! {

/// One structured diagnostic, at the specification level.
pub struct DiagView {
    pub code: Option<Seq<char>>,
    pub message: Seq<char>,
    pub file: Option<Seq<char>>,
    pub line: Option<i32>,
    pub suggestion: Option<Seq<char>>,
}

/// One structured diagnostic taken from a line of tool output.
#[derive(Debug, Clone)]
pub struct ErrorInfo {
    pub code: Option<String>,
    pub message: String,
    pub file: Option<String>,
    pub line: Option<i32>,
    pub suggestion: Option<String>,
}

pub open spec fn opt_view(o: Option<String>) -> Option<Seq<char>> {
    match o {
        Some(s) => Some(s@),
        None => None,
    }
}

impl View for ErrorInfo {
    type V = DiagView;

    open spec fn view(&self) -> DiagView {
        DiagView {
            code: opt_view(self.code),
            message: self.message@,
            file: opt_view(self.file),
            line: self.line,
            suggestion: opt_view(self.suggestion),
        }
    }
}

impl DeepView for ErrorInfo {
    type V = DiagView;

    open spec fn deep_view(&self) -> DiagView {
        self.view()
    }
}

/// A reminder taken from a linter's warning or help line.
#[derive(Debug, Clone)]
pub struct TodoItem {
    pub source: String,
    pub description: String,
}

pub struct TodoItemView {
    pub source: Seq<char>,
    pub description: Seq<char>,
}

impl View for TodoItem {
    type V = TodoItemView;

    open spec fn view(&self) -> TodoItemView {
        TodoItemView { source: self.source@, description: self.description@ }
    }
}

impl DeepView for TodoItem {
    type V = TodoItemView;

    open spec fn deep_view(&self) -> TodoItemView {
        self.view()
    }
}

/// First rule, on a trimmed line: a bracketed code right after the word
/// `error`, a colon, and a message. Yields the code with the trimmed
/// message, or nothing when the shape is not there.
pub open spec fn coded_rule(l: Seq<char>) -> Option<(Seq<char>, Seq<char>)> {
    match find_from(l, "error["@, 0) {
        Some(i) => {
            let after = l.skip(i);
            match find_from(after, "]"@, 0) {
                Some(b) => match find_from(after, ": "@, 0) {
                    Some(c) => Some((after.subrange(6, b), trim_spec(after.skip(c + 2)))),
                    None => None,
                },
                None => None,
            }
        },
        None => None,
    }
}

/// Second rule: a `warning:` keyword with a nonempty trimmed message after it.
pub open spec fn warning_rule(l: Seq<char>) -> Option<Seq<char>> {
    match find_from(l, "warning:"@, 0) {
        Some(w) => {
            let m = trim_spec(l.skip(w + 8));
            if m.len() > 0 {
                Some(m)
            } else {
                None
            }
        },
        None => None,
    }
}

/// The file and line number drawn out of a location token: the text up to
/// the first colon names the file, the text between the first and second
/// colons the line; a second arrow separator disqualifies the token.
pub open spec fn location_fields(loc: Seq<char>) -> Option<(Seq<char>, Option<i32>)> {
    if find_from(loc, " --> "@, 0) is Some {
        None
    } else {
        match find_from(loc, ":"@, 0) {
            Some(c1) => {
                let rest = loc.skip(c1 + 1);
                let part1 = match find_from(rest, ":"@, 0) {
                    Some(j) => rest.take(j),
                    None => rest,
                };
                Some((loc.take(c1), parse_i32_spec(part1)))
            },
            None => None,
        }
    }
}

/// Third rule: one arrow separator, and a `path:line` token with at least
/// one colon after it. A trimmed line that begins with the bare arrow
/// counts too: the toolchain writes the arrow first on its location lines,
/// and trimming takes the separator's own leading blank with it. Yields
/// the location text, the file part, and the parsed line number.
pub open spec fn location_rule(l: Seq<char>) -> Option<(Seq<char>, Seq<char>, Option<i32>)> {
    if match_at(l, "--> "@, 0) {
        match location_fields(l.skip(4)) {
            Some((file, line)) => Some((l.skip(4), file, line)),
            None => None,
        }
    } else {
        match find_from(l, " --> "@, 0) {
            Some(p) => match location_fields(l.skip(p + 5)) {
                Some((file, line)) => Some((l.skip(p + 5), file, line)),
                None => None,
            },
            None => None,
        }
    }
}

/// Fourth rule: a line that begins with `help:`. Yields the trimmed remainder.
pub open spec fn help_rule(l: Seq<char>) -> Option<Seq<char>> {
    if match_at(l, "help:"@, 0) {
        Some(trim_spec(l.skip(5)))
    } else {
        None
    }
}

/// What one raw line of error output yields: the four rules are tried in
/// order and the first that fits wins; a coded line whose message trims to
/// nothing yields no record.
pub open spec fn parse_line_spec(raw: Seq<char>) -> Option<DiagView> {
    let l = trim_spec(raw);
    match coded_rule(l) {
        Some((code, msg)) => if msg.len() > 0 {
            Some(DiagView { code: Some(code), message: msg, file: None, line: None, suggestion: None })
        } else {
            None
        },
        None => match warning_rule(l) {
            Some(msg) => Some(
                DiagView {
                    code: Some("WARNING"@),
                    message: msg,
                    file: None,
                    line: None,
                    suggestion: None,
                },
            ),
            None => match location_rule(l) {
                Some((loc, file, line)) => Some(
                    DiagView {
                        code: None,
                        message: "Error at "@ + loc,
                        file: Some(file),
                        line: line,
                        suggestion: None,
                    },
                ),
                None => match help_rule(l) {
                    Some(sug) => Some(
                        DiagView {
                            code: None,
                            message: "Help"@,
                            file: None,
                            line: None,
                            suggestion: Some(sug),
                        },
                    ),
                    None => None,
                },
            },
        },
    }
}

/// Build the record for one location token, when its fields are there.
fn location_record(loc: &str) -> (r: Option<ErrorInfo>)
    ensures
        (r is Some) == (location_fields(loc@) is Some),
        r matches Some(e) ==> (location_fields(loc@) matches Some(f) && e@ == (DiagView {
            code: None,
            message: "Error at "@ + loc@,
            file: Some(f.0),
            line: f.1,
            suggestion: None,
        })),
{
    if contains_sub(loc, " --> ") {
        return None;
    }
    let loclen = loc.unicode_len();
    if let Some(c1) = find_sub(loc, ":") {
        proof {
            lemma_find_from_ensures(loc@, ":"@, 0);
            reveal_strlit(":");
        }
        let file = loc.substring_char(0, c1).to_owned();
        let rest = loc.substring_char(c1 + 1, loclen);
        proof {
            assert(rest@ =~= loc@.skip(c1 + 1));
        }
        let part1 = match find_sub(rest, ":") {
            Some(j) => {
                proof {
                    lemma_find_from_ensures(rest@, ":"@, 0);
                }
                rest.substring_char(0, j)
            },
            None => rest,
        };
        let line_no = parse_i32(part1);
        let msg = String::from_str("Error at ").concat(loc);
        proof {
            assert(loc@.take(c1 as int) =~= loc@.subrange(0, c1 as int));
        }
        Some(ErrorInfo { code: None, message: msg, file: Some(file), line: line_no, suggestion: None })
    } else {
        None
    }
}

/// Try the third rule on a trimmed line.
fn try_location_rule(l: &str) -> (r: Option<ErrorInfo>)
    ensures
        (r is Some) == (location_rule(l@) is Some),
        r matches Some(e) ==> (location_rule(l@) matches Some(t) && e@ == (DiagView {
            code: None,
            message: "Error at "@ + t.0,
            file: Some(t.1),
            line: t.2,
            suggestion: None,
        })),
{
    let llen = l.unicode_len();
    if starts_with_sub(l, "--> ") {
        proof {
            reveal_strlit("--> ");
        }
        let loc = l.substring_char(4, llen);
        proof {
            assert(loc@ =~= l@.skip(4));
        }
        location_record(loc)
    } else if let Some(p) = find_sub(l, " --> ") {
        proof {
            lemma_find_from_ensures(l@, " --> "@, 0);
            reveal_strlit(" --> ");
        }
        let loc = l.substring_char(p + 5, llen);
        proof {
            assert(loc@ =~= l@.skip(p + 5));
        }
        location_record(loc)
    } else {
        None
    }
}

/// Parse one raw line of error output by the four ordered rules.
pub fn parse_error_line(line: &str) -> (r: Option<ErrorInfo>)
    ensures
        (r is Some) == (parse_line_spec(line@) is Some),
        r matches Some(e) ==> parse_line_spec(line@) == Some(e@),
{
    let l = trim_str(line);
    let llen = l.unicode_len();

    // Rule 1: error[CODE]: message
    if let Some(i) = find_sub(l, "error[") {
        proof {
            lemma_find_from_ensures(l@, "error["@, 0);
            reveal_strlit("error[");
        }
        let after = l.substring_char(i, llen);
        proof {
            assert(after@ =~= l@.skip(i as int));
        }
        let alen = after.unicode_len();
        let b_opt = find_sub(after, "]");
        let c_opt = find_sub(after, ": ");
        if let (Some(b), Some(c)) = (b_opt, c_opt) {
            proof {
                lemma_find_from_ensures(after@, "]"@, 0);
                lemma_find_from_ensures(after@, ": "@, 0);
                reveal_strlit("]");
                reveal_strlit(": ");
                assert(b >= 6) by {
                    assert(l@.subrange(i as int, i + 6) == "error["@);
                    if b < 6 {
                        assert(after@.subrange(b as int, b + 1) == "]"@);
                        assert(after@[b as int] == "]"@[0]);
                        assert(after@[b as int] == l@.subrange(i as int, i + 6)[b as int]);
                    }
                }
            }
            let code = after.substring_char(6, b).to_owned();
            let msgpart = after.substring_char(c + 2, alen);
            proof {
                assert(msgpart@ =~= after@.skip(c + 2));
            }
            let msg = trim_str(msgpart);
            if msg.unicode_len() > 0 {
                let e = ErrorInfo {
                    code: Some(code),
                    message: msg.to_owned(),
                    file: None,
                    line: None,
                    suggestion: None,
                };
                return Some(e);
            } else {
                return None;
            }
        }
    }

    // Rule 2: warning: message
    if let Some(w) = find_sub(l, "warning:") {
        proof {
            lemma_find_from_ensures(l@, "warning:"@, 0);
            reveal_strlit("warning:");
        }
        let msgpart = l.substring_char(w + 8, llen);
        proof {
            assert(msgpart@ =~= l@.skip(w + 8));
        }
        let msg = trim_str(msgpart);
        if msg.unicode_len() > 0 {
            let e = ErrorInfo {
                code: Some("WARNING".to_owned()),
                message: msg.to_owned(),
                file: None,
                line: None,
                suggestion: None,
            };
            return Some(e);
        }
    }

    // Rule 3: --> file:line[:col]
    if let Some(e) = try_location_rule(l) {
        return Some(e);
    }

    // Rule 4: help: suggestion
    if starts_with_sub(l, "help:") {
        proof {
            reveal_strlit("help:");
        }
        let sugpart = l.substring_char(5, llen);
        proof {
            assert(sugpart@ =~= l@.skip(5));
        }
        let sug = trim_str(sugpart);
        let e = ErrorInfo {
            code: None,
            message: "Help".to_owned(),
            file: None,
            line: None,
            suggestion: Some(sug.to_owned()),
        };
        return Some(e);
    }

    None
}

/// A linter warning line that names a lint category: `warning:` together
/// with a `clippy::` or `#[warn(` marker, with a nonempty trimmed message.
pub open spec fn todo_warning_rule(l: Seq<char>) -> Option<Seq<char>> {
    match find_from(l, "warning:"@, 0) {
        Some(w) => {
            if find_from(l, "clippy::"@, 0) is Some || find_from(l, "#[warn("@, 0) is Some {
                let m = trim_spec(l.skip(w + 8));
                if m.len() > 0 {
                    Some(m)
                } else {
                    None
                }
            } else {
                None
            }
        },
        None => None,
    }
}

/// A help line with a nonempty trimmed remainder.
pub open spec fn todo_help_rule(l: Seq<char>) -> Option<Seq<char>> {
    if match_at(l, "help:"@, 0) {
        let m = trim_spec(l.skip(5));
        if m.len() > 0 {
            Some(m)
        } else {
            None
        }
    } else {
        None
    }
}

/// The reminders one raw line contributes: a lint warning, then a help
/// suggestion; one line may contribute both.
pub open spec fn todos_of_line(raw: Seq<char>) -> Seq<TodoItemView> {
    let l = trim_spec(raw);
    (match todo_warning_rule(l) {
        Some(m) => seq![TodoItemView { source: "clippy"@, description: m }],
        None => seq![],
    }) + (match todo_help_rule(l) {
        Some(m) => seq![TodoItemView { source: "clippy_help"@, description: m }],
        None => seq![],
    })
}

/// The reminders taken from one raw line of linter output.
pub fn extract_todos_line(line: &str) -> (r: Vec<TodoItem>)
    ensures
        r.deep_view() == todos_of_line(line@),
{
    let l = trim_str(line);
    let llen = l.unicode_len();
    let mut r: Vec<TodoItem> = Vec::new();
    if let Some(w) = find_sub(l, "warning:") {
        proof {
            lemma_find_from_ensures(l@, "warning:"@, 0);
            reveal_strlit("warning:");
        }
        if contains_sub(l, "clippy::") || contains_sub(l, "#[warn(") {
            let tmp = l.substring_char(w + 8, llen);
            proof {
                assert(tmp@ =~= l@.skip(w + 8));
            }
            let msg = trim_str(tmp);
            if msg.unicode_len() > 0 {
                r.push(TodoItem { source: "clippy".to_owned(), description: msg.to_owned() });
            }
        }
    }
    if starts_with_sub(l, "help:") {
        proof {
            reveal_strlit("help:");
        }
        let tmp = l.substring_char(5, llen);
        proof {
            assert(tmp@ =~= l@.skip(5));
        }
        let msg = trim_str(tmp);
        if msg.unicode_len() > 0 {
            r.push(TodoItem { source: "clippy_help".to_owned(), description: msg.to_owned() });
        }
    }
    proof {
        assert(r.deep_view() =~= todos_of_line(line@));
    }
    r
}

pub open spec fn opt_diag_seq(o: Option<DiagView>) -> Seq<DiagView> {
    match o {
        Some(d) => seq![d],
        None => seq![],
    }
}

pub open spec fn diags_of_lines(ls: Seq<Seq<char>>) -> Seq<DiagView>
    decreases ls.len(),
{
    if ls.len() == 0 {
        seq![]
    } else {
        diags_of_lines(ls.drop_last()) + opt_diag_seq(parse_line_spec(ls.last()))
    }
}

/// Every diagnostic the four ordered rules draw out of raw error output,
/// line by line, in line order.
pub open spec fn diagnostics_spec(text: Seq<char>) -> Seq<DiagView> {
    diags_of_lines(lines_spec(text))
}

pub open spec fn todos_of_lines(ls: Seq<Seq<char>>) -> Seq<TodoItemView>
    decreases ls.len(),
{
    if ls.len() == 0 {
        seq![]
    } else {
        todos_of_lines(ls.drop_last()) + todos_of_line(ls.last())
    }
}

/// Every reminder the linter pass draws out of raw output, line by line.
pub open spec fn clippy_todos_spec(text: Seq<char>) -> Seq<TodoItemView> {
    todos_of_lines(lines_spec(text))
}

/// Scan raw error output line by line with the four ordered rules.
pub fn extract_diagnostics(stderr: &str) -> (r: Vec<ErrorInfo>)
    ensures
        r.deep_view() == diagnostics_spec(stderr@),
{
    let lines = split_lines(stderr);
    let mut r: Vec<ErrorInfo> = Vec::new();
    let n = lines.len();
    let mut i: usize = 0;
    proof {
        assert(lines.deep_view().take(0) =~= Seq::<Seq<char>>::empty());
        assert(r.deep_view() =~= Seq::<DiagView>::empty());
    }
    while i < n
        invariant
            i <= n,
            n == lines@.len(),
            lines.deep_view() == lines_spec(stderr@),
            r.deep_view() == diags_of_lines(lines.deep_view().take(i as int)),
        decreases n - i,
    {
        let ghost lv = lines.deep_view();
        let ghost prev = r.deep_view();
        let parsed = parse_error_line(lines[i].as_str());
        proof {
            assert(lv[i as int] == lines@[i as int]@);
            assert(lv.take(i + 1).drop_last() =~= lv.take(i as int));
            assert(lv.take(i + 1).last() == lv[i as int]);
        }
        match parsed {
            Some(e) => {
                r.push(e);
                proof {
                    assert(r.deep_view() =~= prev + opt_diag_seq(parse_line_spec(lv[i as int])));
                }
            },
            None => {
                proof {
                    assert(r.deep_view() =~= prev + opt_diag_seq(parse_line_spec(lv[i as int])));
                }
            },
        }
        i += 1;
    }
    proof {
        assert(lines.deep_view().take(n as int) =~= lines.deep_view());
    }
    r
}

/// Scan raw linter output line by line for reminders.
pub fn extract_clippy_todos(stderr: &str) -> (r: Vec<TodoItem>)
    ensures
        r.deep_view() == clippy_todos_spec(stderr@),
{
    let lines = split_lines(stderr);
    let mut r: Vec<TodoItem> = Vec::new();
    let n = lines.len();
    let mut i: usize = 0;
    proof {
        assert(lines.deep_view().take(0) =~= Seq::<Seq<char>>::empty());
        assert(r.deep_view() =~= Seq::<TodoItemView>::empty());
    }
    while i < n
        invariant
            i <= n,
            n == lines@.len(),
            lines.deep_view() == lines_spec(stderr@),
            r.deep_view() == todos_of_lines(lines.deep_view().take(i as int)),
        decreases n - i,
    {
        let ghost lv = lines.deep_view();
        let ghost prev = r.deep_view();
        let mut found = extract_todos_line(lines[i].as_str());
        proof {
            assert(lv[i as int] == lines@[i as int]@);
            assert(lv.take(i + 1).drop_last() =~= lv.take(i as int));
            assert(lv.take(i + 1).last() == lv[i as int]);
        }
        r.append(&mut found);
        proof {
            assert(r.deep_view() =~= prev + todos_of_line(lv[i as int]));
        }
        i += 1;
    }
    proof {
        assert(lines.deep_view().take(n as int) =~= lines.deep_view());
    }
    r
}

} // verus!
