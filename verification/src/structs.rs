//! One bibliographic entry: reading it from text, writing it back, and
//! writing it after a template.
use vstd::prelude::*;
use vstd::string::*;
use crate::authors::{
    author_views, parse_author, Author, AuthorView, AuthorsFormatter, AuthorsFormatterView,
};
use crate::errors::ParseError;
use crate::numbers::{decimal, parse_number, push_decimal, read_number, to_decimal};
use crate::template::{substitute, substituted, table_view};
use crate::text::{
    append, append_str, chars_of, find, is_str, join, joined, lemma_next_match,
    lemma_trim_end_keeps, matches_at, next_match, slice_of, split, split_on, string_of, trim,
    trim_bounds, trim_start, views,
};

verus! {

/// What a `BibTeXModel` holds.
pub struct BibTeXModelView {
    pub title: Seq<char>,
    pub author: Seq<AuthorView>,
    pub journal: Seq<char>,
    pub volume: Option<usize>,
    pub number: Option<usize>,
    pub pages: Option<Seq<char>>,
    pub year: usize,
    pub publisher: Option<Seq<char>>,
}

/// What a `BibTeXFormatter` holds.
pub struct BibTeXFormatterView {
    pub fmt: Seq<char>,
    pub authors: AuthorsFormatterView,
}

/// The view of a string that may be missing.
pub open spec fn option_view(s: Option<String>) -> Option<Seq<char>> {
    match s {
        Some(text) => Some(text@),
        None => None,
    }
}

/// `s` without one comma at its end, if it ends in one.
pub open spec fn strip_comma(s: Seq<char>) -> Seq<char> {
    if s.len() > 0 && s.last() == ',' {
        s.drop_last()
    } else {
        s
    }
}

/// The end of a message about line `lineno`.
pub open spec fn line_mark(lineno: nat) -> Seq<char> {
    " (line "@ + decimal(lineno) + ")"@
}

/// The field and the value of a line `field={value}`, or the message that
/// says why the line is none. The line is trimmed and loses one comma at its
/// end; the field is what stands before the first `=`, and what stands
/// behind it must begin with `{` and end with `}`: the value is what the
/// two enclose.
pub open spec fn field_and_value(line: Seq<char>, lineno: nat) -> Result<
    (Seq<char>, Seq<char>),
    Seq<char>,
> {
    let s = strip_comma(trim(line));
    match next_match(s, "="@, 0) {
        None => Err("Not in 'key=value' format: "@ + s + line_mark(lineno)),
        Some(i) => {
            let value = s.skip(i + 1);
            if value.len() > 0 && value.first() == '{' && value.last() == '}' {
                Ok((s.take(i), value.subrange(1, value.len() - 1)))
            } else {
                Err("Value is not enclosed in braces: "@ + s + line_mark(lineno))
            }
        },
    }
}

/// The authors that the texts name, or the message of the first text that
/// names none.
pub open spec fn parse_authors(names: Seq<Seq<char>>) -> Result<Seq<AuthorView>, Seq<char>>
    decreases names.len(),
{
    if names.len() == 0 {
        Ok(Seq::empty())
    } else {
        match parse_authors(names.drop_last()) {
            Err(m) => Err(m),
            Ok(list) => match parse_author(names.last()) {
                Ok(a) => Ok(list.push(a)),
                Err(m) => Err(m),
            },
        }
    }
}

/// The entry in which nothing has been read yet.
pub open spec fn blank_entry() -> BibTeXModelView {
    BibTeXModelView {
        title: Seq::empty(),
        author: Seq::empty(),
        journal: Seq::empty(),
        volume: None,
        number: None,
        pages: None,
        year: 0,
        publisher: None,
    }
}

/// The entry `e` after the line `line`, which is line `lineno` of the text,
/// or the message that says why the line cannot be read. A line that begins
/// with `@` or `}` changes nothing, and neither does a field that the entry
/// does not have. The authors of an `author` line, which `" and "`
/// separates, come behind those read before.
pub open spec fn read_line(e: BibTeXModelView, line: Seq<char>, lineno: nat) -> Result<
    BibTeXModelView,
    Seq<char>,
> {
    if line.len() > 0 && (line.first() == '@' || line.first() == '}') {
        Ok(e)
    } else {
        match field_and_value(line, lineno) {
            Err(m) => Err(m),
            Ok((key, value)) => {
                if key == "title"@ {
                    Ok(BibTeXModelView { title: value, ..e })
                } else if key == "author"@ {
                    match parse_authors(split(value, " and "@)) {
                        Ok(list) => Ok(BibTeXModelView { author: e.author + list, ..e }),
                        Err(m) => Err(m),
                    }
                } else if key == "journal"@ {
                    Ok(BibTeXModelView { journal: value, ..e })
                } else if key == "volume"@ {
                    match parse_number(value) {
                        Ok(n) => Ok(BibTeXModelView { volume: Some(n), ..e }),
                        Err(why) => Err(why.text()),
                    }
                } else if key == "number"@ {
                    match parse_number(value) {
                        Ok(n) => Ok(BibTeXModelView { number: Some(n), ..e }),
                        Err(why) => Err(why.text()),
                    }
                } else if key == "pages"@ {
                    Ok(BibTeXModelView { pages: Some(value), ..e })
                } else if key == "year"@ {
                    match parse_number(value) {
                        Ok(n) => Ok(BibTeXModelView { year: n, ..e }),
                        Err(why) => Err(why.text()),
                    }
                } else if key == "publisher"@ {
                    Ok(BibTeXModelView { publisher: Some(value), ..e })
                } else {
                    Ok(e)
                }
            },
        }
    }
}

/// The entry after the first `n` lines, or the message of the first of them
/// that cannot be read.
pub open spec fn read_lines(lines: Seq<Seq<char>>, n: nat) -> Result<BibTeXModelView, Seq<char>>
    decreases n,
{
    if n == 0 {
        Ok(blank_entry())
    } else {
        match read_lines(lines, (n - 1) as nat) {
            Err(m) => Err(m),
            Ok(e) => read_line(e, lines[n - 1], (n - 1) as nat),
        }
    }
}

/// The entry that the text writes, line by line, or the message that says
/// why it writes none: that of the first line that cannot be read, or else
/// that of the first of title, author, journal and year that no line gave.
pub open spec fn parse_entry(text: Seq<char>) -> Result<BibTeXModelView, Seq<char>> {
    let lines = split(text, "\n"@);
    match read_lines(lines, lines.len()) {
        Err(m) => Err(m),
        Ok(e) => {
            if e.title.len() == 0 {
                Err("'title' field not found"@)
            } else if e.author.len() == 0 {
                Err("'author' field not found"@)
            } else if e.journal.len() == 0 {
                Err("'journal' field not found"@)
            } else if e.year == 0 {
                Err("'year' field not found"@)
            } else {
                Ok(e)
            }
        },
    }
}

/// One line of an entry as it is written back.
pub open spec fn field_line(name: Seq<char>, value: Seq<char>) -> Seq<char> {
    name + " = {"@ + value + "},\n"@
}

/// One line of an entry as it is written back, or nothing for a value that
/// is missing.
pub open spec fn optional_line(name: Seq<char>, value: Option<Seq<char>>) -> Seq<char> {
    match value {
        Some(v) => field_line(name, v),
        None => Seq::empty(),
    }
}

/// A number that may be missing, in decimal notation.
pub open spec fn optional_decimal(n: Option<usize>) -> Option<Seq<char>> {
    match n {
        Some(v) => Some(decimal(v as nat)),
        None => None,
    }
}

/// Each author as first, last and middle name with a space between.
pub open spec fn plain_names(authors: Seq<AuthorView>) -> Seq<Seq<char>> {
    authors.map_values(|a: AuthorView| a.render("f l m"@))
}

impl BibTeXModelView {
    /// Whether title, author, journal and year are there.
    pub open spec fn complete(self) -> bool {
        self.title.len() > 0 && self.author.len() > 0 && self.journal.len() > 0 && self.year != 0
    }

    /// The entry written back, one line for each field that is there.
    pub open spec fn to_bibtex(self) -> Seq<char> {
        field_line("title"@, self.title) + field_line(
            "author"@,
            join(plain_names(self.author), " and "@),
        ) + field_line("journal"@, self.journal) + optional_line(
            "volume"@,
            optional_decimal(self.volume),
        ) + optional_line("number"@, optional_decimal(self.number)) + optional_line(
            "pages"@,
            self.pages,
        ) + field_line("year"@, decimal(self.year as nat)) + optional_line(
            "publisher"@,
            self.publisher,
        )
    }

    /// The placeholders of an entry's template and what each stands for,
    /// given the text of the authors. A missing number is written as 0, a
    /// missing text as nothing.
    pub open spec fn table(self, authors: Seq<char>) -> Seq<(Seq<char>, Seq<char>)> {
        seq![
            ("{authors}"@, authors),
            ("{title}"@, self.title),
            ("{journal}"@, self.journal),
            (
                "{volume}"@,
                decimal(
                    match self.volume {
                        Some(v) => v as nat,
                        None => 0,
                    },
                ),
            ),
            (
                "{number}"@,
                decimal(
                    match self.number {
                        Some(v) => v as nat,
                        None => 0,
                    },
                ),
            ),
            (
                "{pages}"@,
                match self.pages {
                    Some(p) => p,
                    None => Seq::empty(),
                },
            ),
            ("{year}"@, decimal(self.year as nat)),
            (
                "{publisher}"@,
                match self.publisher {
                    Some(p) => p,
                    None => Seq::empty(),
                },
            ),
        ]
    }

    /// The entry written after the template of `f`, in which each
    /// placeholder is replaced by its value in one pass.
    pub open spec fn format(self, f: BibTeXFormatterView) -> Seq<char> {
        substitute(f.fmt, self.table(f.authors.format(self.author)))
    }
}

/// Where the field and the value of a line `field={value}` stand in it:
/// the field is `line[r.0..r.1]` and the value is `line[r.1 + 2..r.2]`.
pub fn locate_field(line: &Vec<char>, lineno: usize) -> (r: Result<(usize, usize, usize), ParseError>)
    ensures
        match r {
            Ok((a, eq, b)) => a <= eq && eq + 2 <= b <= line.len() && field_and_value(
                line@,
                lineno as nat,
            ) == Ok::<(Seq<char>, Seq<char>), Seq<char>>(
                (line@.subrange(a as int, eq as int), line@.subrange(eq + 2, b as int)),
            ),
            Err(e) => field_and_value(line@, lineno as nat) == Err::<
                (Seq<char>, Seq<char>),
                Seq<char>,
            >(e@),
        },
{
    let (a, end) = trim_bounds(line, 0, line.len());
    assert(line@.subrange(0, line.len() as int) == line@);
    let b: usize = if end > a && line[end - 1] == ',' {
        end - 1
    } else {
        end
    };
    let s = slice_of(line, a, b);
    assert(s@ == strip_comma(trim(line@)));
    match find(&s, &chars_of("="), 0) {
        None => {
            let mut msg = chars_of("Not in 'key=value' format: ");
            append(&mut msg, &s);
            append_str(&mut msg, " (line ");
            push_decimal(&mut msg, lineno);
            append_str(&mut msg, ")");
            assert(msg@ == "Not in 'key=value' format: "@ + s@ + line_mark(lineno as nat));
            Err(ParseError::new(string_of(&msg)))
        },
        Some(i) => {
            proof {
                reveal_strlit("=");
            }
            let ghost value = s@.skip(i + 1);
            assert(value.len() == s.len() - i - 1);
            if s.len() - i >= 3 && s[i + 1] == '{' && s[s.len() - 1] == '}' {
                assert(value.first() == s@[i + 1] && value.last() == s@[s.len() - 1]);
                assert(s@.take(i as int) == line@.subrange(a as int, a + i));
                assert(value.subrange(1, value.len() - 1) == line@.subrange(a + i + 2, b - 1));
                Ok((a, a + i, b - 1))
            } else {
                assert(!(value.len() > 0 && value.first() == '{' && value.last() == '}')) by {
                    if value.len() > 0 {
                        assert(value.first() == s@[i + 1] && value.last() == s@[s.len() - 1]);
                    }
                }
                let mut msg = chars_of("Value is not enclosed in braces: ");
                append(&mut msg, &s);
                append_str(&mut msg, " (line ");
                push_decimal(&mut msg, lineno);
                append_str(&mut msg, ")");
                assert(msg@ == "Value is not enclosed in braces: "@ + s@ + line_mark(
                    lineno as nat,
                ));
                Err(ParseError::new(string_of(&msg)))
            }
        },
    }
}

/// The field and the value of the line `field={value}`.
pub fn _split_field_and_value<'a>(s: &'a str, lineno: usize) -> (r: Result<
    (&'a str, &'a str),
    ParseError,
>)
    ensures
        match r {
            Ok((field, value)) => field_and_value(s@, lineno as nat) == Ok::<
                (Seq<char>, Seq<char>),
                Seq<char>,
            >((field@, value@)),
            Err(e) => field_and_value(s@, lineno as nat) == Err::<
                (Seq<char>, Seq<char>),
                Seq<char>,
            >(e@),
        },
{
    let line = chars_of(s);
    match locate_field(&line, lineno) {
        Ok((a, eq, b)) => Ok((s.substring_char(a, eq), s.substring_char(eq + 2, b))),
        Err(e) => Err(e),
    }
}

/// An entry while its lines are read: any field may still be missing.
struct Draft {
    title: String,
    author: Vec<Author>,
    journal: String,
    volume: Option<usize>,
    number: Option<usize>,
    pages: Option<String>,
    year: usize,
    publisher: Option<String>,
}

impl View for Draft {
    type V = BibTeXModelView;

    closed spec fn view(&self) -> BibTeXModelView {
        BibTeXModelView {
            title: self.title@,
            author: author_views(self.author@),
            journal: self.journal@,
            volume: self.volume,
            number: self.number,
            pages: option_view(self.pages),
            year: self.year,
            publisher: option_view(self.publisher),
        }
    }
}

/// Reads the number that a field holds.
fn number_field(value: &Vec<char>) -> (r: Result<usize, ParseError>)
    ensures
        match r {
            Ok(n) => parse_number(value@) == Ok::<usize, crate::numbers::NumberError>(n),
            Err(e) => parse_number(value@) is Err && e@ == parse_number(value@)->Err_0.text(),
        },
{
    match read_number(value) {
        Ok(n) => Ok(n),
        Err(why) => Err(ParseError::from_str(why.message())),
    }
}

impl Draft {
    fn new() -> (d: Draft)
        ensures
            d@ == blank_entry(),
    {
        let d = Draft {
            title: String::new(),
            author: Vec::new(),
            journal: String::new(),
            volume: None,
            number: None,
            pages: None,
            year: 0,
            publisher: None,
        };
        assert(author_views(d.author@) == Seq::<AuthorView>::empty());
        d
    }

    /// Reads the authors that `value` names, and puts them behind those
    /// read before.
    fn read_authors(&mut self, value: &Vec<char>) -> (r: Result<(), ParseError>)
        ensures
            match r {
                Ok(_) => parse_authors(split(value@, " and "@)) is Ok && final(self)@ == (
                BibTeXModelView {
                    author: old(self)@.author + parse_authors(split(value@, " and "@))->Ok_0,
                    ..old(self)@
                }),
                Err(e) => parse_authors(split(value@, " and "@)) == Err::<
                    Seq<AuthorView>,
                    Seq<char>,
                >(e@),
            },
    {
        proof {
            reveal_strlit(" and ");
        }
        let names = split_on(value, &chars_of(" and "));
        let mut i: usize = 0;
        while i < names.len()
            invariant
                i <= names.len(),
                views(names@) == split(value@, " and "@),
                parse_authors(views(names@).take(i as int)) is Ok,
                self@ == (BibTeXModelView {
                    author: old(self)@.author + parse_authors(views(names@).take(i as int))->Ok_0,
                    ..old(self)@
                }),
            decreases names.len() - i,
        {
            let ghost before = self.author@;
            proof {
                let next = views(names@).take(i + 1);
                assert(next.drop_last() == views(names@).take(i as int));
                assert(next.last() == names@[i as int]@);
            }
            match Author::read(&names[i]) {
                Ok(a) => {
                    self.author.push(a);
                    assert(author_views(self.author@) == author_views(before).push(a@));
                },
                Err(e) => {
                    proof {
                        lemma_parse_authors_fails(views(names@), i + 1);
                        assert(views(names@).take(names@.len() as int) == views(names@));
                    }
                    return Err(e);
                },
            }
            i += 1;
        }
        assert(views(names@).take(names@.len() as int) == views(names@));
        Ok(())
    }

    /// Reads one line into the entry.
    fn read_line(&mut self, line: &Vec<char>, lineno: usize) -> (r: Result<(), ParseError>)
        ensures
            match r {
                Ok(_) => read_line(old(self)@, line@, lineno as nat) == Ok::<
                    BibTeXModelView,
                    Seq<char>,
                >(final(self)@),
                Err(e) => read_line(old(self)@, line@, lineno as nat) == Err::<
                    BibTeXModelView,
                    Seq<char>,
                >(e@),
            },
    {
        if line.len() > 0 && (line[0] == '@' || line[0] == '}') {
            return Ok(());
        }
        let (a, eq, b) = match locate_field(line, lineno) {
            Ok(places) => places,
            Err(e) => {
                return Err(e);
            },
        };
        let key = slice_of(line, a, eq);
        let value = slice_of(line, eq + 2, b);
        if is_str(&key, "title") {
            self.title = string_of(&value);
        } else if is_str(&key, "author") {
            return self.read_authors(&value);
        } else if is_str(&key, "journal") {
            self.journal = string_of(&value);
        } else if is_str(&key, "volume") {
            match number_field(&value) {
                Ok(n) => {
                    self.volume = Some(n);
                },
                Err(e) => {
                    return Err(e);
                },
            }
        } else if is_str(&key, "number") {
            match number_field(&value) {
                Ok(n) => {
                    self.number = Some(n);
                },
                Err(e) => {
                    return Err(e);
                },
            }
        } else if is_str(&key, "pages") {
            self.pages = Some(string_of(&value));
        } else if is_str(&key, "year") {
            match number_field(&value) {
                Ok(n) => {
                    self.year = n;
                },
                Err(e) => {
                    return Err(e);
                },
            }
        } else if is_str(&key, "publisher") {
            self.publisher = Some(string_of(&value));
        }
        Ok(())
    }
}

/// Where the first `n` texts do not all name an author, neither do all of
/// them, and the message is the same.
pub proof fn lemma_parse_authors_fails(names: Seq<Seq<char>>, n: int)
    requires
        0 <= n <= names.len(),
        parse_authors(names.take(n)) is Err,
    ensures
        parse_authors(names) == parse_authors(names.take(n)),
    decreases names.len() - n,
{
    if n < names.len() {
        assert(names.take(n + 1).drop_last() == names.take(n));
        lemma_parse_authors_fails(names, n + 1);
    } else {
        assert(names.take(n) == names);
    }
}

/// One bibliographic entry. Title, author, journal and year are always
/// there.
#[derive(Debug)]
pub struct BibTeXModel {
    title: String,
    author: Vec<Author>,
    journal: String,
    volume: Option<usize>,
    number: Option<usize>,
    pages: Option<String>,
    year: usize,
    publisher: Option<String>,
}

impl View for BibTeXModel {
    type V = BibTeXModelView;

    closed spec fn view(&self) -> BibTeXModelView {
        BibTeXModelView {
            title: self.title@,
            author: author_views(self.author@),
            journal: self.journal@,
            volume: self.volume,
            number: self.number,
            pages: option_view(self.pages),
            year: self.year,
            publisher: option_view(self.publisher),
        }
    }
}

impl BibTeXModel {
    #[verifier::type_invariant]
    spec fn well_formed(&self) -> bool {
        self@.complete()
    }

    /// Reads an entry from its text.
    pub fn from_string(s: &str) -> (r: Result<BibTeXModel, ParseError>)
        ensures
            match r {
                Ok(m) => parse_entry(s@) == Ok::<BibTeXModelView, Seq<char>>(m@) && m@.complete(),
                Err(e) => parse_entry(s@) == Err::<BibTeXModelView, Seq<char>>(e@),
            },
    {
        BibTeXModel::read(&chars_of(s))
    }

    /// Reads an entry from the characters of its text.
    pub fn read(s: &Vec<char>) -> (r: Result<BibTeXModel, ParseError>)
        ensures
            match r {
                Ok(m) => parse_entry(s@) == Ok::<BibTeXModelView, Seq<char>>(m@) && m@.complete(),
                Err(e) => parse_entry(s@) == Err::<BibTeXModelView, Seq<char>>(e@),
            },
    {
        proof {
            reveal_strlit("\n");
        }
        let lines = split_on(s, &chars_of("\n"));
        let mut draft = Draft::new();
        let mut i: usize = 0;
        while i < lines.len()
            invariant
                i <= lines.len(),
                views(lines@) == split(s@, "\n"@),
                read_lines(views(lines@), i as nat) == Ok::<BibTeXModelView, Seq<char>>(draft@),
            decreases lines.len() - i,
        {
            assert(views(lines@)[i as int] == lines@[i as int]@);
            match draft.read_line(&lines[i], i) {
                Ok(_) => {},
                Err(e) => {
                    proof {
                        lemma_read_lines_fails(views(lines@), (i + 1) as nat);
                    }
                    return Err(e);
                },
            }
            i += 1;
        }
        if draft.title.as_str().is_empty() {
            return Err(ParseError::from_str("'title' field not found"));
        }
        if draft.author.len() == 0 {
            return Err(ParseError::from_str("'author' field not found"));
        }
        if draft.journal.as_str().is_empty() {
            return Err(ParseError::from_str("'journal' field not found"));
        }
        if draft.year == 0 {
            return Err(ParseError::from_str("'year' field not found"));
        }
        Ok(
            BibTeXModel {
                title: draft.title,
                author: draft.author,
                journal: draft.journal,
                volume: draft.volume,
                number: draft.number,
                pages: draft.pages,
                year: draft.year,
                publisher: draft.publisher,
            },
        )
    }
}

/// Where one of the first `n` lines cannot be read, the message is that of
/// the whole text.
pub proof fn lemma_read_lines_fails(lines: Seq<Seq<char>>, n: nat)
    requires
        n <= lines.len(),
        read_lines(lines, n) is Err,
    ensures
        read_lines(lines, lines.len()) == read_lines(lines, n),
    decreases lines.len() - n,
{
    if n < lines.len() {
        lemma_read_lines_fails(lines, n + 1);
    }
}

/// Appends the line of the field `name` with the value `value` to `out`.
fn push_field(out: &mut Vec<char>, name: &str, value: &Vec<char>)
    ensures
        final(out)@ == old(out)@ + field_line(name@, value@),
{
    append_str(out, name);
    append_str(out, " = {");
    append(out, value);
    append_str(out, "},\n");
    assert(out@ == old(out)@ + field_line(name@, value@));
}

/// The whole-entry template and the way authors are written.
pub struct BibTeXFormatter {
    pub fmt: String,
    pub authors: AuthorsFormatter,
}

impl View for BibTeXFormatter {
    type V = BibTeXFormatterView;

    open spec fn view(&self) -> BibTeXFormatterView {
        BibTeXFormatterView { fmt: self.fmt@, authors: self.authors@ }
    }
}

impl BibTeXFormatter {
    pub fn new(fmt: String, authors: AuthorsFormatter) -> (f: BibTeXFormatter)
        ensures
            f.fmt == fmt,
            f.authors == authors,
    {
        BibTeXFormatter { fmt, authors }
    }

    /// The formatter that a configuration document held, or the failure of
    /// a document that held none, given what says why it held none.
    pub fn from_parsed(parsed: Result<BibTeXFormatter, String>) -> (r: Result<
        BibTeXFormatter,
        ParseError,
    >)
        ensures
            match parsed {
                Ok(f) => r == Ok::<BibTeXFormatter, ParseError>(f),
                Err(why) => r is Err && r->Err_0@ == "Error parsing JSON: "@ + why@,
            },
    {
        match parsed {
            Ok(f) => Ok(f),
            Err(why) => Err(
                ParseError::new(String::from_str("Error parsing JSON: ").concat(why.as_str())),
            ),
        }
    }
}

impl Clone for BibTeXModel {
    fn clone(&self) -> (m: BibTeXModel)
        ensures
            m@ == self@,
    {
        proof {
            use_type_invariant(self);
        }
        let mut author: Vec<Author> = Vec::new();
        let mut i: usize = 0;
        while i < self.author.len()
            invariant
                i <= self.author.len(),
                author@ == self.author@.take(i as int),
            decreases self.author.len() - i,
        {
            author.push(self.author[i].clone());
            assert(author@ == self.author@.take(i + 1));
            i += 1;
        }
        assert(author@ == self.author@);
        BibTeXModel {
            title: self.title.clone(),
            author,
            journal: self.journal.clone(),
            volume: self.volume,
            number: self.number,
            pages: match &self.pages {
                Some(p) => Some(p.clone()),
                None => None,
            },
            year: self.year,
            publisher: match &self.publisher {
                Some(p) => Some(p.clone()),
                None => None,
            },
        }
    }
}

impl BibTeXModel {
    pub fn title(&self) -> (r: &String)
        ensures
            r@ == self@.title,
            r@.len() > 0,
    {
        proof {
            use_type_invariant(self);
        }
        &self.title
    }

    pub fn author(&self) -> (r: &Vec<Author>)
        ensures
            author_views(r@) == self@.author,
            r@.len() > 0,
    {
        proof {
            use_type_invariant(self);
        }
        &self.author
    }

    pub fn journal(&self) -> (r: &String)
        ensures
            r@ == self@.journal,
            r@.len() > 0,
    {
        proof {
            use_type_invariant(self);
        }
        &self.journal
    }

    pub fn volume(&self) -> (r: Option<usize>)
        ensures
            r == self@.volume,
    {
        self.volume
    }

    pub fn number(&self) -> (r: Option<usize>)
        ensures
            r == self@.number,
    {
        self.number
    }

    pub fn pages(&self) -> (r: &Option<String>)
        ensures
            option_view(*r) == self@.pages,
    {
        &self.pages
    }

    pub fn year(&self) -> (r: usize)
        ensures
            r == self@.year,
            r != 0,
    {
        proof {
            use_type_invariant(self);
        }
        self.year
    }

    pub fn publisher(&self) -> (r: &Option<String>)
        ensures
            option_view(*r) == self@.publisher,
    {
        &self.publisher
    }

    /// The entry written back as text, one line for each field that is
    /// there.
    pub fn to_bibtex(&self) -> (out: String)
        ensures
            out@ == self@.to_bibtex(),
    {
        let mut names: Vec<Vec<char>> = Vec::new();
        let plain = chars_of("f l m");
        let mut i: usize = 0;
        while i < self.author.len()
            invariant
                i <= self.author.len(),
                plain@ == "f l m"@,
                views(names@) == plain_names(author_views(self.author@).take(i as int)),
            decreases self.author.len() - i,
        {
            let ghost before = names@;
            let name = self.author[i].render(&plain);
            names.push(name);
            proof {
                let done = author_views(self.author@).take(i as int);
                let next = author_views(self.author@).take(i + 1);
                assert(next == done.push(self.author@[i as int]@));
                assert(views(names@) == views(before).push(name@));
                assert(plain_names(next) == plain_names(done).push(name@));
            }
            i += 1;
        }
        proof {
            assert(author_views(self.author@).take(self.author@.len() as int) == author_views(
                self.author@,
            ));
            assert(views(names@).take(names@.len() as int) == views(names@));
        }
        let mut out: Vec<char> = Vec::new();
        push_field(&mut out, "title", &chars_of(self.title.as_str()));
        push_field(&mut out, "author", &joined(&names, names.len(), &chars_of(" and ")));
        push_field(&mut out, "journal", &chars_of(self.journal.as_str()));
        if let Some(volume) = self.volume {
            push_field(&mut out, "volume", &to_decimal(volume));
        }
        if let Some(number) = self.number {
            push_field(&mut out, "number", &to_decimal(number));
        }
        if let Some(pages) = &self.pages {
            push_field(&mut out, "pages", &chars_of(pages.as_str()));
        }
        push_field(&mut out, "year", &to_decimal(self.year));
        if let Some(publisher) = &self.publisher {
            push_field(&mut out, "publisher", &chars_of(publisher.as_str()));
        }
        assert(out@ == self@.to_bibtex());
        string_of(&out)
    }

    /// The entry written after the template of `formatter`, with the text
    /// `authors` for its authors.
    pub fn format_with(&self, formatter: &BibTeXFormatter, authors: &str) -> (out: String)
        ensures
            out@ == substitute(formatter@.fmt, self@.table(authors@)),
    {
        let mut table: Vec<(Vec<char>, Vec<char>)> = Vec::new();
        table.push((chars_of("{authors}"), chars_of(authors)));
        table.push((chars_of("{title}"), chars_of(self.title.as_str())));
        table.push((chars_of("{journal}"), chars_of(self.journal.as_str())));
        table.push(
            (
                chars_of("{volume}"),
                to_decimal(
                    match self.volume {
                        Some(v) => v,
                        None => 0,
                    },
                ),
            ),
        );
        table.push(
            (
                chars_of("{number}"),
                to_decimal(
                    match self.number {
                        Some(v) => v,
                        None => 0,
                    },
                ),
            ),
        );
        table.push(
            (
                chars_of("{pages}"),
                match &self.pages {
                    Some(p) => chars_of(p.as_str()),
                    None => Vec::new(),
                },
            ),
        );
        table.push((chars_of("{year}"), to_decimal(self.year)));
        table.push(
            (
                chars_of("{publisher}"),
                match &self.publisher {
                    Some(p) => chars_of(p.as_str()),
                    None => Vec::new(),
                },
            ),
        );
        assert(table_view(table@) == self@.table(authors@));
        string_of(&substituted(&chars_of(formatter.fmt.as_str()), &table))
    }

    /// The entry written after the template of `formatter`.
    pub fn format(&self, formatter: &BibTeXFormatter) -> (out: String)
        requires
            formatter@.authors.renders(self@.author.len()),
        ensures
            out@ == self@.format(formatter@),
    {
        let authors = formatter.authors.format(&self.author);
        self.format_with(formatter, authors.as_str())
    }
}

/// Where every line can be read, the entry is there exactly if title,
/// author, journal and year are; else the first of the four that is missing
/// decides the message.
pub proof fn lemma_missing_field(text: Seq<char>)
    requires
        read_lines(split(text, "\n"@), split(text, "\n"@).len()) is Ok,
    ensures
        ({
            let e = read_lines(split(text, "\n"@), split(text, "\n"@).len())->Ok_0;
            &&& e.title.len() == 0 ==> parse_entry(text) == Err::<BibTeXModelView, Seq<char>>(
                "'title' field not found"@,
            )
            &&& e.title.len() > 0 && e.author.len() == 0 ==> parse_entry(text) == Err::<
                BibTeXModelView,
                Seq<char>,
            >("'author' field not found"@)
            &&& e.title.len() > 0 && e.author.len() > 0 && e.journal.len() == 0 ==> parse_entry(
                text,
            ) == Err::<BibTeXModelView, Seq<char>>("'journal' field not found"@)
            &&& e.title.len() > 0 && e.author.len() > 0 && e.journal.len() > 0 && e.year == 0
                ==> parse_entry(text) == Err::<BibTeXModelView, Seq<char>>(
                "'year' field not found"@,
            )
            &&& e.complete() <==> parse_entry(text) == Ok::<BibTeXModelView, Seq<char>>(e)
        }),
{
}

/// The messages for a missing title, author, journal and year are four
/// different messages.
pub proof fn lemma_missing_field_messages_differ()
    ensures
        "'title' field not found"@ != "'author' field not found"@,
        "'title' field not found"@ != "'journal' field not found"@,
        "'title' field not found"@ != "'year' field not found"@,
        "'author' field not found"@ != "'journal' field not found"@,
        "'author' field not found"@ != "'year' field not found"@,
        "'journal' field not found"@ != "'year' field not found"@,
{
    reveal_strlit("'title' field not found");
    reveal_strlit("'author' field not found");
    reveal_strlit("'journal' field not found");
    reveal_strlit("'year' field not found");
    assert("'title' field not found"@[1] == 't');
    assert("'author' field not found"@[1] == 'a');
    assert("'journal' field not found"@[1] == 'j');
    assert("'year' field not found"@[1] == 'y');
}

/// A text with a line that cannot be read writes no entry, whatever its
/// other lines hold, and the message is that of the first such line.
pub proof fn lemma_first_unreadable_line(text: Seq<char>, n: nat)
    requires
        n < split(text, "\n"@).len(),
        read_lines(split(text, "\n"@), n) is Ok,
        read_line(read_lines(split(text, "\n"@), n)->Ok_0, split(text, "\n"@)[n as int], n) is Err,
    ensures
        parse_entry(text) == Err::<BibTeXModelView, Seq<char>>(
            read_line(
                read_lines(split(text, "\n"@), n)->Ok_0,
                split(text, "\n"@)[n as int],
                n,
            )->Err_0,
        ),
{
    lemma_read_lines_fails(split(text, "\n"@), n + 1);
}

/// A line with a value that braces do not enclose cannot be read, unless it
/// begins with `@` or `}`.
pub proof fn lemma_value_without_braces(e: BibTeXModelView, line: Seq<char>, lineno: nat)
    requires
        !(line.len() > 0 && (line.first() == '@' || line.first() == '}')),
        next_match(strip_comma(trim(line)), "="@, 0) is Some,
        ({
            let s = strip_comma(trim(line));
            let value = s.skip(next_match(s, "="@, 0)->Some_0 + 1);
            value.len() == 0 || value.first() != '{' || value.last() != '}'
        }),
    ensures
        read_line(e, line, lineno) == Err::<BibTeXModelView, Seq<char>>(
            "Value is not enclosed in braces: "@ + strip_comma(trim(line)) + line_mark(lineno),
        ),
{
}

/// An `author` line with a name that is no author cannot be read, and the
/// message is the one that says why the first such name is none.
pub proof fn lemma_author_line_fails(e: BibTeXModelView, line: Seq<char>, lineno: nat, k: int)
    requires
        !(line.len() > 0 && (line.first() == '@' || line.first() == '}')),
        field_and_value(line, lineno) is Ok,
        field_and_value(line, lineno)->Ok_0.0 == "author"@,
        0 <= k < split(field_and_value(line, lineno)->Ok_0.1, " and "@).len(),
        forall|j: int|
            0 <= j < k ==> parse_author(
                #[trigger] split(field_and_value(line, lineno)->Ok_0.1, " and "@)[j],
            ) is Ok,
        parse_author(split(field_and_value(line, lineno)->Ok_0.1, " and "@)[k]) is Err,
    ensures
        read_line(e, line, lineno) == Err::<BibTeXModelView, Seq<char>>(
            parse_author(split(field_and_value(line, lineno)->Ok_0.1, " and "@)[k])->Err_0,
        ),
{
    let names = split(field_and_value(line, lineno)->Ok_0.1, " and "@);
    lemma_parse_authors_reads_all(names, k);
    assert(names.take(k + 1).drop_last() == names.take(k));
    lemma_parse_authors_fails(names, k + 1);
    reveal_strlit("author");
    reveal_strlit("title");
    assert("author"@[0] != "title"@[0]);
}

/// Where each of the first `n` texts names an author, the first `n` texts
/// are read.
pub proof fn lemma_parse_authors_reads_all(names: Seq<Seq<char>>, n: int)
    requires
        0 <= n <= names.len(),
        forall|j: int| 0 <= j < n ==> parse_author(#[trigger] names[j]) is Ok,
    ensures
        parse_authors(names.take(n)) is Ok,
        parse_authors(names.take(n))->Ok_0.len() == n,
    decreases n,
{
    if n > 0 {
        lemma_parse_authors_reads_all(names, n - 1);
        assert(names.take(n).drop_last() == names.take(n - 1));
    }
}

/// What `to_bibtex` writes is never read back as an entry: it writes each
/// field with a space on either side of `=`, and the reader wants the value
/// to begin with `{` right behind `=`.
pub proof fn lemma_to_bibtex_is_not_read_back(m: BibTeXModelView)
    ensures
        parse_entry(m.to_bibtex()) is Err,
{
    reveal_strlit("title");
    reveal_strlit(" = {");
    reveal_strlit("\n");
    reveal_strlit("=");
    let text = m.to_bibtex();
    let head = "title"@ + " = {"@;
    assert(head.len() == 9);
    assert(text.len() >= 9 && text.take(9) == head) by {
        let first = field_line("title"@, m.title);
        assert(first.len() >= 9 && first.take(9) == head);
        assert(text.len() >= first.len() && text.take(9) == first.take(9));
    }
    assert forall|j: int| 0 <= j < 9 implies text[j] == head[j] by {
        assert(text.take(9)[j] == text[j]);
    }
    let lines = split(text, "\n"@);
    lemma_next_match(text, "\n"@, 0);
    let line = lines[0];
    assert(line.len() >= 9 && line.take(9) == head) by {
        match next_match(text, "\n"@, 0) {
            Some(i) => {
                assert(text.subrange(i, i + 1)[0] == '\n');
                assert(line == text.subrange(0, i));
                assert(i >= 9) by {
                    if i < 9 {
                        assert(text[i] == head[i]);
                    }
                }
                assert(line.take(9) == text.take(9));
            },
            None => {
                assert(line == text.skip(0));
                assert(line.take(9) == text.take(9));
            },
        }
    }
    assert forall|j: int| 0 <= j < 9 implies line[j] == head[j] by {
        assert(line.take(9)[j] == line[j]);
    }
    assert(trim_start(line) == line);
    lemma_trim_end_keeps(line, 8);
    let kept = trim(line);
    let s = strip_comma(kept);
    assert(s.len() >= 9 && forall|j: int| 0 <= j < 9 ==> s[j] == head[j]);
    lemma_next_match(s, "="@, 0);
    assert(matches_at(s, "="@, 6)) by {
        assert(s.subrange(6, 7) == "="@);
    }
    assert(next_match(s, "="@, 0) == Some(6int)) by {
        let i = next_match(s, "="@, 0)->Some_0;
        assert(s.subrange(i, i + 1)[0] == '=');
        if i < 6 {
            assert(s[i] == head[i]);
        }
    }
    assert(s.skip(7).first() == ' ');
    assert(field_and_value(line, 0) is Err);
    assert(read_line(blank_entry(), line, 0) is Err);
    assert(read_lines(lines, 1) is Err) by {
        assert(read_lines(lines, 0) == Ok::<BibTeXModelView, Seq<char>>(blank_entry()));
    }
    lemma_read_lines_fails(lines, 1);
}

} // verus!
