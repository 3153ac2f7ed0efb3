//! Authors, and how a list of them is written.
use vstd::prelude::*;
use vstd::string::*;
use crate::errors::ParseError;
use crate::text::{
    append, append_str, chars_of, find, join, joined, next_match, slice_of, split, split_on,
    string_of, to_uppercase, trim, trimmed, uppercase, views,
};

verus! {

/// One person's name. `middle` is empty where there is no middle name.
#[derive(Debug)]
pub struct Author {
    pub first: String,
    pub last: String,
    pub middle: String,
}

/// What an `Author` holds.
pub struct AuthorView {
    pub first: Seq<char>,
    pub last: Seq<char>,
    pub middle: Seq<char>,
}

impl View for Author {
    type V = AuthorView;

    open spec fn view(&self) -> AuthorView {
        AuthorView { first: self.first@, last: self.last@, middle: self.middle@ }
    }
}

impl Clone for Author {
    fn clone(&self) -> (a: Author)
        ensures
            a == *self,
    {
        Author { first: self.first.clone(), last: self.last.clone(), middle: self.middle.clone() }
    }
}

/// The author that the text `s` names, "Last, First" or "Last, First Middle",
/// or the message that says why it names none.
pub open spec fn parse_author(s: Seq<char>) -> Result<AuthorView, Seq<char>> {
    let parts = split(s, ", "@);
    if parts.len() != 2 {
        Err("Author string does not contain comma: "@ + s)
    } else {
        let names = split(trim(parts[1]), " "@);
        if names.len() == 1 {
            Ok(AuthorView { first: names[0], last: trim(parts[0]), middle: Seq::empty() })
        } else if names.len() == 2 {
            Ok(AuthorView { first: names[0], last: trim(parts[0]), middle: names[1] })
        } else {
            Err("Author string not in correct format: "@ + s)
        }
    }
}

/// The initial of a name: the uppercase of its first character, or `#` for
/// an empty name.
pub open spec fn initial(name: Seq<char>) -> Seq<char> {
    if name.len() == 0 {
        seq!['#']
    } else {
        uppercase(name[0])
    }
}

impl AuthorView {
    /// What the character `c` of an author's template stands for, given the
    /// three initials: `f`, `l` and `m` for the first, last and middle name,
    /// `F`, `L` and `M` for their initials, any other character for itself.
    pub open spec fn token(
        self,
        c: char,
        first_initial: Seq<char>,
        last_initial: Seq<char>,
        middle_initial: Seq<char>,
    ) -> Seq<char> {
        if c == 'f' {
            self.first
        } else if c == 'l' {
            self.last
        } else if c == 'm' {
            self.middle
        } else if c == 'F' {
            first_initial
        } else if c == 'L' {
            last_initial
        } else if c == 'M' {
            middle_initial
        } else {
            seq![c]
        }
    }

    /// The author written after the template `fmt`, given the three
    /// initials: what each character of `fmt` stands for, one after the
    /// other.
    pub open spec fn written(
        self,
        fmt: Seq<char>,
        first_initial: Seq<char>,
        last_initial: Seq<char>,
        middle_initial: Seq<char>,
    ) -> Seq<char> {
        fmt.map_values(|c: char| self.token(c, first_initial, last_initial, middle_initial))
            .flatten()
    }

    /// The author written after the template `fmt`.
    pub open spec fn render(self, fmt: Seq<char>) -> Seq<char> {
        self.written(fmt, initial(self.first), initial(self.last), initial(self.middle))
    }

    /// One character more in the template is what it stands for more in
    /// what is written.
    pub proof fn lemma_written_push(
        self,
        fmt: Seq<char>,
        c: char,
        first_initial: Seq<char>,
        last_initial: Seq<char>,
        middle_initial: Seq<char>,
    )
        ensures
            self.written(fmt.push(c), first_initial, last_initial, middle_initial) == self.written(
                fmt,
                first_initial,
                last_initial,
                middle_initial,
            ) + self.token(c, first_initial, last_initial, middle_initial),
    {
        let value = |c: char| self.token(c, first_initial, last_initial, middle_initial);
        assert(fmt.push(c).map_values(value) == fmt.map_values(value).push(value(c)));
        fmt.map_values(value).lemma_flatten_push(value(c));
    }
}

/// The initial of `name`.
pub fn initial_of(name: &str) -> (out: String)
    ensures
        out@ == initial(name@),
{
    if name.is_empty() {
        proof {
            reveal_strlit("#");
            assert("#"@ == seq!['#']);
        }
        String::from_str("#")
    } else {
        to_uppercase(name.get_char(0))
    }
}

impl Author {
    /// Reads an author from "Last, First" or "Last, First Middle".
    pub fn from_string(s: &str) -> (r: Result<Author, ParseError>)
        ensures
            match r {
                Ok(a) => parse_author(s@) == Ok::<AuthorView, Seq<char>>(a@),
                Err(e) => parse_author(s@) == Err::<AuthorView, Seq<char>>(e@),
            },
    {
        let text = chars_of(s);
        Author::read(&text)
    }

    /// Reads an author from the characters of "Last, First" or
    /// "Last, First Middle".
    pub fn read(text: &Vec<char>) -> (r: Result<Author, ParseError>)
        ensures
            match r {
                Ok(a) => parse_author(text@) == Ok::<AuthorView, Seq<char>>(a@),
                Err(e) => parse_author(text@) == Err::<AuthorView, Seq<char>>(e@),
            },
    {
        proof {
            reveal_strlit(", ");
            reveal_strlit(" ");
        }
        let parts = split_on(text, &chars_of(", "));
        if parts.len() != 2 {
            let mut msg = chars_of("Author string does not contain comma: ");
            append(&mut msg, text);
            return Err(ParseError::new(string_of(&msg)));
        }
        assert(views(parts@)[0] == parts@[0]@ && views(parts@)[1] == parts@[1]@);
        let last = trimmed(&parts[0]);
        let names = split_on(&trimmed(&parts[1]), &chars_of(" "));
        if names.len() == 1 {
            assert(views(names@)[0] == names@[0]@);
            Ok(
                Author {
                    first: string_of(&names[0]),
                    last: string_of(&last),
                    middle: String::new(),
                },
            )
        } else if names.len() == 2 {
            assert(views(names@)[0] == names@[0]@ && views(names@)[1] == names@[1]@);
            Ok(
                Author {
                    first: string_of(&names[0]),
                    last: string_of(&last),
                    middle: string_of(&names[1]),
                },
            )
        } else {
            let mut msg = chars_of("Author string not in correct format: ");
            append(&mut msg, text);
            Err(ParseError::new(string_of(&msg)))
        }
    }

    /// The author written after the characters of the template `fmt`, with
    /// the three initials as given.
    pub fn write(
        &self,
        fmt: &Vec<char>,
        first_initial: &str,
        last_initial: &str,
        middle_initial: &str,
    ) -> (out: Vec<char>)
        ensures
            out@ == self@.written(fmt@, first_initial@, last_initial@, middle_initial@),
    {
        let mut out: Vec<char> = Vec::new();
        let mut i: usize = 0;
        assert(fmt@.take(0).map_values(
            |c: char| self@.token(c, first_initial@, last_initial@, middle_initial@),
        ) == Seq::<Seq<char>>::empty());
        while i < fmt.len()
            invariant
                i <= fmt.len(),
                out@ == self@.written(
                    fmt@.take(i as int),
                    first_initial@,
                    last_initial@,
                    middle_initial@,
                ),
            decreases fmt.len() - i,
        {
            let c = fmt[i];
            proof {
                assert(fmt@.take(i + 1) == fmt@.take(i as int).push(c));
                self@.lemma_written_push(
                    fmt@.take(i as int),
                    c,
                    first_initial@,
                    last_initial@,
                    middle_initial@,
                );
            }
            if c == 'f' {
                append_str(&mut out, self.first.as_str());
            } else if c == 'l' {
                append_str(&mut out, self.last.as_str());
            } else if c == 'm' {
                append_str(&mut out, self.middle.as_str());
            } else if c == 'F' {
                append_str(&mut out, first_initial);
            } else if c == 'L' {
                append_str(&mut out, last_initial);
            } else if c == 'M' {
                append_str(&mut out, middle_initial);
            } else {
                out.push(c);
            }
            i += 1;
        }
        assert(fmt@.take(fmt.len() as int) == fmt@);
        out
    }

    /// The author written after the template `fmt`, with the three initials
    /// as given.
    pub fn format_with(
        &self,
        fmt: &str,
        first_initial: &str,
        last_initial: &str,
        middle_initial: &str,
    ) -> (out: String)
        ensures
            out@ == self@.written(fmt@, first_initial@, last_initial@, middle_initial@),
    {
        string_of(&self.write(&chars_of(fmt), first_initial, last_initial, middle_initial))
    }

    /// The author written after the characters of the template `fmt`.
    pub fn render(&self, fmt: &Vec<char>) -> (out: Vec<char>)
        ensures
            out@ == self@.render(fmt@),
    {
        let first_initial = initial_of(self.first.as_str());
        let last_initial = initial_of(self.last.as_str());
        let middle_initial = initial_of(self.middle.as_str());
        self.write(fmt, first_initial.as_str(), last_initial.as_str(), middle_initial.as_str())
    }

    /// The author written after the template `fmt`.
    pub fn format(&self, fmt: &str) -> (out: String)
        ensures
            out@ == self@.render(fmt@),
    {
        string_of(&self.render(&chars_of(fmt)))
    }

    /// Whether the author has a middle name.
    pub fn has_middle(&self) -> (b: bool)
        ensures
            b == (self@.middle.len() > 0),
    {
        !self.middle.as_str().is_empty()
    }
}

/// How a long list of authors is cut short.
#[derive(Debug, Clone, Copy, PartialEq, Eq, Structural)]
pub enum ElideMode {
    /// The first authors, then the mark.
    Last,
    /// The first authors, then the mark, then the last author.
    BeforeLast,
}

/// When a list of authors is cut short, and how.
pub struct ElideSetting {
    /// The mark that stands for the authors left out.
    pub letters: String,
    /// The longest list that is written in full.
    pub limit: usize,
    pub how: ElideMode,
}

/// What an `ElideSetting` holds.
pub struct ElideSettingView {
    pub letters: Seq<char>,
    pub limit: nat,
    pub how: ElideMode,
}

impl View for ElideSetting {
    type V = ElideSettingView;

    open spec fn view(&self) -> ElideSettingView {
        ElideSettingView { letters: self.letters@, limit: self.limit as nat, how: self.how }
    }
}

impl Clone for ElideSetting {
    fn clone(&self) -> (e: ElideSetting)
        ensures
            e == *self,
    {
        ElideSetting { letters: self.letters.clone(), limit: self.limit, how: self.how }
    }
}

impl ElideSetting {
    /// Lists of more than one author end in " et al., " after the first.
    pub fn default() -> (e: ElideSetting)
        ensures
            e@ == (ElideSettingView { letters: " et al., "@, limit: 1, how: ElideMode::Last }),
    {
        ElideSetting { letters: String::from_str(" et al., "), limit: 1, how: ElideMode::Last }
    }
}

/// How a list of authors is written: the template of one author, what
/// stands between two authors, what stands before the last one, and how a
/// long list is cut short.
pub struct AuthorsFormatter {
    pub fmt: String,
    pub sep: String,
    pub and: String,
    pub elide: ElideSetting,
}

/// What an `AuthorsFormatter` holds.
pub struct AuthorsFormatterView {
    pub fmt: Seq<char>,
    pub sep: Seq<char>,
    pub and: Seq<char>,
    pub elide: ElideSettingView,
}

impl View for AuthorsFormatter {
    type V = AuthorsFormatterView;

    open spec fn view(&self) -> AuthorsFormatterView {
        AuthorsFormatterView {
            fmt: self.fmt@,
            sep: self.sep@,
            and: self.and@,
            elide: self.elide@,
        }
    }
}

/// The view of each author of a list.
pub open spec fn author_views(authors: Seq<Author>) -> Seq<AuthorView> {
    authors.map_values(|a: Author| a@)
}

/// The two templates that `fmt` stands for: the one for an author without
/// a middle name, and the one for an author with one. Where the first `[`
/// of `fmt` comes before its first `]`, the first template is `fmt` without
/// what the two enclose and without the two, and the second is `fmt` without
/// the two alone. Otherwise both are `fmt`.
pub open spec fn split_fmt(fmt: Seq<char>) -> (Seq<char>, Seq<char>) {
    match (next_match(fmt, "["@, 0), next_match(fmt, "]"@, 0)) {
        (Some(l), Some(r)) if l < r => (
            fmt.take(l) + fmt.skip(r + 1),
            fmt.take(l) + fmt.subrange(l + 1, r) + fmt.skip(r + 1),
        ),
        _ => (fmt, fmt),
    }
}

impl AuthorsFormatterView {
    /// Whether a list of `n` authors can be written: it is not empty, and
    /// where it is cut short with the last author kept, the limit leaves
    /// room for two.
    pub open spec fn renders(self, n: nat) -> bool {
        n >= 1 && (n > self.elide.limit && self.elide.how == ElideMode::BeforeLast
            ==> self.elide.limit >= 2)
    }

    /// Each author written after the template that fits: the one with the
    /// middle name where the author has one.
    pub open spec fn rendered(self, authors: Seq<AuthorView>) -> Seq<Seq<char>> {
        authors.map_values(
            |a: AuthorView|
                if a.middle.len() > 0 {
                    a.render(split_fmt(self.fmt).1)
                } else {
                    a.render(split_fmt(self.fmt).0)
                },
        )
    }

    /// One author more is one written author more.
    pub proof fn lemma_rendered_push(self, authors: Seq<AuthorView>, a: AuthorView)
        ensures
            self.rendered(authors.push(a)) == self.rendered(authors).push(
                if a.middle.len() > 0 {
                    a.render(split_fmt(self.fmt).1)
                } else {
                    a.render(split_fmt(self.fmt).0)
                },
            ),
    {
    }

    /// The written authors put together. A list longer than the limit is
    /// cut short: its first `limit` items joined by `sep` and then the mark,
    /// or its first `limit - 2` items joined by `sep`, the mark, and the last
    /// item. Two items are joined by `and`; one stands alone; more are joined
    /// by `sep`, with `and` before the last.
    pub open spec fn arrange(self, items: Seq<Seq<char>>) -> Seq<char> {
        if items.len() > self.elide.limit {
            match self.elide.how {
                ElideMode::Last => join(items.take(self.elide.limit as int), self.sep)
                    + self.elide.letters,
                ElideMode::BeforeLast => join(items.take(self.elide.limit - 2), self.sep)
                    + self.elide.letters + items.last(),
            }
        } else if items.len() == 2 {
            items[0] + self.and + items[1]
        } else if items.len() == 1 {
            items[0]
        } else {
            join(items.drop_last(), self.sep) + self.and + items.last()
        }
    }

    /// The list of authors as one text.
    pub open spec fn format(self, authors: Seq<AuthorView>) -> Seq<char> {
        self.arrange(self.rendered(authors))
    }
}

/// The two templates that `fmt` stands for.
pub fn split_template(fmt: &Vec<char>) -> (r: (Vec<char>, Vec<char>))
    ensures
        (r.0@, r.1@) == split_fmt(fmt@),
{
    let left = find(fmt, &chars_of("["), 0);
    let right = find(fmt, &chars_of("]"), 0);
    proof {
        reveal_strlit("[");
        reveal_strlit("]");
        assert(fmt@.subrange(0, fmt.len() as int) == fmt@);
    }
    match (left, right) {
        (Some(l), Some(r)) => {
            if l < r {
                let mut plain = slice_of(fmt, 0, l);
                let mut full = slice_of(fmt, 0, l);
                let inner = slice_of(fmt, l + 1, r);
                let rest = slice_of(fmt, r + 1, fmt.len());
                append(&mut plain, &rest);
                append(&mut full, &inner);
                append(&mut full, &rest);
                (plain, full)
            } else {
                (slice_of(fmt, 0, fmt.len()), slice_of(fmt, 0, fmt.len()))
            }
        },
        _ => (slice_of(fmt, 0, fmt.len()), slice_of(fmt, 0, fmt.len())),
    }
}

impl AuthorsFormatter {
    /// The two templates of this formatter: without and with a middle name.
    pub fn _split_fmt(&self) -> (r: (String, String))
        ensures
            (r.0@, r.1@) == split_fmt(self@.fmt),
    {
        let (plain, full) = split_template(&chars_of(self.fmt.as_str()));
        (string_of(&plain), string_of(&full))
    }

    /// A formatter with the template `s`, ", " between authors, " and "
    /// before the last, and the default way to cut a long list short.
    pub fn new(s: &str) -> (f: AuthorsFormatter)
        ensures
            f@ == (AuthorsFormatterView {
                fmt: s@,
                sep: ", "@,
                and: " and "@,
                elide: ElideSettingView {
                    letters: " et al., "@,
                    limit: 1,
                    how: ElideMode::Last,
                },
            }),
    {
        AuthorsFormatter {
            fmt: String::from_str(s),
            sep: String::from_str(", "),
            and: String::from_str(" and "),
            elide: ElideSetting::default(),
        }
    }

    /// This formatter with `sep` between authors.
    pub fn with_sep(&self, sep: &str) -> (f: AuthorsFormatter)
        ensures
            f@ == (AuthorsFormatterView { sep: sep@, ..self@ }),
    {
        AuthorsFormatter {
            fmt: self.fmt.clone(),
            sep: String::from_str(sep),
            and: self.and.clone(),
            elide: self.elide.clone(),
        }
    }

    /// This formatter with another way to cut a long list short.
    pub fn with_elide(&self, letters: &str, limit: usize, how: ElideMode) -> (f: AuthorsFormatter)
        ensures
            f@ == (AuthorsFormatterView {
                elide: ElideSettingView { letters: letters@, limit: limit as nat, how },
                ..self@
            }),
    {
        AuthorsFormatter {
            fmt: self.fmt.clone(),
            sep: self.sep.clone(),
            and: self.and.clone(),
            elide: ElideSetting { letters: String::from_str(letters), limit, how },
        }
    }

    /// Whether a list of `n` authors can be written.
    pub fn can_format(&self, n: usize) -> (b: bool)
        ensures
            b == self@.renders(n as nat),
    {
        n >= 1 && (!(n > self.elide.limit) || match self.elide.how {
            ElideMode::Last => true,
            ElideMode::BeforeLast => self.elide.limit >= 2,
        })
    }

    /// The written authors put together.
    pub fn arrange(&self, items: &Vec<Vec<char>>) -> (out: Vec<char>)
        requires
            self@.renders(items@.len()),
        ensures
            out@ == self@.arrange(views(items@)),
    {
        let n = items.len();
        let sep = chars_of(self.sep.as_str());
        let and = chars_of(self.and.as_str());
        let letters = chars_of(self.elide.letters.as_str());
        proof {
            assert(views(items@).last() == items@[n - 1]@);
            assert(views(items@)[0] == items@[0]@);
        }
        if n > self.elide.limit {
            match self.elide.how {
                ElideMode::Last => {
                    let mut out = joined(items, self.elide.limit, &sep);
                    append(&mut out, &letters);
                    out
                },
                ElideMode::BeforeLast => {
                    let mut out = joined(items, self.elide.limit - 2, &sep);
                    append(&mut out, &letters);
                    append(&mut out, &items[n - 1]);
                    out
                },
            }
        } else if n == 2 {
            assert(views(items@)[1] == items@[1]@);
            let mut out = slice_of(&items[0], 0, items[0].len());
            assert(items@[0]@.subrange(0, items@[0]@.len() as int) == items@[0]@);
            append(&mut out, &and);
            append(&mut out, &items[1]);
            out
        } else if n == 1 {
            assert(items@[0]@.subrange(0, items@[0]@.len() as int) == items@[0]@);
            slice_of(&items[0], 0, items[0].len())
        } else {
            let mut out = joined(items, n - 1, &sep);
            assert(views(items@).drop_last() == views(items@).take(n - 1));
            append(&mut out, &and);
            append(&mut out, &items[n - 1]);
            out
        }
    }

    /// The list of authors as one text.
    pub fn format(&self, authors: &Vec<Author>) -> (out: String)
        requires
            self@.renders(authors@.len()),
        ensures
            out@ == self@.format(author_views(authors@)),
    {
        let (plain, full) = split_template(&chars_of(self.fmt.as_str()));
        let mut items: Vec<Vec<char>> = Vec::new();
        let mut i: usize = 0;
        while i < authors.len()
            invariant
                i <= authors.len(),
                (plain@, full@) == split_fmt(self@.fmt),
                views(items@) == self@.rendered(author_views(authors@).take(i as int)),
            decreases authors.len() - i,
        {
            let ghost before = items@;
            let item = if authors[i].has_middle() {
                authors[i].render(&full)
            } else {
                authors[i].render(&plain)
            };
            items.push(item);
            proof {
                let done = author_views(authors@).take(i as int);
                assert(author_views(authors@).take(i + 1) == done.push(authors@[i as int]@));
                assert(views(items@) == views(before).push(item@));
                self@.lemma_rendered_push(done, authors@[i as int]@);
            }
            i += 1;
        }
        assert(author_views(authors@).take(authors@.len() as int) == author_views(authors@));
        assert(views(items@).len() == items@.len());
        string_of(&self.arrange(&items))
    }
}

/// A template of one character is written as what the character stands
/// for; so `F` gives `#` for an author without a first name.
pub proof fn lemma_render_one(a: AuthorView, c: char)
    ensures
        a.render(seq![c]) == a.token(c, initial(a.first), initial(a.last), initial(a.middle)),
        a.first.len() == 0 ==> a.render("F"@) == seq!['#'],
{
    a.lemma_written_push(Seq::empty(), c, initial(a.first), initial(a.last), initial(a.middle));
    assert(Seq::<char>::empty().push(c) == seq![c]);
    assert(a.written(Seq::empty(), initial(a.first), initial(a.last), initial(a.middle))
        == Seq::<char>::empty()) by {
        assert(Seq::<char>::empty().map_values(
            |c: char| a.token(c, initial(a.first), initial(a.last), initial(a.middle)),
        ) == Seq::<Seq<char>>::empty());
    }
    if a.first.len() == 0 {
        reveal_strlit("F");
        a.lemma_written_push(
            Seq::empty(),
            'F',
            initial(a.first),
            initial(a.last),
            initial(a.middle),
        );
        assert(Seq::<char>::empty().push('F') == "F"@);
    }
}

/// A list that is longer than the limit and cut short after its first
/// authors is written as the first `limit` authors, with `sep` between them,
/// and the mark.
pub proof fn lemma_long_list_is_cut_short(f: AuthorsFormatterView, authors: Seq<AuthorView>)
    requires
        authors.len() > f.elide.limit,
        f.elide.how == ElideMode::Last,
    ensures
        f.format(authors) == join(f.rendered(authors).take(f.elide.limit as int), f.sep)
            + f.elide.letters,
{
}

/// With the default way to cut a list short, a list of more than one
/// author is written as its first author and " et al., ".
pub proof fn lemma_default_elision(f: AuthorsFormatterView, authors: Seq<AuthorView>)
    requires
        f.elide == (ElideSettingView { letters: " et al., "@, limit: 1, how: ElideMode::Last }),
        authors.len() > 1,
    ensures
        f.format(authors) == f.rendered(authors)[0] + " et al., "@,
{
    let items = f.rendered(authors);
    assert(items.take(1).len() == 1);
    assert(items.take(1)[0] == items[0]);
    assert(join(items.take(1), f.sep) == items[0]);
}

/// Two authors that the limit lets stand are written with `and` between
/// them.
pub proof fn lemma_two_authors(f: AuthorsFormatterView, authors: Seq<AuthorView>)
    requires
        authors.len() == 2,
        f.elide.limit >= 2,
    ensures
        f.format(authors) == f.rendered(authors)[0] + f.and + f.rendered(authors)[1],
{
}

/// One author whom the limit lets stand is written alone: nothing stands
/// before or behind.
pub proof fn lemma_one_author(f: AuthorsFormatterView, authors: Seq<AuthorView>)
    requires
        authors.len() == 1,
        f.elide.limit >= 1,
    ensures
        f.format(authors) == f.rendered(authors)[0],
        f.format(authors) == authors[0].render(
            if authors[0].middle.len() > 0 {
                split_fmt(f.fmt).1
            } else {
                split_fmt(f.fmt).0
            },
        ),
{
}

} // verus!
