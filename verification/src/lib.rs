//! Reads a BibTeX entry from text and writes it as a citation, after a
//! template for the entry and one for each of its authors.
use vstd::prelude::*;
use vstd::string::*;

pub mod authors;
pub mod errors;
pub mod numbers;
pub mod structs;
pub mod template;
pub mod text;

use crate::authors::author_views;
use crate::errors::ParseError;
use crate::structs::{parse_entry, BibTeXFormatter, BibTeXFormatterView, BibTeXModel};
use crate::text::{append, chars_of, split, split_on, string_views, trim, trimmed, views};

verus! {

/// What a formatter that was read, or failed to be read, stands for.
pub open spec fn formatter_view(formatter: Result<BibTeXFormatter, ParseError>) -> Result<
    BibTeXFormatterView,
    Seq<char>,
> {
    match formatter {
        Ok(f) => Ok(f@),
        Err(e) => Err(e@),
    }
}

/// The citation of the entry that `text` writes. A text that writes no
/// entry gives its message, and after it a formatter that could not be read
/// gives its own. There is no citation where the formatter cannot write the
/// entry's list of authors.
pub open spec fn convert_one(
    text: Seq<char>,
    formatter: Result<BibTeXFormatterView, Seq<char>>,
) -> Option<Result<Seq<char>, Seq<char>>> {
    match parse_entry(text) {
        Err(m) => Some(Err(m)),
        Ok(e) => match formatter {
            Err(m) => Some(Err(m)),
            Ok(f) => if f.authors.renders(e.author.len()) {
                Some(Ok(e.format(f)))
            } else {
                None
            },
        },
    }
}

/// The citations of the first `n` fragments of a document, each of which is
/// what stood behind one `@`. A fragment of whitespace counts for nothing.
/// It ends with the first fragment that has no citation.
pub open spec fn convert_fragments(
    fragments: Seq<Seq<char>>,
    f: BibTeXFormatterView,
    n: nat,
) -> Option<Result<Seq<Seq<char>>, Seq<char>>>
    decreases n,
{
    if n == 0 {
        Some(Ok(Seq::empty()))
    } else {
        match convert_fragments(fragments, f, (n - 1) as nat) {
            Some(Ok(done)) => {
                if trim(fragments[n - 1]).len() == 0 {
                    Some(Ok(done))
                } else {
                    match convert_one("@"@ + fragments[n - 1], Ok(f)) {
                        Some(Ok(citation)) => Some(Ok(done.push(citation))),
                        Some(Err(m)) => Some(Err(m)),
                        None => None,
                    }
                }
            },
            other => other,
        }
    }
}

/// The citations of the entries of a document, which is cut at each `@`. A
/// formatter that could not be read gives its message before anything is
/// looked at.
pub open spec fn convert_many(
    text: Seq<char>,
    formatter: Result<BibTeXFormatterView, Seq<char>>,
) -> Option<Result<Seq<Seq<char>>, Seq<char>>> {
    match formatter {
        Err(m) => Some(Err(m)),
        Ok(f) => convert_fragments(split(text, "@"@), f, split(text, "@"@).len()),
    }
}

/// What became of a conversion, as views.
pub open spec fn outcome_view(r: Option<Result<String, ParseError>>) -> Option<
    Result<Seq<char>, Seq<char>>,
> {
    match r {
        Some(Ok(s)) => Some(Ok(s@)),
        Some(Err(e)) => Some(Err(e@)),
        None => None,
    }
}

/// What became of the conversion of a document, as views.
pub open spec fn outcomes_view(r: Option<Result<Vec<String>, ParseError>>) -> Option<
    Result<Seq<Seq<char>>, Seq<char>>,
> {
    match r {
        Some(Ok(list)) => Some(Ok(string_views(list@))),
        Some(Err(e)) => Some(Err(e@)),
        None => None,
    }
}

/// Once a fragment among the first `n` has no citation, the document has
/// none, and fails as that fragment does.
pub proof fn lemma_convert_fragments_stops(
    fragments: Seq<Seq<char>>,
    f: BibTeXFormatterView,
    n: nat,
)
    requires
        n <= fragments.len(),
        !(convert_fragments(fragments, f, n) matches Some(Ok(_))),
    ensures
        convert_fragments(fragments, f, fragments.len()) == convert_fragments(fragments, f, n),
    decreases fragments.len() - n,
{
    if n < fragments.len() {
        lemma_convert_fragments_stops(fragments, f, n + 1);
    }
}

/// Reads the entry that `text` writes and writes it as a citation. `None`
/// where the formatter cannot write the entry's list of authors.
pub fn convert_bibtex(text: &str, formatter: Result<BibTeXFormatter, ParseError>) -> (r: Option<
    Result<String, ParseError>,
>)
    ensures
        outcome_view(r) == convert_one(text@, formatter_view(formatter)),
{
    convert_entry(&chars_of(text), &formatter)
}

/// Reads the entry that the characters `text` write and writes it as a
/// citation.
pub fn convert_entry(text: &Vec<char>, formatter: &Result<BibTeXFormatter, ParseError>) -> (r:
    Option<Result<String, ParseError>>)
    ensures
        outcome_view(r) == convert_one(text@, formatter_view(*formatter)),
{
    let model = match BibTeXModel::read(text) {
        Ok(model) => model,
        Err(e) => {
            return Some(Err(e));
        },
    };
    match formatter {
        Err(e) => Some(Err(e.clone())),
        Ok(f) => {
            let authors = model.author();
            let n = authors.len();
            assert(model@.author.len() == n) by {
                assert(author_views(authors@).len() == n);
            }
            if f.authors.can_format(n) {
                Some(Ok(model.format(f)))
            } else {
                None
            }
        },
    }
}

/// Cuts a document at each `@` and writes each entry as a citation, in
/// order. The first entry that cannot be read ends it with that entry's
/// message. `None` where the formatter cannot write the list of authors of
/// an entry that was read.
pub fn convert_bibtex_vectorized(text: &str, formatter: Result<BibTeXFormatter, ParseError>) -> (r:
    Option<Result<Vec<String>, ParseError>>)
    ensures
        outcomes_view(r) == convert_many(text@, formatter_view(formatter)),
{
    if let Err(e) = &formatter {
        return Some(Err(e.clone()));
    }
    proof {
        reveal_strlit("@");
    }
    let fragments = split_on(&chars_of(text), &chars_of("@"));
    let mut out: Vec<String> = Vec::new();
    let mut i: usize = 0;
    assert(string_views(out@) == Seq::<Seq<char>>::empty());
    while i < fragments.len()
        invariant
            i <= fragments.len(),
            formatter is Ok,
            views(fragments@) == split(text@, "@"@),
            convert_fragments(views(fragments@), formatter->Ok_0@, i as nat) == Some(
                Ok::<Seq<Seq<char>>, Seq<char>>(string_views(out@)),
            ),
        decreases fragments.len() - i,
    {
        assert(views(fragments@)[i as int] == fragments@[i as int]@);
        if trimmed(&fragments[i]).len() != 0 {
            let mut entry = chars_of("@");
            append(&mut entry, &fragments[i]);
            let ghost before = out@;
            match convert_entry(&entry, &formatter) {
                Some(Ok(citation)) => {
                    out.push(citation);
                    assert(string_views(out@) == string_views(before).push(citation@));
                },
                Some(Err(e)) => {
                    proof {
                        lemma_convert_fragments_stops(
                            views(fragments@),
                            formatter->Ok_0@,
                            (i + 1) as nat,
                        );
                    }
                    return Some(Err(e));
                },
                None => {
                    proof {
                        lemma_convert_fragments_stops(
                            views(fragments@),
                            formatter->Ok_0@,
                            (i + 1) as nat,
                        );
                    }
                    return None;
                },
            }
        }
        i += 1;
    }
    Some(Ok(out))
}

} // verus!
