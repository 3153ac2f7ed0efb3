use bibtexer::authors::{AuthorsFormatter, ElideMode};
use bibtexer::errors::ParseError;
use bibtexer::structs::BibTeXFormatter;
use bibtexer::{convert_bibtex, convert_bibtex_vectorized, convert_entry};

const ONE: &str = "@article{a,\ntitle={T},\nauthor={Doe, Jane},\njournal={J},\nyear={2020}\n}";

const TWO: &str = "@article{b,\ntitle={U},\nauthor={Roe, Jim and Poe, Al},\njournal={K},\nyear={2021}\n}";

fn formatter() -> Result<BibTeXFormatter, ParseError> {
    Ok(BibTeXFormatter::new(
        "{authors}: \"{title}\" ({year})".to_string(),
        AuthorsFormatter::new("l, f"),
    ))
}

fn before_last(limit: usize) -> Result<BibTeXFormatter, ParseError> {
    Ok(BibTeXFormatter::new(
        "{authors}: {title}".to_string(),
        AuthorsFormatter::new("l").with_elide(" ... ", limit, ElideMode::BeforeLast),
    ))
}

fn failed() -> Result<BibTeXFormatter, ParseError> {
    Err(ParseError::from_str("Error parsing JSON: no formatter"))
}

#[test]
fn convert_one_entry() {
    assert_eq!(convert_bibtex(ONE, formatter()).unwrap().unwrap(), "Doe, Jane: \"T\" (2020)");
}

#[test]
fn convert_one_entry_from_characters() {
    let text: Vec<char> = TWO.chars().collect();
    assert_eq!(convert_entry(&text, &formatter()).unwrap().unwrap(), "Roe, Jim et al., : \"U\" (2021)");
}

#[test]
fn convert_reports_the_entry_before_the_formatter() {
    let e = convert_bibtex("title={T}", failed()).unwrap().unwrap_err();
    assert_eq!(e.msg(), "'author' field not found");
}

#[test]
fn convert_reports_the_formatter() {
    let e = convert_bibtex(ONE, failed()).unwrap().unwrap_err();
    assert_eq!(e.msg(), "Error parsing JSON: no formatter");
}

#[test]
fn convert_gives_nothing_where_authors_cannot_be_written() {
    assert!(convert_bibtex(TWO, before_last(1)).is_none());
    assert!(convert_bibtex(ONE, before_last(0)).is_none());
    assert_eq!(convert_bibtex(ONE, before_last(1)).unwrap().unwrap(), "Doe: T");
    assert_eq!(convert_bibtex(TWO, before_last(2)).unwrap().unwrap(), "Roe and Poe: U");
}

#[test]
fn convert_many_entries() {
    let text = format!("{}{}", ONE, TWO);
    let out = convert_bibtex_vectorized(&text, formatter()).unwrap().unwrap();
    assert_eq!(out, vec!["Doe, Jane: \"T\" (2020)".to_string(), "Roe, Jim et al., : \"U\" (2021)".to_string()]);
}

#[test]
fn convert_many_skips_blank_fragments() {
    let text = format!(" \n\t@  @{}@\n@{}", ONE, TWO);
    let out = convert_bibtex_vectorized(&text, formatter()).unwrap().unwrap();
    assert_eq!(out.len(), 2);
    assert_eq!(out[0], "Doe, Jane: \"T\" (2020)");
}

#[test]
fn convert_many_of_nothing() {
    assert_eq!(convert_bibtex_vectorized("", formatter()).unwrap().unwrap(), Vec::<String>::new());
    assert_eq!(convert_bibtex_vectorized(" @ @@", formatter()).unwrap().unwrap(), Vec::<String>::new());
}

#[test]
fn convert_many_reads_what_stands_before_the_first_at() {
    let e = convert_bibtex_vectorized("junk", formatter()).unwrap().unwrap_err();
    assert_eq!(e.msg(), "'title' field not found");
}

#[test]
fn convert_many_stops_at_the_first_failure() {
    let text = format!("{}@article{{c,\ntitle=T\n}}{}", ONE, TWO);
    let e = convert_bibtex_vectorized(&text, formatter()).unwrap().unwrap_err();
    assert_eq!(e.msg(), "Value is not enclosed in braces: title=T (line 1)");
}

#[test]
fn convert_many_fails_on_entries_parted_by_a_line_break() {
    let text = format!("{}\n{}", ONE, TWO);
    let e = convert_bibtex_vectorized(&text, formatter()).unwrap().unwrap_err();
    assert_eq!(e.msg(), "Not in 'key=value' format:  (line 6)");
}

#[test]
fn convert_many_reports_the_formatter_first() {
    let e = convert_bibtex_vectorized("title=T", failed()).unwrap().unwrap_err();
    assert_eq!(e.msg(), "Error parsing JSON: no formatter");
}

#[test]
fn convert_many_gives_nothing_where_authors_cannot_be_written() {
    let text = format!("{}{}", ONE, TWO);
    assert!(convert_bibtex_vectorized(&text, before_last(1)).is_none());
    let text = format!("{}{}@x", TWO, ONE);
    assert!(convert_bibtex_vectorized(&text, before_last(0)).is_none());
    let text = format!("{}@x{}", ONE, TWO);
    let e = convert_bibtex_vectorized(&text, before_last(1)).unwrap().unwrap_err();
    assert_eq!(e.msg(), "'title' field not found");
}
