use bibtexer::authors::{Author, AuthorsFormatter, ElideMode, ElideSetting};

fn author(first: &str, last: &str, middle: &str) -> Author {
    Author { first: first.to_string(), last: last.to_string(), middle: middle.to_string() }
}

fn chars(s: &str) -> Vec<char> {
    s.chars().collect()
}

fn three() -> Vec<Author> {
    vec![author("John", "Smith", ""), author("Jane", "Doe", "Q"), author("Max", "Mustermann", "")]
}

#[test]
fn author_with_first_and_last_name() {
    let a = Author::from_string("Smith, John").unwrap();
    assert_eq!(a.first, "John");
    assert_eq!(a.last, "Smith");
    assert_eq!(a.middle, "");
    assert!(!a.has_middle());
}

#[test]
fn author_with_middle_name() {
    let a = Author::from_string("Smith, John Q").unwrap();
    assert_eq!(a.first, "John");
    assert_eq!(a.last, "Smith");
    assert_eq!(a.middle, "Q");
    assert!(a.has_middle());
}

#[test]
fn author_without_comma_fails() {
    let e = Author::from_string("Smith").unwrap_err();
    assert_eq!(e.msg(), "Author string does not contain comma: Smith");
}

#[test]
fn author_with_two_commas_fails() {
    let e = Author::from_string("Smith, John, Q").unwrap_err();
    assert_eq!(e.msg(), "Author string does not contain comma: Smith, John, Q");
}

#[test]
fn author_with_three_given_names_fails() {
    let e = Author::from_string("Smith, John Q Public").unwrap_err();
    assert_eq!(e.msg(), "Author string not in correct format: Smith, John Q Public");
}

#[test]
fn author_with_two_spaces_between_names_fails() {
    let e = Author::from_string("Smith, John  Q").unwrap_err();
    assert_eq!(e.msg(), "Author string not in correct format: Smith, John  Q");
}

#[test]
fn author_names_are_trimmed() {
    let a = Author::from_string("  Smith , John ").unwrap();
    assert_eq!(a.first, "John");
    assert_eq!(a.last, "Smith");
    assert_eq!(a.middle, "");
}

#[test]
fn author_may_have_empty_names() {
    let a = Author::from_string("Smith, ").unwrap();
    assert_eq!(a.first, "");
    assert_eq!(a.last, "Smith");
    assert_eq!(a.middle, "");
    let b = Author::from_string(", John").unwrap();
    assert_eq!(b.first, "John");
    assert_eq!(b.last, "");
}

#[test]
fn author_read_from_characters() {
    let a = Author::read(&chars("Doe, Jane R")).unwrap();
    assert_eq!(a.first, "Jane");
    assert_eq!(a.last, "Doe");
    assert_eq!(a.middle, "R");
}

#[test]
fn author_format_last_and_initial() {
    assert_eq!(author("John", "Smith", "").format("l, F."), "Smith, J.");
}

#[test]
fn author_format_initial_of_empty_name() {
    assert_eq!(author("", "Smith", "").format("l, F."), "Smith, #.");
    assert_eq!(author("John", "Smith", "").format("M"), "#");
    assert_eq!(author("John", "", "").format("L"), "#");
}

#[test]
fn author_format_all_tokens() {
    assert_eq!(author("John", "Smith", "Quincy").format("f m l / F M L"), "John Quincy Smith / J Q S");
}

#[test]
fn author_format_keeps_other_characters() {
    assert_eq!(author("John", "Smith", "").format("<x> 12, [l]"), "<x> 12, [Smith]");
    assert_eq!(author("John", "Smith", "").format(""), "");
}

#[test]
fn author_format_does_not_read_values_again() {
    assert_eq!(author("flm", "Smith", "").format("f"), "flm");
}

#[test]
fn author_initial_is_upper_case() {
    assert_eq!(author("john", "smith", "").format("F.L."), "J.S.");
    assert_eq!(author("élan", "strauß", "").format("F"), "É");
    assert_eq!(author("ßeta", "x", "").format("F"), "SS");
}

#[test]
fn author_format_with_given_initials() {
    let a = author("John", "Smith", "Q");
    assert_eq!(a.format_with("L F M l", "1", "22", ""), "22 1  Smith");
    assert_eq!(a.write(&chars("f-m-l-F"), "x", "y", "z"), chars("John-Q-Smith-x"));
}

#[test]
fn author_render_is_format() {
    let a = author("John", "Smith", "Q");
    let out: String = a.render(&chars("l, f m")).into_iter().collect();
    assert_eq!(out, a.format("l, f m"));
    assert_eq!(out, "Smith, John Q");
}

#[test]
fn author_clone_keeps_names() {
    let a = author("John", "Smith", "Q").clone();
    assert_eq!(a.first, "John");
    assert_eq!(a.last, "Smith");
    assert_eq!(a.middle, "Q");
}

#[test]
fn default_elision() {
    let e = ElideSetting::default();
    assert_eq!(e.letters, " et al., ");
    assert_eq!(e.limit, 1);
    assert_eq!(e.how, ElideMode::Last);
    let c = e.clone();
    assert_eq!(c.letters, " et al., ");
    assert_eq!(c.limit, 1);
    assert_eq!(c.how, ElideMode::Last);
}

#[test]
fn new_formatter_has_defaults() {
    let f = AuthorsFormatter::new("l, f");
    assert_eq!(f.fmt, "l, f");
    assert_eq!(f.sep, ", ");
    assert_eq!(f.and, " and ");
    assert_eq!(f.elide.letters, " et al., ");
    assert_eq!(f.elide.limit, 1);
    assert_eq!(f.elide.how, ElideMode::Last);
}

#[test]
fn with_sep_changes_the_separator_only() {
    let f = AuthorsFormatter::new("l, f").with_sep("; ");
    assert_eq!(f.fmt, "l, f");
    assert_eq!(f.sep, "; ");
    assert_eq!(f.and, " and ");
    assert_eq!(f.elide.letters, " et al., ");
    assert_eq!(f.elide.limit, 1);
    assert_eq!(f.elide.how, ElideMode::Last);
}

#[test]
fn with_elide_changes_the_elision_only() {
    let f = AuthorsFormatter::new("l, f").with_sep("; ").with_elide(" ... ", 4, ElideMode::BeforeLast);
    assert_eq!(f.fmt, "l, f");
    assert_eq!(f.sep, "; ");
    assert_eq!(f.and, " and ");
    assert_eq!(f.elide.letters, " ... ");
    assert_eq!(f.elide.limit, 4);
    assert_eq!(f.elide.how, ElideMode::BeforeLast);
}

#[test]
fn split_fmt_with_brackets() {
    let (plain, full) = AuthorsFormatter::new("l, F.[ M.]")._split_fmt();
    assert_eq!(plain, "l, F.");
    assert_eq!(full, "l, F. M.");
}

#[test]
fn split_fmt_with_brackets_in_the_middle() {
    let (plain, full) = AuthorsFormatter::new("f [m ]l")._split_fmt();
    assert_eq!(plain, "f l");
    assert_eq!(full, "f m l");
}

#[test]
fn split_fmt_without_brackets() {
    let (plain, full) = AuthorsFormatter::new("l, f")._split_fmt();
    assert_eq!(plain, "l, f");
    assert_eq!(full, "l, f");
}

#[test]
fn split_fmt_with_one_bracket_only() {
    let (plain, full) = AuthorsFormatter::new("l[, f")._split_fmt();
    assert_eq!(plain, "l[, f");
    assert_eq!(full, "l[, f");
    let (plain, full) = AuthorsFormatter::new("l], f")._split_fmt();
    assert_eq!(plain, "l], f");
    assert_eq!(full, "l], f");
}

#[test]
fn split_fmt_with_brackets_the_wrong_way_round() {
    let (plain, full) = AuthorsFormatter::new("l]m[f]")._split_fmt();
    assert_eq!(plain, "l]m[f]");
    assert_eq!(full, "l]m[f]");
}

#[test]
fn split_fmt_takes_the_first_brackets() {
    let (plain, full) = AuthorsFormatter::new("a[b]c]d[e")._split_fmt();
    assert_eq!(plain, "ac]d[e");
    assert_eq!(full, "abc]d[e");
}

#[test]
fn split_fmt_of_brackets_alone() {
    let (plain, full) = AuthorsFormatter::new("[m]")._split_fmt();
    assert_eq!(plain, "");
    assert_eq!(full, "m");
    let (plain, full) = AuthorsFormatter::new("[]")._split_fmt();
    assert_eq!(plain, "");
    assert_eq!(full, "");
}

#[test]
fn split_fmt_counts_characters_not_bytes() {
    let (plain, full) = AuthorsFormatter::new("é[ü]ö")._split_fmt();
    assert_eq!(plain, "éö");
    assert_eq!(full, "éüö");
}

#[test]
fn three_authors_with_default_elision() {
    let f = AuthorsFormatter::new("l, f");
    assert_eq!(f.format(&three()), "Smith, John et al., ");
}

#[test]
fn two_authors_with_default_elision() {
    let f = AuthorsFormatter::new("l, f");
    assert_eq!(f.format(&three()[..2].to_vec()), "Smith, John et al., ");
}

#[test]
fn one_author_stands_alone() {
    let f = AuthorsFormatter::new("l, f");
    assert_eq!(f.format(&three()[..1].to_vec()), "Smith, John");
}

#[test]
fn two_authors_are_joined_by_and() {
    let f = AuthorsFormatter::new("f l").with_elide(" et al.", 2, ElideMode::Last);
    assert_eq!(f.format(&three()[..2].to_vec()), "John Smith and Jane Doe");
}

#[test]
fn three_authors_are_joined_by_sep_and_and() {
    let f = AuthorsFormatter::new("f l").with_sep("; ").with_elide(" et al.", 3, ElideMode::Last);
    assert_eq!(f.format(&three()), "John Smith; Jane Doe and Max Mustermann");
}

#[test]
fn middle_name_template_is_used_where_there_is_one() {
    let f = AuthorsFormatter::new("l, F.[ M.]").with_elide(" et al.", 3, ElideMode::Last);
    assert_eq!(f.format(&three()), "Smith, J., Doe, J. Q. and Mustermann, M.");
}

#[test]
fn elision_keeps_the_first_authors() {
    let f = AuthorsFormatter::new("l").with_elide(" et al.", 2, ElideMode::Last);
    assert_eq!(f.format(&three()), "Smith, Doe et al.");
}

#[test]
fn elision_with_limit_zero_keeps_the_mark_only() {
    let f = AuthorsFormatter::new("l").with_elide("et al.", 0, ElideMode::Last);
    assert_eq!(f.format(&three()), "et al.");
}

#[test]
fn elision_before_last_keeps_the_last_author() {
    let f = AuthorsFormatter::new("l").with_elide(" ... ", 2, ElideMode::BeforeLast);
    assert_eq!(f.format(&three()), " ... Mustermann");
    let mut five = three();
    five.push(author("A", "Four", ""));
    five.push(author("B", "Five", ""));
    let g = AuthorsFormatter::new("l").with_elide(" ... ", 4, ElideMode::BeforeLast);
    assert_eq!(g.format(&five), "Smith, Doe ... Five");
    assert_eq!(g.with_elide(" ... ", 5, ElideMode::BeforeLast).format(&five), "Smith, Doe, Mustermann, Four and Five");
}

#[test]
fn arrange_puts_written_authors_together() {
    let f = AuthorsFormatter::new("l").with_elide(" et al.", 3, ElideMode::Last);
    let items = vec![chars("a"), chars("b"), chars("c")];
    assert_eq!(f.arrange(&items), chars("a, b and c"));
    assert_eq!(f.arrange(&items[..2].to_vec()), chars("a and b"));
    assert_eq!(f.arrange(&items[..1].to_vec()), chars("a"));
    let g = f.with_elide(" et al.", 1, ElideMode::Last);
    assert_eq!(g.arrange(&items), chars("a et al."));
}

#[test]
fn can_format_needs_an_author() {
    let f = AuthorsFormatter::new("l");
    assert!(!f.can_format(0));
    assert!(f.can_format(1));
    assert!(f.can_format(7));
}

#[test]
fn can_format_needs_room_for_two_before_the_last() {
    let f = AuthorsFormatter::new("l").with_elide("...", 1, ElideMode::BeforeLast);
    assert!(f.can_format(1));
    assert!(!f.can_format(2));
    let g = AuthorsFormatter::new("l").with_elide("...", 0, ElideMode::BeforeLast);
    assert!(!g.can_format(1));
    let h = AuthorsFormatter::new("l").with_elide("...", 2, ElideMode::BeforeLast);
    assert!(h.can_format(1));
    assert!(h.can_format(2));
    assert!(h.can_format(3));
}
