//! The tables of title holders by year, and the replies to queries on them.

use crate::text::{
    join_from, joined, lowercase_of, parse_number, parsed_number, same_text, split_whitespace, texts,
    title_case, title_cased, to_lowercase, whitespace_tokens,
};
use vstd::prelude::*;
use vstd::string::*;

verus! {

/// A drivers' title: the year and the driver who won it.
#[derive(Clone, Debug)]
pub struct Champion {
    pub year: String,
    pub driver: String,
}

/// A constructors' title: the year and the constructor who won it.
#[derive(Clone, Debug)]
pub struct Car {
    pub year: String,
    pub constructor: String,
}

/// A record of a title table: a year and the name of the holder.
pub trait TitleRecord {
    spec fn year_text(&self) -> Seq<char>;

    spec fn holder_text(&self) -> Seq<char>;

    fn year_str(&self) -> (r: &str)
        ensures
            r@ == self.year_text(),
    ;

    fn holder_str(&self) -> (r: &str)
        ensures
            r@ == self.holder_text(),
    ;
}

impl TitleRecord for Champion {
    open spec fn year_text(&self) -> Seq<char> {
        self.year@
    }

    open spec fn holder_text(&self) -> Seq<char> {
        self.driver@
    }

    fn year_str(&self) -> (r: &str) {
        self.year.as_str()
    }

    fn holder_str(&self) -> (r: &str) {
        self.driver.as_str()
    }
}

impl TitleRecord for Car {
    open spec fn year_text(&self) -> Seq<char> {
        self.year@
    }

    open spec fn holder_text(&self) -> Seq<char> {
        self.constructor@
    }

    fn year_str(&self) -> (r: &str) {
        self.year.as_str()
    }

    fn holder_str(&self) -> (r: &str) {
        self.constructor.as_str()
    }
}

/// The words of the replies for one kind of title, and the first year in
/// which that title was awarded.
pub struct Wording {
    pub first_year: u64,
    pub missing: &'static str,
    pub year_missing: &'static str,
    pub year_label: &'static str,
    pub none_prefix: &'static str,
    pub won_infix: &'static str,
}

/// The last year that a query by year accepts.
pub const LAST_YEAR: u64 = 2023;

/// The wording for the drivers' title.
pub open spec fn driver_wording() -> Wording {
    Wording {
        first_year: 1950,
        missing: "Please provide a year or a full driver name.",
        year_missing: "Drivers' Champion not found for the specified year.",
        year_label: ", Drivers' Champion: ",
        none_prefix: "No Drivers' Championship found for '",
        won_infix: " won the Drivers' Championship in: ",
    }
}

/// The wording for the constructors' title.
pub open spec fn constructor_wording() -> Wording {
    Wording {
        first_year: 1958,
        missing: "Please provide a year or a full constructor name.",
        year_missing: "Constructors' Champion not found for the specified year.",
        year_label: ", Constructors' Champion: ",
        none_prefix: "No Constructors' championship found for '",
        won_infix: " won the Constructors' Championship in: ",
    }
}

/// The wording for the drivers' title.
pub fn driver_words() -> (r: Wording)
    ensures
        r == driver_wording(),
{
    Wording {
        first_year: 1950,
        missing: "Please provide a year or a full driver name.",
        year_missing: "Drivers' Champion not found for the specified year.",
        year_label: ", Drivers' Champion: ",
        none_prefix: "No Drivers' Championship found for '",
        won_infix: " won the Drivers' Championship in: ",
    }
}

/// The wording for the constructors' title.
pub fn constructor_words() -> (r: Wording)
    ensures
        r == constructor_wording(),
{
    Wording {
        first_year: 1958,
        missing: "Please provide a year or a full constructor name.",
        year_missing: "Constructors' Champion not found for the specified year.",
        year_label: ", Constructors' Champion: ",
        none_prefix: "No Constructors' championship found for '",
        won_infix: " won the Constructors' Championship in: ",
    }
}

/// The year and holder texts of a table's records, in order.
pub open spec fn rows_of<T: TitleRecord>(records: Seq<T>) -> Seq<(Seq<char>, Seq<char>)> {
    Seq::new(records.len(), |i: int| (records[i].year_text(), records[i].holder_text()))
}

/// Whether a parsed second word asks for a year: it is a number from the
/// title's first year to the last year. Anything else is read as a name.
pub open spec fn is_title_year(parsed: Option<u64>, first_year: u64) -> bool {
    parsed is Some && first_year <= parsed.unwrap() <= LAST_YEAR
}

/// The index of the first row at or after `from` whose year is `year`, or
/// the number of rows where there is none.
pub open spec fn first_year_match(rows: Seq<(Seq<char>, Seq<char>)>, year: Seq<char>, from: int) -> int
    decreases rows.len() - from,
{
    if from < 0 || from >= rows.len() {
        rows.len() as int
    } else if rows[from].0 == year {
        from
    } else {
        first_year_match(rows, year, from + 1)
    }
}

/// The years of the first `upto` rows whose holder, in lower case, is
/// `query`, in the table's order.
pub open spec fn years_of(rows: Seq<(Seq<char>, Seq<char>)>, query: Seq<char>, upto: int) -> Seq<Seq<char>>
    decreases upto,
{
    if upto <= 0 {
        Seq::empty()
    } else {
        let rest = years_of(rows, query, upto - 1);
        if lowercase_of(rows[upto - 1].1) == query {
            rest.push(rows[upto - 1].0)
        } else {
            rest
        }
    }
}

/// The reply to a query by year, given the row it found, if any.
pub open spec fn year_answer(rows: Seq<(Seq<char>, Seq<char>)>, found: int, w: Wording) -> Seq<char> {
    if 0 <= found < rows.len() {
        "Year: "@ + rows[found].0 + w.year_label@ + rows[found].1
    } else {
        w.year_missing@
    }
}

/// The reply to a query by name, given the name as displayed and the years
/// that were found for it.
pub open spec fn name_answer(display: Seq<char>, years: Seq<Seq<char>>, w: Wording) -> Seq<char> {
    if years.len() == 0 {
        w.none_prefix@ + display + "'."@
    } else {
        display + w.won_infix@ + joined(years, ", "@, 0, years.len() as int)
    }
}

/// The reply to a title query. The text is split at whitespace; the first
/// word is the command. Without a second word the reply asks for one. A
/// second word that parses as a year in range is looked up by exact match
/// of the year's text; otherwise all words after the command, joined by
/// single spaces and put in lower case, are the name to look for.
pub open spec fn title_answer(rows: Seq<(Seq<char>, Seq<char>)>, content: Seq<char>, w: Wording) -> Seq<char> {
    let tokens = whitespace_tokens(content);
    if tokens.len() < 2 {
        w.missing@
    } else if is_title_year(parsed_number(tokens[1]), w.first_year) {
        year_answer(rows, first_year_match(rows, tokens[1], 0), w)
    } else {
        let query = lowercase_of(joined(tokens, " "@, 1, tokens.len() as int));
        name_answer(title_cased(query), years_of(rows, query, rows.len() as int), w)
    }
}

/// A second word that is no year in range, be it a number or not, makes the
/// query one by name: the table is never searched by year for it.
pub proof fn lemma_out_of_range_is_name_query(rows: Seq<(Seq<char>, Seq<char>)>, content: Seq<char>, w: Wording)
    requires
        whitespace_tokens(content).len() >= 2,
        !is_title_year(parsed_number(whitespace_tokens(content)[1]), w.first_year),
    ensures
        title_answer(rows, content, w) == name_answer(
            title_cased(lowercase_of(joined(whitespace_tokens(content), " "@, 1, whitespace_tokens(content).len() as int))),
            years_of(
                rows,
                lowercase_of(joined(whitespace_tokens(content), " "@, 1, whitespace_tokens(content).len() as int)),
                rows.len() as int,
            ),
            w,
        ),
{
}

/// A second word that is a year in range is looked up by its text, and the
/// reply names the first record of that year or says that there is none.
pub proof fn lemma_in_range_is_year_query(rows: Seq<(Seq<char>, Seq<char>)>, content: Seq<char>, w: Wording)
    requires
        whitespace_tokens(content).len() >= 2,
        is_title_year(parsed_number(whitespace_tokens(content)[1]), w.first_year),
    ensures
        title_answer(rows, content, w) == year_answer(
            rows,
            first_year_match(rows, whitespace_tokens(content)[1], 0),
            w,
        ),
{
}

/// Whether a parsed second word asks for a year.
pub fn asks_for_year(parsed: Option<u64>, first_year: u64) -> (r: bool)
    ensures
        r == is_title_year(parsed, first_year),
{
    match parsed {
        Some(y) => first_year <= y && y <= LAST_YEAR,
        None => false,
    }
}

/// Finds the first record of the given year.
pub fn find_year<T: TitleRecord>(records: &Vec<T>, year: &str) -> (r: usize)
    ensures
        r == first_year_match(rows_of(records@), year@, 0),
{
    let mut i: usize = 0;
    while i < records.len()
        invariant
            i <= records.len(),
            first_year_match(rows_of(records@), year@, 0) == first_year_match(
                rows_of(records@),
                year@,
                i as int,
            ),
        decreases records.len() - i,
    {
        if same_text(records[i].year_str(), year) {
            return i;
        }
        i += 1;
    }
    i
}

/// Collects the years of the records whose holder, in lower case, is the
/// query.
pub fn years_won<T: TitleRecord>(records: &Vec<T>, query: &String) -> (r: Vec<String>)
    ensures
        texts(r@) == years_of(rows_of(records@), query@, records.len() as int),
{
    let mut out: Vec<String> = Vec::new();
    let mut i: usize = 0;
    proof {
        assert(texts(out@) =~= years_of(rows_of(records@), query@, 0));
    }
    while i < records.len()
        invariant
            i <= records.len(),
            texts(out@) == years_of(rows_of(records@), query@, i as int),
        decreases records.len() - i,
    {
        let holder = to_lowercase(records[i].holder_str());
        if holder == *query {
            let ghost prev = out@;
            let year = String::from_str(records[i].year_str());
            out.push(year);
            proof {
                assert(texts(out@) =~= texts(prev).push(year@));
            }
        }
        i += 1;
    }
    out
}

/// Words the reply to a query by year.
pub fn year_reply<T: TitleRecord>(records: &Vec<T>, found: usize, w: &Wording) -> (r: String)
    ensures
        r@ == year_answer(rows_of(records@), found as int, *w),
{
    if found < records.len() {
        let mut out = String::from_str("Year: ");
        out.append(records[found].year_str());
        out.append(w.year_label);
        out.append(records[found].holder_str());
        out
    } else {
        String::from_str(w.year_missing)
    }
}

/// Words the reply to a query by name.
pub fn name_reply(display: &String, years: &Vec<String>, w: &Wording) -> (r: String)
    ensures
        r@ == name_answer(display@, texts(years@), *w),
{
    if years.len() == 0 {
        let mut out = String::from_str(w.none_prefix);
        out.append(display.as_str());
        out.append("'.");
        out
    } else {
        let mut out = display.clone();
        out.append(w.won_infix);
        let list = join_from(years, 0, ", ");
        out.append(list.as_str());
        out
    }
}

/// Answers a title query on a table.
pub fn title_reply<T: TitleRecord>(records: &Vec<T>, content: &str, w: &Wording) -> (r: String)
    ensures
        r@ == title_answer(rows_of(records@), content@, *w),
{
    let tokens = split_whitespace(content);
    if tokens.len() < 2 {
        return String::from_str(w.missing);
    }
    let parsed = parse_number(tokens[1].as_str());
    if asks_for_year(parsed, w.first_year) {
        let found = find_year(records, tokens[1].as_str());
        year_reply(records, found, w)
    } else {
        let name = join_from(&tokens, 1, " ");
        let query = to_lowercase(name.as_str());
        let display = title_case(query.as_str());
        let years = years_won(records, &query);
        name_reply(&display, &years, w)
    }
}

} // verus!
