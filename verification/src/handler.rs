//! The bot's state and its decisions: which command a message is, what to
//! reply, when a question is published, and how a correct answer is scored.

use crate::chance::{choose_index, choose_text, has_text};
use crate::ledger::{is_ranked, lemma_ranking_unique, Entry, Ledger};
use crate::questions::Question;
use crate::records::{
    constructor_wording, constructor_words, driver_wording, driver_words, rows_of, title_answer,
    title_reply, Car, Champion,
};
use crate::text::{
    append_decimal, decimal, is_prefix, lowercase_of, parse_number, parsed_number, same_text,
    split_whitespace, starts_with, to_lowercase, whitespace_tokens,
};
use vstd::prelude::*;
use vstd::string::*;

verus! {

/// The round score at which a user wins the round.
pub const WIN_THRESHOLD: u32 = 5;

/// The lowest driver number.
pub const FIRST_DRIVER: u64 = 1;

/// The highest driver number.
pub const LAST_DRIVER: u64 = 99;

/// What a message asks for.
#[derive(Clone, Copy, Debug, PartialEq, Eq, Structural)]
pub enum Command {
    Quote,
    Driver,
    Champion,
    Constructor,
    Points,
    Leaderboard,
    Nothing,
}

/// The reply to a driver lookup: the text, and the photo to attach if any.
#[derive(Clone, Debug)]
pub struct DriverReply {
    pub text: String,
    pub photo: Option<String>,
}

/// The knowledge base, the round state and the two ledgers.
///
/// `current_question` is the index of the open question in `questions`.
pub struct Handler {
    pub quotes: Vec<String>,
    pub current_question: Option<usize>,
    pub question_answered: bool,
    pub questions: Vec<Question>,
    pub user_points: Ledger,
    pub champions: Vec<Champion>,
    pub cars: Vec<Car>,
    pub quiz_wins: Ledger,
}

/// The command of a message. The four lookups are known by the start of
/// the message's first word, in this order of priority; the two boards by
/// the whole text.
pub open spec fn command_of(content: Seq<char>) -> Command {
    let tokens = whitespace_tokens(content);
    if tokens.len() > 0 && is_prefix("!quote"@, tokens[0]) {
        Command::Quote
    } else if tokens.len() > 0 && is_prefix("!driver"@, tokens[0]) {
        Command::Driver
    } else if tokens.len() > 0 && is_prefix("!champion"@, tokens[0]) {
        Command::Champion
    } else if tokens.len() > 0 && is_prefix("!constructor"@, tokens[0]) {
        Command::Constructor
    } else if content == "!points"@ {
        Command::Points
    } else if content == "!leaderboard"@ {
        Command::Leaderboard
    } else {
        Command::Nothing
    }
}

/// The driver number that a parsed word stands for, if it is one.
pub open spec fn driver_number_of(parsed: Option<u64>) -> Option<u64> {
    if parsed is Some && FIRST_DRIVER <= parsed.unwrap() <= LAST_DRIVER {
        parsed
    } else {
        None
    }
}

/// The driver number that a message asks for: its second word, where that
/// parses as a number from 1 to 99.
pub open spec fn requested_driver(content: Seq<char>) -> Option<u64> {
    let tokens = whitespace_tokens(content);
    if tokens.len() < 2 {
        None
    } else {
        driver_number_of(parsed_number(tokens[1]))
    }
}

/// Where the photo of a driver number is kept.
pub open spec fn photo_path(number: u64) -> Seq<char> {
    "drivers_photos/"@ + decimal(number as nat) + "-driver.jpg"@
}

/// The text of the reply to a driver lookup.
pub open spec fn driver_text(number: Option<u64>, photo_exists: bool) -> Seq<char> {
    match number {
        None => "Please provide a valid driver number (1-99)."@,
        Some(n) => if photo_exists {
            "This is Driver number "@ + decimal(n as nat)
        } else {
            "No driver had this number."@
        },
    }
}

/// The text that crowns the winner of a round.
pub open spec fn champion_text(name: Seq<char>) -> Seq<char> {
    "Correct answer! Congratulations "@ + name + ", you are now the F1 Quiz World Champion!"@
}

/// The name shown for the entry at a rank: the resolved name, or a
/// stand-in where none was resolved.
pub open spec fn name_at(names: Seq<Option<String>>, i: int) -> Seq<char> {
    if 0 <= i < names.len() && names[i] is Some {
        names[i].unwrap()@
    } else {
        "Unknown User"@
    }
}

/// The first `upto` lines of a board: name, colon, count, line end.
pub open spec fn board_lines(
    ranking: Seq<Entry>,
    names: Seq<Option<String>>,
    line_end: Seq<char>,
    upto: int,
) -> Seq<char>
    decreases upto,
{
    if upto <= 0 {
        Seq::empty()
    } else {
        board_lines(ranking, names, line_end, upto - 1) + name_at(names, upto - 1) + ": "@
            + decimal(ranking[upto - 1].count as nat) + line_end
    }
}

/// A board: the message for an empty ranking, or the title and one line
/// for each entry.
pub open spec fn board_text(
    ranking: Seq<Entry>,
    names: Seq<Option<String>>,
    title: Seq<char>,
    empty: Seq<char>,
    line_end: Seq<char>,
) -> Seq<char> {
    if ranking.len() == 0 {
        empty
    } else {
        title + board_lines(ranking, names, line_end, ranking.len() as int)
    }
}

/// The board of round points for a ranking.
pub open spec fn points_board_text(ranking: Seq<Entry>, names: Seq<Option<String>>) -> Seq<char> {
    board_text(ranking, names, "Points Leaderboard:\n"@, "No one has any points yet."@, "\n"@)
}

/// The board of round wins for a ranking.
pub open spec fn wins_board_text(ranking: Seq<Entry>, names: Seq<Option<String>>) -> Seq<char> {
    board_text(ranking, names, "Quiz Leaderboard:\n"@, "No one has won the quiz yet."@, " wins\n"@)
}

/// Whether a list is the ranking of a ledger's contents: in ranking order,
/// holding exactly the ledger's pairs.
pub open spec fn is_ranking_of(ranking: Seq<Entry>, counts: Map<u64, u32>) -> bool {
    &&& is_ranked(ranking)
    &&& forall|e: Entry| ranking.contains(e) <==> counts.contains_pair(e.user, e.count)
}

/// A parsed word is a driver number exactly when it is a number from 1 to
/// 99, and then it is that number.
pub proof fn lemma_driver_number_range(parsed: Option<u64>)
    ensures
        driver_number_of(parsed) is Some <==> parsed is Some && 1 <= parsed.unwrap() <= 99,
        driver_number_of(parsed) is Some ==> driver_number_of(parsed) == parsed,
{
}

/// The crowning reply is never the plain reply, whatever the name.
pub proof fn lemma_champion_text_differs(name: Seq<char>)
    ensures
        champion_text(name) != "Correct answer!"@,
{
    reveal_strlit("Correct answer! Congratulations ");
    reveal_strlit(", you are now the F1 Quiz World Champion!");
    reveal_strlit("Correct answer!");
    assert(champion_text(name).len() > "Correct answer!"@.len());
}

/// A correct answer brings the crowning reply exactly when it is the
/// user's fifth point of the round. Then every round score is zero again,
/// the user has one more win and nobody else's wins change. At any other
/// point the user has one more round point and the wins stay.
pub proof fn lemma_round_win(pre: Handler, post: Handler, author: u64, name: Seq<char>, reply: Seq<char>)
    requires
        pre.wf(),
        pre.quiz_wins.points(author) < u32::MAX,
        Handler::scored(pre, post, author, name, reply),
    ensures
        reply == champion_text(name) <==> pre.user_points.points(author) + 1 == WIN_THRESHOLD,
        reply == champion_text(name) ==> {
            &&& forall|u: u64| #[trigger] post.user_points.points(u) == 0
            &&& post.quiz_wins.points(author) == pre.quiz_wins.points(author) + 1
            &&& forall|u: u64|
                u != author ==> #[trigger] post.quiz_wins.points(u) == pre.quiz_wins.points(u)
        },
        reply != champion_text(name) ==> {
            &&& post.user_points.points(author) == pre.user_points.points(author) + 1
            &&& forall|u: u64|
                u != author ==> #[trigger] post.user_points.points(u) == pre.user_points.points(u)
            &&& post.quiz_wins@ == pre.quiz_wins@
        },
{
    lemma_champion_text_differs(name);
    assert(pre.user_points.points(author) < WIN_THRESHOLD);
}

/// The ranking of a ledger's contents. A ledger has one only.
pub open spec fn ranking_of(counts: Map<u64, u32>) -> Seq<Entry> {
    choose|s: Seq<Entry>| is_ranking_of(s, counts)
}

/// Any ranking of a ledger's contents is the ranking of them: the order
/// leaves no choice, so the board of a ledger is one text.
pub proof fn lemma_ranking_of(ranking: Seq<Entry>, counts: Map<u64, u32>)
    requires
        is_ranking_of(ranking, counts),
    ensures
        ranking_of(counts) == ranking,
{
    lemma_ranking_unique(ranking_of(counts), ranking);
}

/// The ranking of an empty ledger is empty, and its board is the message
/// that says so.
pub proof fn lemma_empty_ledger_board(names: Seq<Option<String>>)
    ensures
        ranking_of(Map::<u64, u32>::empty()).len() == 0,
        points_board_text(ranking_of(Map::<u64, u32>::empty()), names)
            == "No one has any points yet."@,
        wins_board_text(ranking_of(Map::<u64, u32>::empty()), names)
            == "No one has won the quiz yet."@,
{
    let none = Seq::<Entry>::empty();
    assert(is_ranking_of(none, Map::<u64, u32>::empty()));
    lemma_ranking_of(none, Map::<u64, u32>::empty());
}

fn render_board(
    ranking: &Vec<Entry>,
    names: &Vec<Option<String>>,
    title: &str,
    empty: &str,
    line_end: &str,
) -> (r: String)
    ensures
        r@ == board_text(ranking@, names@, title@, empty@, line_end@),
{
    if ranking.len() == 0 {
        return String::from_str(empty);
    }
    let mut lines = String::new();
    let mut i: usize = 0;
    while i < ranking.len()
        invariant
            i <= ranking.len(),
            lines@ == board_lines(ranking@, names@, line_end@, i as int),
        decreases ranking.len() - i,
    {
        if i < names.len() {
            match &names[i] {
                Some(name) => lines.append(name.as_str()),
                None => lines.append("Unknown User"),
            }
        } else {
            lines.append("Unknown User");
        }
        lines.append(": ");
        let count: u32 = ranking[i].count;
        append_decimal(&mut lines, count as u64);
        lines.append(line_end);
        i += 1;
    }
    let mut out = String::from_str(title);
    out.append(lines.as_str());
    out
}

impl Handler {
    /// The ledgers are well formed, the open question is one of the table,
    /// no question is open while the round counts as answered, and every
    /// round score is below the win threshold.
    pub open spec fn wf(&self) -> bool {
        &&& self.user_points.wf()
        &&& self.quiz_wins.wf()
        &&& (self.current_question is Some ==> self.current_question.unwrap()
            < self.questions.len())
        &&& (self.question_answered ==> self.current_question is None)
        &&& forall|u: u64| #[trigger] self.user_points.points(u) < WIN_THRESHOLD
    }

    /// This state with another round state.
    pub open spec fn with_round(self, current: Option<usize>, answered: bool) -> Handler {
        Handler { current_question: current, question_answered: answered, ..self }
    }

    /// Whether a pick can be published: the round counts as answered and
    /// the pick is a question of the table.
    pub open spec fn can_publish(&self, pick: Option<usize>) -> bool {
        self.question_answered && pick is Some && pick.unwrap() < self.questions.len()
    }

    /// Whether a message answers the open question: in lower case it is
    /// the expected answer in lower case.
    pub open spec fn accepts(&self, content: Seq<char>) -> bool {
        self.current_question is Some && lowercase_of(content) == lowercase_of(
            self.questions[self.current_question.unwrap() as int].answer@,
        )
    }

    /// Whether the next point of a user wins the round.
    pub open spec fn wins_round(&self, author: u64) -> bool {
        self.user_points.points(author) + 1 == WIN_THRESHOLD
    }

    /// What scoring a correct answer of `author` makes of `pre`: the round
    /// is closed and the tables stay. A point that wins the round gives the
    /// crowning reply, one more win, and an empty round ledger; any other
    /// point gives the plain reply and one more round point.
    pub open spec fn scored(pre: Handler, post: Handler, author: u64, name: Seq<char>, reply: Seq<char>) -> bool {
        &&& post.question_answered
        &&& post.current_question is None
        &&& post.quotes == pre.quotes
        &&& post.questions == pre.questions
        &&& post.champions == pre.champions
        &&& post.cars == pre.cars
        &&& pre.wins_round(author) ==> {
            &&& reply == champion_text(name)
            &&& post.user_points@ == Map::<u64, u32>::empty()
            &&& post.quiz_wins@ == pre.quiz_wins@.insert(
                author,
                (pre.quiz_wins.points(author) + 1) as u32,
            )
        }
        &&& !pre.wins_round(author) ==> {
            &&& reply == "Correct answer!"@
            &&& post.user_points@ == pre.user_points@.insert(
                author,
                (pre.user_points.points(author) + 1) as u32,
            )
            &&& post.quiz_wins@ == pre.quiz_wins@
        }
    }

    /// A bot with the given tables, no open question and empty ledgers.
    pub fn new(
        quotes: Vec<String>,
        questions: Vec<Question>,
        champions: Vec<Champion>,
        cars: Vec<Car>,
    ) -> (r: Handler)
        ensures
            r.wf(),
            r.quotes == quotes,
            r.questions == questions,
            r.champions == champions,
            r.cars == cars,
            r.current_question is None,
            r.question_answered,
            r.user_points@ == Map::<u64, u32>::empty(),
            r.quiz_wins@ == Map::<u64, u32>::empty(),
    {
        Handler {
            quotes,
            current_question: None,
            question_answered: true,
            questions,
            user_points: Ledger::new(),
            champions,
            cars,
            quiz_wins: Ledger::new(),
        }
    }

    /// Tells which command a message is.
    pub fn route(content: &str) -> (r: Command)
        ensures
            r == command_of(content@),
    {
        let tokens = split_whitespace(content);
        if tokens.len() > 0 && starts_with(tokens[0].as_str(), "!quote") {
            Command::Quote
        } else if tokens.len() > 0 && starts_with(tokens[0].as_str(), "!driver") {
            Command::Driver
        } else if tokens.len() > 0 && starts_with(tokens[0].as_str(), "!champion") {
            Command::Champion
        } else if tokens.len() > 0 && starts_with(tokens[0].as_str(), "!constructor") {
            Command::Constructor
        } else if same_text(content, "!points") {
            Command::Points
        } else if same_text(content, "!leaderboard") {
            Command::Leaderboard
        } else {
            Command::Nothing
        }
    }

    /// One of the quotes, picked at random; nothing where there is none.
    pub fn get_random_quote(&self) -> (r: Option<&String>)
        ensures
            r is Some <==> self.quotes.len() > 0,
            r is Some ==> has_text(self.quotes@, r.unwrap()@),
    {
        choose_text(&self.quotes)
    }

    /// The reply to the quote command: a quote picked at random, or no
    /// reply where there is none.
    pub fn process_quote(&self) -> (r: Option<String>)
        ensures
            r is Some <==> self.quotes.len() > 0,
            r is Some ==> has_text(self.quotes@, r.unwrap()@),
    {
        match self.get_random_quote() {
            Some(q) => Some(q.clone()),
            None => None,
        }
    }

    /// The driver number that a parsed word stands for, if it is one.
    pub fn driver_number(parsed: Option<u64>) -> (r: Option<u64>)
        ensures
            r == driver_number_of(parsed),
    {
        match parsed {
            Some(n) => if FIRST_DRIVER <= n && n <= LAST_DRIVER {
                Some(n)
            } else {
                None
            },
            None => None,
        }
    }

    /// The driver number that a message asks for.
    pub fn driver_request(content: &str) -> (r: Option<u64>)
        ensures
            r == requested_driver(content@),
    {
        let tokens = split_whitespace(content);
        if tokens.len() < 2 {
            None
        } else {
            Self::driver_number(parse_number(tokens[1].as_str()))
        }
    }

    /// Where the photo of a driver number is kept.
    pub fn driver_photo_path(number: u64) -> (r: String)
        ensures
            r@ == photo_path(number),
    {
        let mut out = String::from_str("drivers_photos/");
        append_decimal(&mut out, number);
        out.append("-driver.jpg");
        out
    }

    /// The reply to a driver lookup, given the number asked for and whether
    /// its photo exists. The photo is attached exactly where it exists.
    pub fn driver_reply(number: Option<u64>, photo_exists: bool) -> (r: DriverReply)
        ensures
            r.text@ == driver_text(number, photo_exists),
            r.photo is Some <==> number is Some && photo_exists,
            r.photo is Some ==> r.photo.unwrap()@ == photo_path(number.unwrap()),
    {
        match number {
            None => DriverReply {
                text: String::from_str("Please provide a valid driver number (1-99)."),
                photo: None,
            },
            Some(n) => if photo_exists {
                let mut text = String::from_str("This is Driver number ");
                append_decimal(&mut text, n);
                DriverReply { text, photo: Some(Self::driver_photo_path(n)) }
            } else {
                DriverReply { text: String::from_str("No driver had this number."), photo: None }
            },
        }
    }

    /// The reply to the driver command. `photo_exists` says whether the
    /// photo of the number that the message asks for exists; it is not read
    /// where the message asks for no valid number.
    pub fn process_driver(content: &str, photo_exists: bool) -> (r: DriverReply)
        ensures
            r.text@ == driver_text(requested_driver(content@), photo_exists),
            r.photo is Some <==> requested_driver(content@) is Some && photo_exists,
            r.photo is Some ==> r.photo.unwrap()@ == photo_path(requested_driver(content@).unwrap()),
    {
        Self::driver_reply(Self::driver_request(content), photo_exists)
    }

    /// The reply to the champion command.
    pub fn process_champion(&self, content: &str) -> (r: String)
        ensures
            r@ == title_answer(rows_of(self.champions@), content@, driver_wording()),
    {
        let w = driver_words();
        title_reply(&self.champions, content, &w)
    }

    /// The reply to the constructor command.
    pub fn process_constructor(&self, content: &str) -> (r: String)
        ensures
            r@ == title_answer(rows_of(self.cars@), content@, constructor_wording()),
    {
        let w = constructor_words();
        title_reply(&self.cars, content, &w)
    }

    /// Publishes the picked question where the round counts as answered:
    /// the pick becomes the open question, and its prompt is returned for
    /// sending. Otherwise nothing changes.
    pub fn publish_question(&mut self, pick: Option<usize>) -> (r: Option<String>)
        requires
            old(self).wf(),
        ensures
            final(self).wf(),
            old(self).can_publish(pick) ==> *final(self) == old(self).with_round(pick, false)
                && r is Some && r.unwrap()@ == old(self).questions[pick.unwrap() as int].prompt@,
            !old(self).can_publish(pick) ==> *final(self) == *old(self) && r is None,
    {
        if !self.question_answered {
            return None;
        }
        match pick {
            Some(i) => {
                if i < self.questions.len() {
                    self.question_answered = false;
                    self.current_question = Some(i);
                    Some(self.questions[i].prompt.clone())
                } else {
                    None
                }
            },
            None => None,
        }
    }

    /// One tick of the scheduler. While a question is open, nothing
    /// changes. Otherwise one question of the table is picked at random and
    /// published; with an empty table nothing changes.
    pub fn ask_question(&mut self) -> (r: Option<String>)
        requires
            old(self).wf(),
        ensures
            final(self).wf(),
            r is Some <==> old(self).question_answered && old(self).questions.len() > 0,
            r is None ==> *final(self) == *old(self),
            r is Some ==> final(self).current_question is Some && !final(self).question_answered
                && *final(self) == old(self).with_round(final(self).current_question, false)
                && r.unwrap()@ == old(self).questions[final(self).current_question.unwrap() as int].prompt@,
    {
        if !self.question_answered {
            return None;
        }
        let pick = choose_index(self.questions.len());
        self.publish_question(pick)
    }

    /// Whether a message matches an expected answer: both are put in lower
    /// case and compared as they are.
    pub fn answer_matches(content: &str, expected: &str) -> (r: bool)
        ensures
            r == (lowercase_of(content@) == lowercase_of(expected@)),
    {
        let given = to_lowercase(content);
        let wanted = to_lowercase(expected);
        given == wanted
    }

    /// Scores a correct answer of `author` and closes the round.
    pub fn score_answer(&mut self, author: u64, author_name: &str) -> (r: String)
        requires
            old(self).wf(),
            old(self).wins_round(author) ==> old(self).quiz_wins.points(author) < u32::MAX,
        ensures
            final(self).wf(),
            Self::scored(*old(self), *final(self), author, author_name@, r@),
    {
        let score = self.user_points.add_point(author);
        let reply = if score == WIN_THRESHOLD {
            self.quiz_wins.add_point(author);
            self.user_points.clear();
            let mut text = String::from_str("Correct answer! Congratulations ");
            text.append(author_name);
            text.append(", you are now the F1 Quiz World Champion!");
            text
        } else {
            String::from_str("Correct answer!")
        };
        self.question_answered = true;
        self.current_question = None;
        proof {
            assert forall|u: u64| #[trigger] self.user_points.points(u) < WIN_THRESHOLD by {
                assert(old(self).user_points.points(u) < WIN_THRESHOLD);
            }
        }
        reply
    }

    /// Evaluates a message against the open question. A message that
    /// answers it is scored and the reply returned; any other message, or
    /// one that comes while no question is open, changes nothing. Scoring
    /// closes the round in the same step, so of two messages that answer
    /// one question only the first is scored.
    pub fn process_answer(&mut self, author: u64, author_name: &str, content: &str) -> (r: Option<String>)
        requires
            old(self).wf(),
            old(self).wins_round(author) ==> old(self).quiz_wins.points(author) < u32::MAX,
        ensures
            final(self).wf(),
            r is Some <==> old(self).accepts(content@),
            r is Some ==> Self::scored(*old(self), *final(self), author, author_name@, r.unwrap()@),
            r is None ==> *final(self) == *old(self),
    {
        match self.current_question {
            None => None,
            Some(q) => {
                if Self::answer_matches(content, self.questions[q].answer.as_str()) {
                    Some(self.score_answer(author, author_name))
                } else {
                    None
                }
            },
        }
    }

    /// The board of round points for a ranking and the names resolved for
    /// its entries, rank by rank.
    pub fn points_board(ranking: &Vec<Entry>, names: &Vec<Option<String>>) -> (r: String)
        ensures
            r@ == points_board_text(ranking@, names@),
    {
        render_board(ranking, names, "Points Leaderboard:\n", "No one has any points yet.", "\n")
    }

    /// The board of round wins for a ranking and the names resolved for its
    /// entries, rank by rank.
    pub fn wins_board(ranking: &Vec<Entry>, names: &Vec<Option<String>>) -> (r: String)
        ensures
            r@ == wins_board_text(ranking@, names@),
    {
        render_board(ranking, names, "Quiz Leaderboard:\n", "No one has won the quiz yet.", " wins\n")
    }

    /// The reply to the points command: the board of the round ledger's
    /// ranking, with the names resolved for its entries, rank by rank.
    pub fn process_points_command(&self, names: &Vec<Option<String>>) -> (r: String)
        requires
            self.wf(),
        ensures
            r@ == points_board_text(ranking_of(self.user_points@), names@),
    {
        let ranking = self.user_points.ranking();
        proof {
            lemma_ranking_of(ranking@, self.user_points@);
        }
        Self::points_board(&ranking, names)
    }

    /// The reply to the leaderboard command: the board of the win ledger's
    /// ranking, with the names resolved for its entries, rank by rank.
    pub fn process_leaderboard_command(&self, names: &Vec<Option<String>>) -> (r: String)
        requires
            self.wf(),
        ensures
            r@ == wins_board_text(ranking_of(self.quiz_wins@), names@),
    {
        let ranking = self.quiz_wins.ranking();
        proof {
            lemma_ranking_of(ranking@, self.quiz_wins@);
        }
        Self::wins_board(&ranking, names)
    }
}

} // verus!
