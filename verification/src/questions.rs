//! The table of trivia questions, built from rows of text.

use crate::handler::Handler;
use crate::text::{same_text, texts};
use vstd::prelude::*;
use vstd::string::*;

verus! {

/// A trivia question and the answer that is accepted for it.
#[derive(Clone, Debug)]
pub struct Question {
    pub prompt: String,
    pub answer: String,
}

/// The prompt and answer texts of a table's questions, in order.
pub open spec fn pairs_of(table: Seq<Question>) -> Seq<(Seq<char>, Seq<char>)> {
    Seq::new(table.len(), |i: int| (table[i].prompt@, table[i].answer@))
}

/// The texts of each row's fields.
pub open spec fn row_texts(rows: Seq<Vec<String>>) -> Seq<Seq<Seq<char>>> {
    Seq::new(rows.len(), |i: int| texts(rows[i]@))
}

/// The index of the first pair at or after `from` with the given prompt,
/// or the number of pairs where there is none.
pub open spec fn prompt_index(table: Seq<(Seq<char>, Seq<char>)>, prompt: Seq<char>, from: int) -> int
    decreases table.len() - from,
{
    if from < 0 || from >= table.len() {
        table.len() as int
    } else if table[from].0 == prompt {
        from
    } else {
        prompt_index(table, prompt, from + 1)
    }
}

/// Whether no prompt occurs twice.
pub open spec fn distinct_prompts(table: Seq<(Seq<char>, Seq<char>)>) -> bool {
    forall|i: int, j: int| 0 <= i < j < table.len() ==> (#[trigger] table[i]).0 != (#[trigger] table[j]).0
}

/// A table with a question put in: where the prompt is known its answer is
/// replaced, otherwise the question is added at the end.
pub open spec fn upserted(table: Seq<(Seq<char>, Seq<char>)>, prompt: Seq<char>, answer: Seq<char>) -> Seq<(Seq<char>, Seq<char>)> {
    let i = prompt_index(table, prompt, 0);
    if i < table.len() {
        table.update(i, (prompt, answer))
    } else {
        table.push((prompt, answer))
    }
}

/// The table that the first `upto` rows give: each row of exactly two
/// fields is a question and its answer, put in one after the other; rows
/// of any other width are passed over.
pub open spec fn table_of(rows: Seq<Seq<Seq<char>>>, upto: int) -> Seq<(Seq<char>, Seq<char>)>
    decreases upto,
{
    if upto <= 0 {
        Seq::empty()
    } else {
        let before = table_of(rows, upto - 1);
        let row = rows[upto - 1];
        if row.len() == 2 {
            upserted(before, row[0], row[1])
        } else {
            before
        }
    }
}

/// What `prompt_index` finds: the prompt stands at the index it gives and
/// nowhere between `from` and that index.
pub proof fn lemma_prompt_index(table: Seq<(Seq<char>, Seq<char>)>, prompt: Seq<char>, from: int)
    requires
        0 <= from <= table.len(),
    ensures
        from <= prompt_index(table, prompt, from) <= table.len(),
        prompt_index(table, prompt, from) < table.len() ==> table[prompt_index(
            table,
            prompt,
            from,
        )].0 == prompt,
        forall|k: int| from <= k < prompt_index(table, prompt, from) ==> (#[trigger] table[k]).0 != prompt,
    decreases table.len() - from,
{
    if from < table.len() && table[from].0 != prompt {
        lemma_prompt_index(table, prompt, from + 1);
    }
}

/// Putting a question into a table without repeated prompts leaves it
/// without repeated prompts.
pub proof fn lemma_upserted_distinct(table: Seq<(Seq<char>, Seq<char>)>, prompt: Seq<char>, answer: Seq<char>)
    requires
        distinct_prompts(table),
    ensures
        distinct_prompts(upserted(table, prompt, answer)),
{
    lemma_prompt_index(table, prompt, 0);
    let after = upserted(table, prompt, answer);
    let i = prompt_index(table, prompt, 0);
    assert forall|a: int, b: int| 0 <= a < b < after.len() implies (#[trigger] after[a]).0 != (
    #[trigger] after[b]).0 by {
        if i < table.len() {
            assert(after[a].0 == table[a].0);
            assert(after[b].0 == table[b].0);
        } else {
            if b < table.len() {
                assert(after[a] == table[a]);
                assert(after[b] == table[b]);
            } else {
                assert(after[a] == table[a]);
            }
        }
    }
}

/// No prompt occurs twice in a table built from rows.
pub proof fn lemma_table_distinct(rows: Seq<Seq<Seq<char>>>, upto: int)
    ensures
        distinct_prompts(table_of(rows, upto)),
    decreases upto,
{
    if upto > 0 {
        lemma_table_distinct(rows, upto - 1);
        let row = rows[upto - 1];
        if row.len() == 2 {
            lemma_upserted_distinct(table_of(rows, upto - 1), row[0], row[1]);
        }
    }
}

/// Puts a question into a table: a known prompt gets the new answer, a new
/// prompt is added at the end.
pub fn insert_question(table: &mut Vec<Question>, prompt: String, answer: String)
    ensures
        pairs_of(final(table)@) == upserted(pairs_of(old(table)@), prompt@, answer@),
{
    let ghost before = pairs_of(table@);
    let mut i: usize = 0;
    while i < table.len()
        invariant
            i <= table.len(),
            table@ == old(table)@,
            before == pairs_of(table@),
            prompt_index(before, prompt@, 0) == prompt_index(before, prompt@, i as int),
        decreases table.len() - i,
    {
        if same_text(table[i].prompt.as_str(), prompt.as_str()) {
            table.set(i, Question { prompt, answer });
            proof {
                assert(pairs_of(table@) =~= upserted(before, prompt@, answer@));
            }
            return ;
        }
        i += 1;
    }
    table.push(Question { prompt, answer });
    proof {
        assert(pairs_of(table@) =~= upserted(before, prompt@, answer@));
    }
}

impl Handler {
    /// Builds the question table from rows of fields. A row of exactly two
    /// fields is a question and its answer; of two rows with the same question
    /// the later answer counts.
    pub fn load_questions(rows: &Vec<Vec<String>>) -> (r: Vec<Question>)
        ensures
            pairs_of(r@) == table_of(row_texts(rows@), rows.len() as int),
            distinct_prompts(pairs_of(r@)),
    {
        let mut table: Vec<Question> = Vec::new();
        let mut i: usize = 0;
        proof {
            assert(pairs_of(table@) =~= table_of(row_texts(rows@), 0));
        }
        while i < rows.len()
            invariant
                i <= rows.len(),
                pairs_of(table@) == table_of(row_texts(rows@), i as int),
            decreases rows.len() - i,
        {
            if rows[i].len() == 2 {
                let prompt = rows[i][0].clone();
                let answer = rows[i][1].clone();
                insert_question(&mut table, prompt, answer);
            }
            i += 1;
        }
        proof {
            lemma_table_distinct(row_texts(rows@), rows.len() as int);
        }
        table
    }
}

} // verus!
