//! Language-model requests: prompt rendering, token budget, candidate
//! extraction and the OpenAI-compatible protocol details.
use vstd::prelude::*;

pub mod chat;
pub mod error;
pub mod prompt;
pub mod provider;
pub mod types;

use crate::chars::{decimal_seq, string_views, u64_to_string};
use crate::error::AppError;
use crate::llm::prompt::{
    free_of, lemma_render_placeholder, placeholder, plain_name, render_seq, render_template,
};
use crate::text::split::{candidates_seq, split_candidates};

verus! {

/// Tokens budgeted per requested candidate.
pub const LLM_TOKENS_PER_CANDIDATE: u32 = 80;

/// Tokens budgeted on top of the candidates.
pub const LLM_TOKENS_MARGIN: u32 = 100;

/// `min(x, u32::MAX)`.
pub open spec fn sat_u32(x: int) -> int {
    if x > u32::MAX { u32::MAX as int } else { x }
}

/// The token limit for `n` candidates: `n * 80 + 100`, saturating at `u32::MAX`.
pub fn calc_max_tokens(n: u32) -> (r: u32)
    ensures
        r == sat_u32(sat_u32(n * LLM_TOKENS_PER_CANDIDATE) + LLM_TOKENS_MARGIN),
{
    assert(n as u64 * 80u64 <= 0xffff_ffffu64 * 80u64) by (nonlinear_arith)
        requires n <= 0xffff_ffffu32;
    let product: u64 = n as u64 * LLM_TOKENS_PER_CANDIDATE as u64;
    let capped: u64 = if product > u32::MAX as u64 { u32::MAX as u64 } else { product };
    let total: u64 = capped + LLM_TOKENS_MARGIN as u64;
    if total > u32::MAX as u64 {
        u32::MAX
    } else {
        total as u32
    }
}

/// The variables offered to a prompt template, in the order they are substituted.
pub open spec fn prompt_vars(text: Seq<char>, n: u32, words: Seq<char>) -> Seq<(Seq<char>, Seq<char>)> {
    seq![("origin"@, text), ("n"@, decimal_seq(n as nat)), ("words"@, words)]
}

/// Renders a prompt template with `{{origin}}` (the text), `{{n}}` (the
/// candidate count, in decimal) and `{{words}}` (the word list).
pub fn render_with_vars(template: &str, text: &str, n: u32, words: &str) -> (r: Result<String, AppError>)
    ensures
        r is Ok,
        r->Ok_0@ == render_seq(template@, prompt_vars(text@, n, words@)),
{
    let mut vars: Vec<(String, String)> = Vec::new();
    vars.push(("origin".to_owned(), text.to_owned()));
    vars.push(("n".to_owned(), u64_to_string(n as u64)));
    vars.push(("words".to_owned(), words.to_owned()));
    let r = render_template(template, &vars);
    assert(crate::llm::prompt::pair_views(vars@) =~= prompt_vars(text@, n, words@));
    r
}

/// The candidates of several choices, choice after choice.
pub open spec fn choices_candidates(contents: Seq<Seq<char>>) -> Seq<Seq<char>>
    decreases contents.len(),
{
    if contents.len() == 0 {
        Seq::empty()
    } else {
        choices_candidates(contents.drop_last()) + candidates_seq(contents.last())
    }
}

/// Splits the content of every choice of a completion into candidates and
/// concatenates them in choice order.
pub fn candidates_from_choices(contents: &Vec<String>) -> (r: Vec<String>)
    ensures
        string_views(r@) == choices_candidates(string_views(contents@)),
{
    let mut all: Vec<String> = Vec::new();
    let mut i: usize = 0;
    while i < contents.len()
        invariant
            i <= contents.len(),
            string_views(all@) == choices_candidates(string_views(contents@).take(i as int)),
        decreases contents.len() - i,
    {
        let mut part = split_candidates(contents[i].as_str());
        let ghost before = string_views(all@);
        let ghost added = string_views(part@);
        all.append(&mut part);
        assert(string_views(all@) =~= before + added);
        assert(string_views(contents@).take(i + 1).drop_last() =~= string_views(contents@).take(
            i as int,
        ));
        i = i + 1;
    }
    assert(string_views(contents@).take(contents.len() as int) =~= string_views(contents@));
    all
}

/// With the prompt variables, a template whose only placeholder is
/// `{{words}}` gets the word list in its place, even an empty one.
pub proof fn lemma_prompt_words(a: Seq<char>, b: Seq<char>, text: Seq<char>, n: u32, words: Seq<char>)
    requires
        free_of(a, '{'),
        free_of(b, '{'),
        free_of(words, '{'),
    ensures
        render_seq(a + placeholder("words"@) + b, prompt_vars(text, n, words)) == a + words + b,
{
    reveal_strlit("origin");
    reveal_strlit("n");
    reveal_strlit("words");
    let vars = prompt_vars(text, n, words);
    assert(vars[2].0 == "words"@);
    assert(vars[0].0 != vars[2].0) by {
        assert(vars[0].0.len() != vars[2].0.len());
    }
    assert(vars[1].0 != vars[2].0) by {
        assert(vars[1].0.len() != vars[2].0.len());
    }
    assert forall|i: int| 0 <= i < vars.len() implies plain_name(#[trigger] vars[i].0) by {}
    lemma_render_placeholder(a, b, vars, 2);
}

/// With the prompt variables, a template whose only placeholder is
/// `{{origin}}` gets the text in its place.
pub proof fn lemma_prompt_origin(a: Seq<char>, b: Seq<char>, text: Seq<char>, n: u32, words: Seq<char>)
    requires
        free_of(a, '{'),
        free_of(b, '{'),
        free_of(text, '{'),
    ensures
        render_seq(a + placeholder("origin"@) + b, prompt_vars(text, n, words)) == a + text + b,
{
    reveal_strlit("origin");
    reveal_strlit("n");
    reveal_strlit("words");
    let vars = prompt_vars(text, n, words);
    assert(vars[0].0 == "origin"@);
    assert(vars[1].0 != vars[0].0) by {
        assert(vars[1].0.len() != vars[0].0.len());
    }
    assert(vars[2].0 != vars[0].0) by {
        assert(vars[2].0.len() != vars[0].0.len());
    }
    assert forall|i: int| 0 <= i < vars.len() implies plain_name(#[trigger] vars[i].0) by {}
    lemma_render_placeholder(a, b, vars, 0);
}

} // verus!
