//! Enrichment: the key of the cache of generated texts, the text of an
//! article as it is summarised, and what is asked of the generation service
//! for a summary.

use vstd::prelude::*;
use vstd::string::{StrSliceExecFns, StringExecFns};
use vstd::utf8::encode_utf8;
use crate::feed::types::opt_view;
use crate::storage::models::EntryRecord;
use crate::text::{
    concat2, concat3, first_chars, is_blank, join_first, joined, lines_of, split_lines,
    str_is_blank, take_chars, trim, trimmed, views,
};

verus! {

/// The SHA-256 digest of `data`.
pub uninterp spec fn sha256(data: Seq<u8>) -> Seq<u8>;

/// Calls `Sha256::digest` of the crate `sha2`: the digest of the whole of
/// `data`, a function of the bytes alone, 32 bytes long.
#[verifier::external_body]
fn sha256_digest(data: &[u8]) -> (r: Vec<u8>)
    ensures
        r@ == sha256(data@),
        r@.len() == 32,
{
    <sha2::Sha256 as sha2::Digest>::digest(data).to_vec()
}

/// The lower-case hexadecimal digit of `d`.
pub open spec fn hex_digit(d: int) -> char {
    if d == 0 {
        '0'
    } else if d == 1 {
        '1'
    } else if d == 2 {
        '2'
    } else if d == 3 {
        '3'
    } else if d == 4 {
        '4'
    } else if d == 5 {
        '5'
    } else if d == 6 {
        '6'
    } else if d == 7 {
        '7'
    } else if d == 8 {
        '8'
    } else if d == 9 {
        '9'
    } else if d == 10 {
        'a'
    } else if d == 11 {
        'b'
    } else if d == 12 {
        'c'
    } else if d == 13 {
        'd'
    } else if d == 14 {
        'e'
    } else {
        'f'
    }
}

/// `bytes` in lower-case hexadecimal, two digits a byte.
pub open spec fn hex(bytes: Seq<u8>) -> Seq<char>
    decreases bytes.len(),
{
    if bytes.len() == 0 {
        Seq::empty()
    } else {
        hex(bytes.drop_last()).push(hex_digit(bytes.last() as int / 16)).push(
            hex_digit(bytes.last() as int % 16),
        )
    }
}

fn hex_digit_of(d: u8) -> (r: char)
    requires
        d < 16,
    ensures
        r == hex_digit(d as int),
{
    if d == 0 {
        '0'
    } else if d == 1 {
        '1'
    } else if d == 2 {
        '2'
    } else if d == 3 {
        '3'
    } else if d == 4 {
        '4'
    } else if d == 5 {
        '5'
    } else if d == 6 {
        '6'
    } else if d == 7 {
        '7'
    } else if d == 8 {
        '8'
    } else if d == 9 {
        '9'
    } else if d == 10 {
        'a'
    } else if d == 11 {
        'b'
    } else if d == 12 {
        'c'
    } else if d == 13 {
        'd'
    } else if d == 14 {
        'e'
    } else {
        'f'
    }
}

/// Hexadecimal takes two characters a byte.
pub proof fn lemma_hex_len(bytes: Seq<u8>)
    ensures
        hex(bytes).len() == 2 * bytes.len(),
    decreases bytes.len(),
{
    if bytes.len() > 0 {
        lemma_hex_len(bytes.drop_last());
    }
}

/// Writes `bytes` in lower-case hexadecimal.
pub fn hex_string(bytes: &Vec<u8>) -> (r: String)
    ensures
        r@ == hex(bytes@),
        r@.len() == 2 * bytes@.len(),
{
    proof {
        lemma_hex_len(bytes@);
    }
    let mut out = String::new();
    let mut i: usize = 0;
    assert(bytes@.take(0) =~= Seq::<u8>::empty());
    while i < bytes.len()
        invariant
            i <= bytes.len(),
            out@ == hex(bytes@.take(i as int)),
        decreases bytes.len() - i,
    {
        let b: u8 = bytes[i];
        out.push(hex_digit_of(b / 16));
        out.push(hex_digit_of(b % 16));
        proof {
            let now = bytes@.take(i + 1);
            assert(now.drop_last() =~= bytes@.take(i as int));
            assert(now.last() == b);
        }
        i += 1;
    }
    assert(bytes@.take(bytes.len() as int) =~= bytes@);
    out
}

/// What is hashed for a task: its type, the model and the input, with `::`
/// between them.
pub open spec fn hash_preimage(task_type: Seq<char>, model: Seq<char>, input: Seq<char>) -> Seq<
    char,
> {
    task_type + "::"@ + model + "::"@ + input
}

/// The key of a generated text in the cache: the SHA-256 digest of the
/// UTF-8 bytes of `hash_preimage`, in lower-case hexadecimal.
pub open spec fn llm_input_hash(task_type: Seq<char>, model: Seq<char>, input: Seq<char>) -> Seq<
    char,
> {
    hex(sha256(encode_utf8(hash_preimage(task_type, model, input))))
}

/// Computes the key of a generated text in the cache. The same task type,
/// model and input give the same key, whenever and wherever it is computed;
/// a key has 64 characters.
pub fn hash_llm_input(task_type: &str, model: &str, input: &str) -> (r: String)
    ensures
        r@ == llm_input_hash(task_type@, model@, input@),
        r@.len() == 64,
{
    let mut preimage = concat3(task_type, "::", model);
    preimage.append("::");
    preimage.append(input);
    let digest = sha256_digest(preimage.as_str().as_bytes());
    hex_string(&digest)
}

proof fn lemma_same_tail(a: Seq<char>, b: Seq<char>, tail: Seq<char>)
    requires
        a + tail == b + tail,
    ensures
        a == b,
{
    let x = a + tail;
    let y = b + tail;
    assert(x.len() == a.len() + tail.len());
    assert(y.len() == b.len() + tail.len());
    assert(a.len() == b.len());
    assert forall|i: int| 0 <= i < a.len() implies a[i] == b[i] by {
        assert(x[i] == a[i]);
        assert(y[i] == b[i]);
    }
    assert(a =~= b);
}

proof fn lemma_same_head(head: Seq<char>, a: Seq<char>, b: Seq<char>)
    requires
        head + a == head + b,
    ensures
        a == b,
{
    let x = head + a;
    let y = head + b;
    assert(x.len() == head.len() + a.len());
    assert(y.len() == head.len() + b.len());
    assert(a.len() == b.len());
    assert forall|i: int| 0 <= i < a.len() implies a[i] == b[i] by {
        assert(x[head.len() + i] == a[i]);
        assert(y[head.len() + i] == b[i]);
    }
    assert(a =~= b);
}

/// Two tasks that differ in exactly one of task type, model and input are
/// hashed from different texts, and from different bytes. (That their
/// digests differ as well is what SHA-256 is trusted for; it is not stated
/// here.)
pub proof fn lemma_one_difference_changes_preimage(
    task_a: Seq<char>,
    model_a: Seq<char>,
    input_a: Seq<char>,
    task_b: Seq<char>,
    model_b: Seq<char>,
    input_b: Seq<char>,
)
    requires
        (task_a != task_b && model_a == model_b && input_a == input_b) || (task_a == task_b
            && model_a != model_b && input_a == input_b) || (task_a == task_b && model_a == model_b
            && input_a != input_b),
    ensures
        hash_preimage(task_a, model_a, input_a) != hash_preimage(task_b, model_b, input_b),
        encode_utf8(hash_preimage(task_a, model_a, input_a)) != encode_utf8(
            hash_preimage(task_b, model_b, input_b),
        ),
{
    let pa = hash_preimage(task_a, model_a, input_a);
    let pb = hash_preimage(task_b, model_b, input_b);
    if pa == pb {
        if task_a != task_b {
            let tail = "::"@ + model_a + "::"@ + input_a;
            assert(pa =~= task_a + tail);
            assert(pb =~= task_b + tail);
            lemma_same_tail(task_a, task_b, tail);
        } else if model_a != model_b {
            let head = task_a + "::"@;
            let tail = "::"@ + input_a;
            assert(pa =~= head + (model_a + tail));
            assert(pb =~= head + (model_b + tail));
            lemma_same_head(head, model_a + tail, model_b + tail);
            lemma_same_tail(model_a, model_b, tail);
        } else {
            let head = task_a + "::"@ + model_a + "::"@;
            assert(pa =~= head + input_a);
            assert(pb =~= head + input_b);
            lemma_same_head(head, input_a, input_b);
        }
    }
    vstd::utf8::encode_utf8_decode_utf8(pa);
    vstd::utf8::encode_utf8_decode_utf8(pb);
}

/// The text of an entry to summarise when its page cannot be had: summary
/// and content, a blank line between them, or the one of them there is, or
/// the title where there is neither.
pub open spec fn fallback_text(entry: EntryRecord) -> Seq<char> {
    match (entry.summary, entry.content) {
        (Some(s), Some(c)) => s@ + "\n\n"@ + c@,
        (Some(s), None) => s@,
        (None, Some(c)) => c@,
        (None, None) => entry.title@,
    }
}

/// The text to summarise in place of the entry's page.
pub fn fallback_entry_text(entry: &EntryRecord) -> (r: String)
    ensures
        r@ == fallback_text(*entry),
{
    match (&entry.summary, &entry.content) {
        (Some(s), Some(c)) => concat3(s.as_str(), "\n\n", c.as_str()),
        (Some(s), None) => s.clone(),
        (None, Some(c)) => c.clone(),
        (None, None) => entry.title.clone(),
    }
}

/// The most characters of an article that go into a summary's input.
pub const SUMMARY_ARTICLE_CHARS: usize = 12000;

/// What the generation service is given to summarise: title and link of
/// the entry, then the first 12000 characters of the article.
pub open spec fn summary_input(entry: EntryRecord, article_text: Seq<char>) -> Seq<char> {
    "Title: "@ + entry.title@ + "\nLink: "@ + entry.link@ + "\n\nArticle Text:\n"@ + first_chars(
        article_text,
        12000,
    )
}

/// Builds the input of a summary.
pub fn build_summary_input(entry: &EntryRecord, article_text: &str) -> (r: String)
    ensures
        r@ == summary_input(*entry, article_text@),
{
    let body = take_chars(article_text, SUMMARY_ARTICLE_CHARS);
    let mut out = concat3("Title: ", entry.title.as_str(), "\nLink: ");
    out.append(entry.link.as_str());
    out.append("\n\nArticle Text:\n");
    out.append(body.as_str());
    out
}

/// The lines of `lines` that are not blank, each trimmed, in order.
pub open spec fn kept_lines(lines: Seq<Seq<char>>) -> Seq<Seq<char>>
    decreases lines.len(),
{
    if lines.len() == 0 {
        Seq::empty()
    } else if is_blank(lines.last()) {
        kept_lines(lines.drop_last())
    } else {
        kept_lines(lines.drop_last()).push(trimmed(lines.last()))
    }
}

/// The first `n` of `lines`, or all of them where there are fewer.
pub open spec fn first_lines(lines: Seq<Seq<char>>, n: nat) -> Seq<Seq<char>> {
    if lines.len() <= n {
        lines
    } else {
        lines.take(n as int)
    }
}

/// The columns a page is rendered to before it is handed over.
pub const ARTICLE_WIDTH: usize = 120;

/// The most lines of an article that are kept.
pub const ARTICLE_MAX_LINES: usize = 1200;

/// The text of an article as it is summarised: of the lines of the
/// rendering, those that are not blank, trimmed, the first 1200 of them,
/// one to a line.
pub open spec fn article_text(rendered: Seq<char>) -> Seq<char> {
    joined(first_lines(kept_lines(lines_of(rendered)), 1200), "\n"@)
}

/// The non-blank lines of `text`, trimmed.
pub fn trimmed_lines(text: &str) -> (r: Vec<String>)
    ensures
        views(r@) == kept_lines(lines_of(text@)),
{
    let lines = split_lines(text);
    let mut out: Vec<String> = Vec::new();
    let mut i: usize = 0;
    assert(views(lines@).take(0) =~= Seq::<Seq<char>>::empty());
    assert(views(out@) =~= Seq::<Seq<char>>::empty());
    while i < lines.len()
        invariant
            i <= lines.len(),
            views(out@) == kept_lines(views(lines@).take(i as int)),
        decreases lines.len() - i,
    {
        proof {
            let now = views(lines@).take(i + 1);
            assert(now.drop_last() =~= views(lines@).take(i as int));
            assert(now.last() == lines@[i as int]@);
        }
        if !str_is_blank(lines[i].as_str()) {
            let line = trim(lines[i].as_str());
            assert(views(out@.push(line)) =~= views(out@).push(line@));
            out.push(line);
        }
        i += 1;
    }
    assert(views(lines@).take(lines.len() as int) =~= views(lines@));
    out
}

/// Cleans the rendering of a page up for a summary.
pub fn clean_article_text(rendered: &str) -> (r: String)
    ensures
        r@ == article_text(rendered@),
{
    let lines = trimmed_lines(rendered);
    let count: usize = if lines.len() <= ARTICLE_MAX_LINES {
        lines.len()
    } else {
        ARTICLE_MAX_LINES
    };
    let r = join_first(&lines, count, "\n");
    assert(views(lines@).take(count as int) =~= first_lines(views(lines@), 1200));
    r
}

/// What a page comes to as the text of an article, given the plain text
/// it was rendered to: refused where the page could not be rendered, and
/// where nothing is left of its rendering.
pub open spec fn article_outcome(rendered: Option<Seq<char>>) -> Result<Seq<char>, Seq<char>> {
    match rendered {
        None => Err("failed to convert html to text"@),
        Some(text) => if article_text(text).len() == 0 {
            Err("empty article text"@)
        } else {
            Ok(article_text(text))
        },
    }
}

/// Turns the rendering of a page into the text of an article. `rendered`
/// is the plain text of the page at `ARTICLE_WIDTH` columns, or nothing
/// where the page could not be rendered.
pub fn article_text_from_rendering(rendered: Option<String>) -> (r: Result<String, String>)
    ensures
        match r {
            Ok(text) => article_outcome(opt_view(rendered)) == Ok::<Seq<char>, Seq<char>>(text@),
            Err(m) => article_outcome(opt_view(rendered)) == Err::<Seq<char>, Seq<char>>(m@),
        },
{
    match rendered {
        None => Err("failed to convert html to text".to_owned()),
        Some(rendered) => {
            let text = clean_article_text(rendered.as_str());
            if text.as_str().unicode_len() == 0 {
                Err("empty article text".to_owned())
            } else {
                Ok(text)
            }
        },
    }
}

/// The input of a summary and its key in the cache.
#[derive(Debug)]
pub struct SummaryTask {
    pub input: String,
    pub hash: String,
}

/// The task of summarising `entry` with `model`: the input is built from
/// the article where there is one, else from the entry's own text, and is
/// keyed under the task type `summary`.
pub open spec fn is_summary_task(
    entry: EntryRecord,
    article: Result<String, String>,
    model: Seq<char>,
    task: SummaryTask,
) -> bool {
    &&& task.input@ == summary_input(
        entry,
        match article {
            Ok(text) => text@,
            Err(_) => fallback_text(entry),
        },
    )
    &&& task.hash@ == llm_input_hash("summary"@, model, task.input@)
}

/// Plans the summary of an entry. `article` is the text of the entry's
/// page, or why it could not be had.
pub fn plan_summary(entry: &EntryRecord, article: Result<String, String>, model: &str) -> (r:
    SummaryTask)
    ensures
        is_summary_task(*entry, article, model@, r),
{
    let text = match article {
        Ok(text) => text,
        Err(_) => fallback_entry_text(entry),
    };
    let input = build_summary_input(entry, text.as_str());
    let hash = hash_llm_input("summary", model, input.as_str());
    SummaryTask { input, hash }
}

/// What follows the look into the cache.
#[derive(Debug)]
pub enum SummaryStep {
    /// The cache holds the summary: it is the result, and nothing is asked
    /// of the generation service.
    Reuse(String),
    /// The summary is to be generated, and stored under the task's key.
    Generate { system_prompt: String, user_prompt: String },
}

/// Decides between the cached summary and a call of the service.
pub fn summary_step(task: &SummaryTask, cached: Option<String>) -> (r: SummaryStep)
    ensures
        match cached {
            Some(text) => r == SummaryStep::Reuse(text),
            None => {
                &&& r matches SummaryStep::Generate { system_prompt, user_prompt }
                &&& system_prompt@ == "You summarize technical articles in concise Chinese."@
                &&& user_prompt@ == "请总结下面这篇文章，输出 5 条以内要点：\n\n"@ + task.input@
            },
        },
{
    match cached {
        Some(text) => SummaryStep::Reuse(text),
        None => SummaryStep::Generate {
            system_prompt: "You summarize technical articles in concise Chinese.".to_owned(),
            user_prompt: concat2("请总结下面这篇文章，输出 5 条以内要点：\n\n", task.input.as_str()),
        },
    }
}

} // verus!
