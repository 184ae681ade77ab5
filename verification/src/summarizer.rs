//! The local summarizer: deterministic, bounded-length condensation of free text.
//!
//! The text is split into non-empty lines, joined with an ideographic full stop,
//! and, when too long, cut at the last clause punctuation inside the character
//! budget (or hard-truncated with an ellipsis marker when no such boundary exists).
//! All work is on characters, never on bytes.

use vstd::prelude::*;
use crate::is_clause_punct;
use crate::text::{chars_of, is_space, replace_chars, string_of, sub_vec, take_chars, trim_chars, usize_to_string, spec_trim};

verus! {

/// A line is kept by the normalizer when it holds at least one non-space character.
pub open spec fn line_kept(l: Seq<char>) -> bool {
    exists|i: int| 0 <= i < l.len() && !is_space(l[i])
}

/// Index of the first line feed in `s`, or `s.len()` when there is none.
pub open spec fn first_nl(s: Seq<char>) -> nat
    decreases s.len(),
{
    if s.len() == 0 {
        0
    } else if s[0] == '\n' {
        0
    } else {
        1 + first_nl(s.drop_first())
    }
}

/// `first_nl` is the unique index with no line feed before it.
pub proof fn lemma_first_nl_is(s: Seq<char>, k: int)
    requires
        0 <= k <= s.len(),
        forall|j: int| 0 <= j < k ==> s[j] != '\n',
        k < s.len() ==> s[k] == '\n',
    ensures
        first_nl(s) == k,
    decreases s.len(),
{
    if s.len() > 0 && s[0] != '\n' {
        lemma_first_nl_is(s.drop_first(), k - 1);
    }
}

/// The normalized form of `s`: its lines that hold a non-space character,
/// each with a trailing carriage return before the line feed stripped,
/// joined with an ideographic full stop.
pub open spec fn spec_normalize(s: Seq<char>) -> Seq<char>
    decreases s.len(),
{
    if s.len() == 0 {
        Seq::<char>::empty()
    } else {
        let i = first_nl(s) as int;
        let line = if i < s.len() && i > 0 && s[i - 1] == '\r' {
            s.take(i - 1)
        } else {
            s.take(i)
        };
        let tail = if i < s.len() {
            spec_normalize(s.skip(i + 1))
        } else {
            Seq::<char>::empty()
        };
        if !line_kept(line) {
            tail
        } else if tail.len() == 0 {
            line
        } else {
            line.push('\u{3002}') + tail
        }
    }
}

/// Index of the last clause punctuation character in `s`, or -1 when there is none.
pub open spec fn rfind_punct(s: Seq<char>) -> int
    decreases s.len(),
{
    if s.len() == 0 {
        -1
    } else if is_clause_punct(s[s.len() - 1]) {
        s.len() - 1
    } else {
        rfind_punct(s.drop_last())
    }
}

pub proof fn lemma_rfind_punct(s: Seq<char>)
    ensures
        -1 <= rfind_punct(s) < s.len(),
        rfind_punct(s) >= 0 ==> is_clause_punct(s[rfind_punct(s)]),
        forall|k: int| rfind_punct(s) < k < s.len() ==> !is_clause_punct(s[k]),
    decreases s.len(),
{
    if s.len() > 0 && !is_clause_punct(s[s.len() - 1]) {
        lemma_rfind_punct(s.drop_last());
        assert forall|k: int| rfind_punct(s) < k < s.len() implies !is_clause_punct(s[k]) by {
            if k < s.len() - 1 {
                assert(!is_clause_punct(s.drop_last()[k]));
            }
        }
    }
}

/// `rfind_punct` is the unique index with no clause punctuation after it.
pub proof fn lemma_rfind_punct_is(s: Seq<char>, k: int)
    requires
        -1 <= k < s.len(),
        k >= 0 ==> is_clause_punct(s[k]),
        forall|j: int| k < j < s.len() ==> !is_clause_punct(s[j]),
    ensures
        rfind_punct(s) == k,
    decreases s.len(),
{
    if s.len() > 0 && !is_clause_punct(s[s.len() - 1]) {
        lemma_rfind_punct_is(s.drop_last(), k);
    }
}

/// What the local summarizer returns: the normalized content when it fits in
/// `max` characters; otherwise the first `max` characters, cut after the last
/// clause punctuation among them when one exists, else with an ellipsis appended.
pub open spec fn spec_local_summary(s: Seq<char>, max: nat) -> Seq<char> {
    let n = spec_normalize(s);
    if n.len() <= max {
        n
    } else {
        let p = n.take(max as int);
        let j = rfind_punct(p);
        if j >= 0 {
            p.take(j + 1)
        } else {
            p + seq!['.', '.', '.']
        }
    }
}

/// Law: the local summary holds at most `max` characters plus the three-character
/// ellipsis marker, and when the normalized content already fits in `max`
/// characters, it is returned exactly.
pub proof fn lemma_local_summary_bounded(s: Seq<char>, max: nat)
    ensures
        spec_local_summary(s, max).len() <= max + 3,
        spec_normalize(s).len() <= max ==> spec_local_summary(s, max) == spec_normalize(s),
{
    let n = spec_normalize(s);
    if n.len() > max {
        let p = n.take(max as int);
        lemma_rfind_punct(p);
    }
}

/// The normalized tail of `cs` from index `from` on, as `spec_normalize` gives it.
fn normalize_from(cs: &Vec<char>, from: usize) -> (r: Vec<char>)
    requires
        from <= cs@.len(),
    ensures
        r@ == spec_normalize(cs@.skip(from as int)),
    decreases cs@.len() - from@,
{
    let ghost s = cs@.skip(from as int);
    if from == cs.len() {
        let r: Vec<char> = Vec::new();
        proof {
            assert(s =~= Seq::<char>::empty());
        }
        return r;
    }
    // Find the end of the current line.
    let mut i: usize = from;
    while i < cs.len() && cs[i] != '\n'
        invariant
            from <= i <= cs@.len(),
            forall|k: int| from <= k < i ==> cs@[k] != '\n',
        decreases cs@.len() - i,
    {
        i = i + 1;
    }
    proof {
        assert(forall|j: int| 0 <= j < i - from ==> s[j] == cs@[from + j] && s[j] != '\n');
        lemma_first_nl_is(s, i - from as int);
    }
    let line_end: usize = if i < cs.len() && i > from && cs[i - 1] == '\r' {
        i - 1
    } else {
        i
    };
    let ghost line = cs@.subrange(from as int, line_end as int);
    proof {
        let fi = first_nl(s) as int;
        if fi < s.len() && fi > 0 && s[fi - 1] == '\r' {
            assert(line =~= s.take(fi - 1));
        } else {
            assert(line =~= s.take(fi));
        }
    }
    // Does the line hold a non-space character?
    let mut kept = false;
    let mut j: usize = from;
    while j < line_end
        invariant
            from <= j <= line_end <= cs@.len(),
            line == cs@.subrange(from as int, line_end as int),
            kept == exists|k: int| from <= k < j && !is_space(cs@[k]),
        decreases line_end - j,
    {
        let c = cs[j];
        if !(c == ' ' || c == '\t' || c == '\r' || c == '\n') {
            kept = true;
        }
        j = j + 1;
    }
    proof {
        assert(kept == line_kept(line)) by {
            if kept {
                let k = choose|k: int| from <= k < line_end && !is_space(cs@[k]);
                assert(!is_space(line[k - from]));
            }
            if line_kept(line) {
                let k = choose|k: int| 0 <= k < line.len() && !is_space(line[k]);
                assert(!is_space(cs@[from + k]));
            }
        }
    }
    let tail: Vec<char> = if i < cs.len() {
        normalize_from(cs, i + 1)
    } else {
        Vec::new()
    };
    proof {
        if i < cs.len() {
            assert(cs@.skip(i + 1 as int) =~= s.skip(first_nl(s) as int + 1));
        }
    }
    if !kept {
        tail
    } else if tail.len() == 0 {
        sub_vec(cs, from, line_end)
    } else {
        let mut r = sub_vec(cs, from, line_end);
        r.push('\u{3002}');
        let mut t = tail;
        r.append(&mut t);
        proof {
            assert(r@ =~= line.push('\u{3002}') + spec_normalize(s.skip(first_nl(s) as int + 1)));
        }
        r
    }
}

/// Condense `content` into at most `max` characters (plus an ellipsis marker):
/// non-empty lines joined with an ideographic full stop, cut at a clause
/// boundary when the result would run over. Deterministic, never fails.
pub fn local_summary(content: &str, max: usize) -> (r: String)
    ensures
        r@ == spec_local_summary(content@, max as nat),
{
    let cs = chars_of(content);
    let n = normalize_from(&cs, 0);
    proof {
        assert(cs@.skip(0) =~= cs@);
    }
    if n.len() <= max {
        return string_of(&n);
    }
    let p = sub_vec(&n, 0, max);
    proof {
        assert(p@ =~= n@.take(max as int));
    }
    // Look for the last clause punctuation inside the budget.
    let mut j: usize = max;
    while j > 0 && !is_clause_punct_at(&p, j - 1)
        invariant
            j <= max,
            p@.len() == max,
            forall|k: int| j <= k < max ==> !is_clause_punct(p@[k]),
        decreases j,
    {
        j = j - 1;
    }
    if j > 0 {
        proof {
            lemma_rfind_punct_is(p@, j - 1);
        }
        let c = sub_vec(&p, 0, j);
        proof {
            assert(c@ =~= p@.take(j - 1 + 1));
        }
        string_of(&c)
    } else {
        proof {
            lemma_rfind_punct_is(p@, -1);
        }
        let mut c = p;
        c.push('.');
        c.push('.');
        c.push('.');
        proof {
            assert(c@ =~= n@.take(max as int) + seq!['.', '.', '.']);
        }
        string_of(&c)
    }
}

/// The character at `i` is clause punctuation.
fn is_clause_punct_at(p: &Vec<char>, i: usize) -> (r: bool)
    requires
        i < p@.len(),
    ensures
        r == is_clause_punct(p@[i as int]),
{
    let c = p[i];
    c == '\u{3002}' || c == '\u{FF1B}' || c == '\u{FF0C}' || c == '\u{3001}'
}

/// `s` without its trailing slashes.
pub open spec fn trim_slash(s: Seq<char>) -> Seq<char>
    decreases s.len(),
{
    if s.len() > 0 && s.last() == '/' {
        trim_slash(s.drop_last())
    } else {
        s
    }
}

/// The chat-completion endpoint under `base`: trailing slashes dropped, a
/// `/v1` segment appended unless already present, then `/chat/completions`.
pub open spec fn spec_chat_url(base: Seq<char>) -> Seq<char> {
    let b = trim_slash(base);
    let v = if b.len() >= 3 && b.skip(b.len() - 3) == "/v1"@ {
        b
    } else {
        b + "/v1"@
    };
    v + "/chat/completions"@
}

/// Build the chat-completion endpoint URL from the configured base.
pub fn chat_url(base: &str) -> (r: String)
    ensures
        r@ == spec_chat_url(base@),
{
    let cs = chars_of(base);
    let n = cs.len();
    let mut hi: usize = n;
    proof {
        assert(base@.take(n as int) =~= base@);
    }
    while hi > 0 && cs[hi - 1] == '/'
        invariant
            hi <= n,
            n == cs@.len(),
            cs@ == base@,
            trim_slash(base@) == trim_slash(base@.take(hi as int)),
        decreases hi,
    {
        proof {
            assert(base@.take(hi as int).last() == base@[hi - 1]);
            assert(base@.take(hi as int).drop_last() =~= base@.take(hi - 1));
        }
        hi = hi - 1;
    }
    proof {
        let t = base@.take(hi as int);
        assert(trim_slash(t) == t);
        if hi == n {
            assert(base@.take(hi as int) =~= base@);
        }
    }
    let b = sub_vec(&cs, 0, hi);
    let ghost bv = trim_slash(base@);
    let ends_v1 = hi >= 3 && b[hi - 3] == '/' && b[hi - 2] == 'v' && b[hi - 1] == '1';
    proof {
        reveal_strlit("/v1");
        if ends_v1 {
            assert(bv.skip(bv.len() - 3) =~= "/v1"@);
        }
        if bv.len() >= 3 && bv.skip(bv.len() - 3) == "/v1"@ {
            assert(bv.skip(bv.len() - 3)[0] == '/');
            assert(bv.skip(bv.len() - 3)[1] == 'v');
            assert(bv.skip(bv.len() - 3)[2] == '1');
            assert(ends_v1);
        }
    }
    let s = string_of(&b);
    let v = if ends_v1 {
        s
    } else {
        s.concat("/v1")
    };
    let r = v.concat("/chat/completions");
    r
}

/// A prompt template with its slots filled: every `{max_words}` replaced by the
/// decimal word budget, every `{content}` by the content, itself cut to a
/// 4000-character transmission budget.
pub open spec fn spec_render(tpl: Seq<char>, max_words: int, content: Seq<char>) -> Seq<char> {
    let cut = if content.len() <= 4000 {
        content
    } else {
        content.take(4000)
    };
    crate::text::spec_replace(
        crate::text::spec_replace(tpl, "{max_words}"@, crate::text::spec_dec(max_words)),
        "{content}"@,
        cut,
    )
}

/// Fill a prompt template's `{max_words}` and `{content}` slots.
pub fn render_prompt(tpl: &str, max_words: usize, content: &str) -> (r: String)
    ensures
        r@ == spec_render(tpl@, max_words as int, content@),
{
    let tc = chars_of(tpl);
    let cc = chars_of(content);
    let cut = take_chars(&cc, 4000);
    let pat_words = chars_of("{max_words}");
    let pat_content = chars_of("{content}");
    proof {
        reveal_strlit("{max_words}");
        reveal_strlit("{content}");
    }
    let words = usize_to_string(max_words);
    let wc = chars_of(words.as_str());
    let step = replace_chars(&tc, &pat_words, &wc);
    let out = replace_chars(&step, &pat_content, &cut);
    string_of(&out)
}

/// One request to the remote summarization endpoint.
pub struct ChatRequest {
    pub url: String,
    pub body: String,
    pub api_key: String,
}

/// The remote call is wanted only when enabled and a credential is configured.
pub open spec fn spec_wants_remote(ai_enable: bool, api_key: Seq<char>) -> bool {
    ai_enable && api_key.len() > 0
}

/// The remote summarization request for `content` under `cfg`, when the remote
/// call is wanted at all: the endpoint URL, the rendered payload, and the
/// credential to present.
pub fn remote_request(cfg: &crate::config::Config, content: &str) -> (r: Option<ChatRequest>)
    ensures
        r is Some <==> spec_wants_remote(cfg.ai_enable, cfg.ai_api_key@),
        match r {
            Some(req) => {
                &&& req.url@ == spec_chat_url(cfg.ai_base_url@)
                &&& req.body@ == crate::json::spec_chat_body(
                    cfg.ai_model@,
                    spec_render(cfg.ai_system_prompt@, cfg.ai_max_words as int, content@),
                    spec_render(cfg.ai_user_prompt@, cfg.ai_max_words as int, content@),
                )
                &&& req.api_key@ == cfg.ai_api_key@
            },
            None => true,
        },
{
    if !cfg.ai_enable || cfg.ai_api_key.as_str().is_empty() {
        return None;
    }
    let sys = render_prompt(cfg.ai_system_prompt.as_str(), cfg.ai_max_words, content);
    let user = render_prompt(cfg.ai_user_prompt.as_str(), cfg.ai_max_words, content);
    let body = crate::json::chat_body(cfg.ai_model.as_str(), sys.as_str(), user.as_str());
    Some(
        ChatRequest {
            url: chat_url(cfg.ai_base_url.as_str()),
            body,
            api_key: cfg.ai_api_key.clone(),
        },
    )
}

/// The summary text inside a chat-completion response body, when the body
/// parses as JSON and carries one. A function of the body alone.
pub uninterp spec fn json_completion(body: Seq<char>) -> Option<Seq<char>>;

/// Relies on serde_json::from_str and serde_json::Value::pointer: parses the
/// response body and reads the string at `/choices/0/message/content`, if the
/// document parses and that field is a string.
#[verifier::external_body]
fn extract_completion(body: &str) -> (r: Option<String>)
    ensures
        match r {
            Some(t) => json_completion(body@) == Some(t@),
            None => json_completion(body@) is None,
        },
{
    match serde_json::from_str::<serde_json::Value>(body) {
        Ok(v) => v.pointer("/choices/0/message/content").and_then(|x| x.as_str()).map(
            |s| s.to_string(),
        ),
        Err(_) => None,
    }
}

/// What `generate` returns: with the remote path off, or no response, or a
/// response without usable text, the local summary; otherwise the response's
/// summary text, trimmed.
pub open spec fn spec_generate(
    wants_remote: bool,
    max_words: nat,
    content: Seq<char>,
    response: Option<Seq<char>>,
) -> Seq<char> {
    let local = spec_local_summary(content, max_words);
    if !wants_remote {
        local
    } else {
        match response {
            Some(body) => match json_completion(body) {
                Some(t) => if spec_trim(t).len() > 0 {
                    spec_trim(t)
                } else {
                    local
                },
                None => local,
            },
            None => local,
        }
    }
}

/// Law: whenever the remote path is off, or no response arrived, or the
/// response carries no summary text, `generate`'s result equals the local
/// summarizer's on the same content and budget, exactly.
pub proof fn lemma_generate_fallback(
    wants_remote: bool,
    max_words: nat,
    content: Seq<char>,
    response: Option<Seq<char>>,
)
    ensures
        spec_generate(false, max_words, content, response) == spec_local_summary(
            content,
            max_words,
        ),
        spec_generate(wants_remote, max_words, content, None) == spec_local_summary(
            content,
            max_words,
        ),
        response is Some && json_completion(response->Some_0) is None ==> spec_generate(
            wants_remote,
            max_words,
            content,
            response,
        ) == spec_local_summary(content, max_words),
{
}

/// Conclude summarization: take the remote response body when one arrived, and
/// fall back to the deterministic local summary whenever the remote path was
/// off, failed (no response), or yielded no usable text. Never fails.
pub fn generate(cfg: &crate::config::Config, content: &str, response: Option<&str>) -> (r: String)
    ensures
        r@ == spec_generate(
            spec_wants_remote(cfg.ai_enable, cfg.ai_api_key@),
            cfg.ai_max_words as nat,
            content@,
            match response {
                Some(b) => Some(b@),
                None => None,
            },
        ),
{
    if !cfg.ai_enable || cfg.ai_api_key.as_str().is_empty() {
        return local_summary(content, cfg.ai_max_words);
    }
    match response {
        Some(body) => match extract_completion(body) {
            Some(t) => {
                let tc = chars_of(t.as_str());
                let trimmed = trim_chars(&tc);
                if trimmed.len() > 0 {
                    string_of(&trimmed)
                } else {
                    local_summary(content, cfg.ai_max_words)
                }
            },
            None => local_summary(content, cfg.ai_max_words),
        },
        None => local_summary(content, cfg.ai_max_words),
    }
}

} // verus!
