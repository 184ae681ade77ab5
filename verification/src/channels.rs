//! Channel payload text: HTML escaping, Markdown-residue stripping, the
//! chat-bot message text, excerpt bounds, and the acceptance checks for the
//! remote services' responses.

use vstd::prelude::*;
use crate::text::{chars_of, spec_replace, spec_trim, replace_chars, string_of, take_chars,
    trim_chars};

verus! {

/// How one character is written in HTML text.
pub open spec fn spec_html_esc_char(c: char) -> Seq<char> {
    if c == '&' {
        seq!['&', 'a', 'm', 'p', ';']
    } else if c == '<' {
        seq!['&', 'l', 't', ';']
    } else if c == '>' {
        seq!['&', 'g', 't', ';']
    } else {
        seq![c]
    }
}

/// `s` with `&`, `<` and `>` written as HTML entities.
pub open spec fn spec_escape_html(s: Seq<char>) -> Seq<char>
    decreases s.len(),
{
    if s.len() == 0 {
        Seq::<char>::empty()
    } else {
        spec_escape_html(s.drop_last()) + spec_html_esc_char(s.last())
    }
}

/// Escape `&`, `<` and `>` for an HTML rendering target.
pub fn escape_html(s: &str) -> (r: String)
    ensures
        r@ == spec_escape_html(s@),
{
    let cs = chars_of(s);
    let mut out: Vec<char> = Vec::new();
    let mut i: usize = 0;
    proof {
        assert(s@.take(0) =~= Seq::<char>::empty());
    }
    while i < cs.len()
        invariant
            i <= cs@.len(),
            cs@ == s@,
            out@ == spec_escape_html(s@.take(i as int)),
        decreases cs@.len() - i,
    {
        let ghost pre = out@;
        let c = cs[i];
        if c == '&' {
            out.push('&');
            out.push('a');
            out.push('m');
            out.push('p');
            out.push(';');
        } else if c == '<' {
            out.push('&');
            out.push('l');
            out.push('t');
            out.push(';');
        } else if c == '>' {
            out.push('&');
            out.push('g');
            out.push('t');
            out.push(';');
        } else {
            out.push(c);
        }
        proof {
            assert(out@ =~= pre + spec_html_esc_char(s@[i as int]));
            assert(s@.take(i + 1).drop_last() =~= s@.take(i as int));
            assert(s@.take(i + 1).last() == s@[i as int]);
        }
        i = i + 1;
    }
    proof {
        assert(s@.take(i as int) =~= s@);
    }
    string_of(&out)
}

/// `s` with Markdown residue removed: `**` pairs first, then every backtick
/// run and every hash mark, in the order the scrubber applies them.
pub open spec fn spec_strip_md(s: Seq<char>) -> Seq<char> {
    let e = Seq::<char>::empty();
    spec_replace(
        spec_replace(
            spec_replace(spec_replace(spec_replace(s, "**"@, e), "```"@, e), "`"@, e),
            "##"@,
            e,
        ),
        "#"@,
        e,
    )
}

/// Remove Markdown markers the remote summarizer may have left behind.
pub fn strip_md(s: &str) -> (r: String)
    ensures
        r@ == spec_strip_md(s@),
{
    proof {
        reveal_strlit("**");
        reveal_strlit("```");
        reveal_strlit("`");
        reveal_strlit("##");
        reveal_strlit("#");
    }
    let cs = chars_of(s);
    let empty: Vec<char> = Vec::new();
    let p1 = chars_of("**");
    let p2 = chars_of("```");
    let p3 = chars_of("`");
    let p4 = chars_of("##");
    let p5 = chars_of("#");
    let a = replace_chars(&cs, &p1, &empty);
    let b = replace_chars(&a, &p2, &empty);
    let c = replace_chars(&b, &p3, &empty);
    let d = replace_chars(&c, &p4, &empty);
    let e = replace_chars(&d, &p5, &empty);
    string_of(&e)
}

/// The first 500 characters of `s`.
pub open spec fn spec_take500(s: Seq<char>) -> Seq<char> {
    if s.len() <= 500 {
        s
    } else {
        s.take(500)
    }
}

/// The chat-bot message text: bold title, the scrubbed and escaped summary,
/// and, when given, a raw excerpt in a preformatted block and an extra note.
pub open spec fn spec_chat_text(
    title: Seq<char>,
    summary: Seq<char>,
    raw: Option<Seq<char>>,
    extra: Option<Seq<char>>,
) -> Seq<char> {
    let base = "<b>"@ + spec_escape_html(title) + "</b>\n\n<b>AI \u{6458}\u{8981}\u{FF1A}</b>\n"@
        + spec_escape_html(spec_strip_md(summary));
    let with_raw = match raw {
        Some(r) => base + "\n\n<b>\u{539F}\u{59CB}\u{8F93}\u{51FA}\u{FF1A}</b>\n<pre>"@
            + spec_escape_html(spec_take500(r)) + "</pre>"@,
        None => base,
    };
    match extra {
        Some(e) => with_raw + "\n\n"@ + spec_escape_html(e),
        None => with_raw,
    }
}

/// Build the chat-bot message text for one notification.
pub fn chat_text(title: &str, summary: &str, raw: Option<&str>, extra: Option<&str>) -> (r: String)
    ensures
        r@ == spec_chat_text(
            title@,
            summary@,
            match raw {
                Some(s) => Some(s@),
                None => None,
            },
            match extra {
                Some(s) => Some(s@),
                None => None,
            },
        ),
{
    let clean = strip_md(summary);
    let mut out = "<b>".to_owned();
    out.append(escape_html(title).as_str());
    out.append("</b>\n\n<b>AI \u{6458}\u{8981}\u{FF1A}</b>\n");
    out.append(escape_html(clean.as_str()).as_str());
    match raw {
        Some(rv) => {
            let rc = chars_of(rv);
            let cut = take_chars(&rc, 500);
            let cut_s = string_of(&cut);
            out.append("\n\n<b>\u{539F}\u{59CB}\u{8F93}\u{51FA}\u{FF1A}</b>\n<pre>");
            out.append(escape_html(cut_s.as_str()).as_str());
            out.append("</pre>");
        },
        None => {},
    }
    match extra {
        Some(ev) => {
            out.append("\n\n");
            out.append(escape_html(ev).as_str());
        },
        None => {},
    }
    proof {
        assert(out@ =~= spec_chat_text(
            title@,
            summary@,
            match raw {
                Some(s) => Some(s@),
                None => None,
            },
            match extra {
                Some(s) => Some(s@),
                None => None,
            },
        ));
    }
    out
}

/// The raw excerpt attached to a notification: the content trimmed, then cut
/// to 500 characters.
pub open spec fn spec_raw_excerpt(s: Seq<char>) -> Seq<char> {
    spec_take500(spec_trim(s))
}

/// The raw excerpt attached to a notification.
pub fn raw_excerpt(content: &str) -> (r: String)
    ensures
        r@ == spec_raw_excerpt(content@),
{
    let cs = chars_of(content);
    let t = trim_chars(&cs);
    let cut = take_chars(&t, 500);
    string_of(&cut)
}

/// The desktop notification body: the message, cut to 200 characters with an
/// ellipsis marker when longer.
pub open spec fn spec_notify_body(m: Seq<char>) -> Seq<char> {
    if m.len() > 200 {
        m.take(200) + seq!['.', '.', '.']
    } else {
        m
    }
}

/// Bound the desktop notification body.
pub fn notify_body(message: &str) -> (r: String)
    ensures
        r@ == spec_notify_body(message@),
{
    let cs = chars_of(message);
    if cs.len() > 200 {
        let mut cut = take_chars(&cs, 200);
        cut.push('.');
        cut.push('.');
        cut.push('.');
        proof {
            assert(cut@ =~= message@.take(200) + seq!['.', '.', '.']);
        }
        string_of(&cut)
    } else {
        string_of(&cs)
    }
}

/// The chat-bot API accepted the message: its `ok` field reads true.
pub fn chat_accepted(ok: Option<bool>) -> (r: bool)
    ensures
        r == (ok == Some(true)),
{
    match ok {
        Some(b) => b,
        None => false,
    }
}

/// An absent status field counts as failure.
pub open spec fn spec_status_or(o: Option<i64>) -> int {
    match o {
        Some(v) => v as int,
        None => -1,
    }
}

/// The webhook-card API accepted the card: it is rejected only when both
/// status fields (the provider answers under either of two names) are non-zero.
pub fn webhook_accepted(code: Option<i64>, status: Option<i64>) -> (r: bool)
    ensures
        r == !(spec_status_or(code) != 0 && spec_status_or(status) != 0),
{
    let c: i64 = match code {
        Some(v) => v,
        None => -1,
    };
    let s: i64 = match status {
        Some(v) => v,
        None => -1,
    };
    !(c != 0 && s != 0)
}

} // verus!
