//! Verified JSON string encoding for the request payloads the pipeline sends.

use vstd::prelude::*;
use crate::text::{chars_of, string_of};

verus! {

/// The hexadecimal digit character for `d`.
pub open spec fn spec_hex_digit(d: int) -> char {
    if d < 10 {
        crate::text::spec_digit_char(d)
    } else if d == 10 {
        'a'
    } else if d == 11 {
        'b'
    } else if d == 12 {
        'c'
    } else if d == 13 {
        'd'
    } else if d == 14 {
        'e'
    } else {
        'f'
    }
}

/// How one character is written inside a JSON string literal.
pub open spec fn spec_json_esc_char(c: char) -> Seq<char> {
    if c == '"' {
        seq!['\\', '"']
    } else if c == '\\' {
        seq!['\\', '\\']
    } else if c == '\n' {
        seq!['\\', 'n']
    } else if c == '\r' {
        seq!['\\', 'r']
    } else if c == '\t' {
        seq!['\\', 't']
    } else if (c as u32) < 32 {
        seq!['\\', 'u', '0', '0', spec_hex_digit(c as u32 as int / 16), spec_hex_digit(
            c as u32 as int % 16,
        )]
    } else {
        seq![c]
    }
}

/// How a whole string is written inside a JSON string literal.
pub open spec fn spec_json_esc(s: Seq<char>) -> Seq<char>
    decreases s.len(),
{
    if s.len() == 0 {
        Seq::<char>::empty()
    } else {
        spec_json_esc(s.drop_last()) + spec_json_esc_char(s.last())
    }
}

fn hex_digit(d: u32) -> (c: char)
    requires
        d < 16,
    ensures
        c == spec_hex_digit(d as int),
{
    if d == 0 {
        '0'
    } else if d == 1 {
        '1'
    } else if d == 2 {
        '2'
    } else if d == 3 {
        '3'
    } else if d == 4 {
        '4'
    } else if d == 5 {
        '5'
    } else if d == 6 {
        '6'
    } else if d == 7 {
        '7'
    } else if d == 8 {
        '8'
    } else if d == 9 {
        '9'
    } else if d == 10 {
        'a'
    } else if d == 11 {
        'b'
    } else if d == 12 {
        'c'
    } else if d == 13 {
        'd'
    } else if d == 14 {
        'e'
    } else {
        'f'
    }
}

fn push_esc_char(out: &mut Vec<char>, c: char)
    ensures
        final(out)@ == old(out)@ + spec_json_esc_char(c),
{
    if c == '"' {
        out.push('\\');
        out.push('"');
    } else if c == '\\' {
        out.push('\\');
        out.push('\\');
    } else if c == '\n' {
        out.push('\\');
        out.push('n');
    } else if c == '\r' {
        out.push('\\');
        out.push('r');
    } else if c == '\t' {
        out.push('\\');
        out.push('t');
    } else {
        let v = c as u32;
        if v < 32 {
            out.push('\\');
            out.push('u');
            out.push('0');
            out.push('0');
            out.push(hex_digit(v / 16));
            out.push(hex_digit(v % 16));
        } else {
            out.push(c);
        }
    }
    proof {
        assert(out@ =~= old(out)@ + spec_json_esc_char(c));
    }
}

/// Encode the characters of `s` for use inside a JSON string literal.
pub fn json_escape(s: &str) -> (r: String)
    ensures
        r@ == spec_json_esc(s@),
{
    let cs = chars_of(s);
    let mut out: Vec<char> = Vec::new();
    let mut i: usize = 0;
    proof {
        assert(s@.take(0) =~= Seq::<char>::empty());
    }
    while i < cs.len()
        invariant
            i <= cs@.len(),
            cs@ == s@,
            out@ == spec_json_esc(s@.take(i as int)),
        decreases cs@.len() - i,
    {
        push_esc_char(&mut out, cs[i]);
        proof {
            assert(s@.take(i + 1).drop_last() =~= s@.take(i as int));
            assert(s@.take(i + 1).last() == s@[i as int]);
        }
        i = i + 1;
    }
    proof {
        assert(s@.take(i as int) =~= s@);
    }
    string_of(&out)
}

/// The chat-completion request payload: model, a system and a user message,
/// and the fixed token and temperature settings.
pub open spec fn spec_chat_body(model: Seq<char>, sys: Seq<char>, user: Seq<char>) -> Seq<char> {
    "{\"model\":\""@ + spec_json_esc(model)
        + "\",\"messages\":[{\"role\":\"system\",\"content\":\""@ + spec_json_esc(sys)
        + "\"},{\"role\":\"user\",\"content\":\""@ + spec_json_esc(user)
        + "\"}],\"max_tokens\":800,\"temperature\":0.3}"@
}

/// Build the chat-completion request payload.
pub fn chat_body(model: &str, sys: &str, user: &str) -> (r: String)
    ensures
        r@ == spec_chat_body(model@, sys@, user@),
{
    let mut r = "{\"model\":\"".to_owned();
    r.append(json_escape(model).as_str());
    r.append("\",\"messages\":[{\"role\":\"system\",\"content\":\"");
    r.append(json_escape(sys).as_str());
    r.append("\"},{\"role\":\"user\",\"content\":\"");
    r.append(json_escape(user).as_str());
    r.append("\"}],\"max_tokens\":800,\"temperature\":0.3}");
    proof {
        assert(r@ =~= spec_chat_body(model@, sys@, user@));
    }
    r
}

/// The chat-bot message payload: destination, text, and the HTML parse mode.
pub open spec fn spec_bot_body(chat_id: Seq<char>, text: Seq<char>) -> Seq<char> {
    "{\"chat_id\":\""@ + spec_json_esc(chat_id) + "\",\"text\":\""@ + spec_json_esc(text)
        + "\",\"parse_mode\":\"HTML\"}"@
}

/// Build the chat-bot message payload.
pub fn bot_body(chat_id: &str, text: &str) -> (r: String)
    ensures
        r@ == spec_bot_body(chat_id@, text@),
{
    let mut r = "{\"chat_id\":\"".to_owned();
    r.append(json_escape(chat_id).as_str());
    r.append("\",\"text\":\"");
    r.append(json_escape(text).as_str());
    r.append("\",\"parse_mode\":\"HTML\"}");
    proof {
        assert(r@ =~= spec_bot_body(chat_id@, text@));
    }
    r
}

/// The webhook card payload: a wide green-header card holding the summary, an
/// optional raw excerpt between rules, and the sender's signature note.
pub open spec fn spec_card_body(
    title: Seq<char>,
    summary: Seq<char>,
    raw: Option<Seq<char>>,
) -> Seq<char> {
    let head =
        "{\"msg_type\":\"interactive\",\"card\":{\"config\":{\"wide_screen_mode\":true},\"header\":{\"template\":\"green\",\"title\":{\"content\":\""@
        + spec_json_esc(title)
        + "\",\"tag\":\"plain_text\"}},\"elements\":[{\"tag\":\"div\",\"text\":{\"content\":\"**AI \u{6458}\u{8981}**\\n"@
        + spec_json_esc(summary) + "\",\"tag\":\"lark_md\"}}"@;
    let mid = match raw {
        Some(r) => head
            + ",{\"tag\":\"hr\"},{\"tag\":\"div\",\"text\":{\"content\":\"**\u{539F}\u{59CB}\u{8F93}\u{51FA}**\",\"tag\":\"lark_md\"}},{\"tag\":\"note\",\"elements\":[{\"tag\":\"plain_text\",\"content\":\""@
            + spec_json_esc(r) + "\"}]}"@,
        None => head,
    };
    mid + ",{\"tag\":\"note\",\"elements\":[{\"tag\":\"plain_text\",\"content\":\"codex-hook\"}]}]}}"@
}

/// Build the webhook card payload.
pub fn card_body(title: &str, summary: &str, raw: Option<&str>) -> (r: String)
    ensures
        r@ == spec_card_body(
            title@,
            summary@,
            match raw {
                Some(s) => Some(s@),
                None => None,
            },
        ),
{
    let mut r =
        "{\"msg_type\":\"interactive\",\"card\":{\"config\":{\"wide_screen_mode\":true},\"header\":{\"template\":\"green\",\"title\":{\"content\":\"".to_owned();
    r.append(json_escape(title).as_str());
    r.append(
        "\",\"tag\":\"plain_text\"}},\"elements\":[{\"tag\":\"div\",\"text\":{\"content\":\"**AI \u{6458}\u{8981}**\\n",
    );
    r.append(json_escape(summary).as_str());
    r.append("\",\"tag\":\"lark_md\"}}");
    match raw {
        Some(rv) => {
            r.append(
                ",{\"tag\":\"hr\"},{\"tag\":\"div\",\"text\":{\"content\":\"**\u{539F}\u{59CB}\u{8F93}\u{51FA}**\",\"tag\":\"lark_md\"}},{\"tag\":\"note\",\"elements\":[{\"tag\":\"plain_text\",\"content\":\"",
            );
            r.append(json_escape(rv).as_str());
            r.append("\"}]}");
        },
        None => {},
    }
    r.append(",{\"tag\":\"note\",\"elements\":[{\"tag\":\"plain_text\",\"content\":\"codex-hook\"}]}]}}");
    proof {
        assert(r@ =~= spec_card_body(
            title@,
            summary@,
            match raw {
                Some(s) => Some(s@),
                None => None,
            },
        ));
    }
    r
}

} // verus!
