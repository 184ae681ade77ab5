//! The dispatch plan: one independent delivery unit per configured channel,
//! plus the local-desktop unit when enabled. Each unit carries an immutable
//! snapshot of everything its sender needs, so the units can run concurrently
//! with no shared state; a failing unit can never affect a sibling.

use vstd::prelude::*;
use crate::config::{Channel, ChannelV, Config, opt_view};
use crate::channels::{chat_text, spec_chat_text, spec_take500};
use crate::json::{bot_body, spec_bot_body};
use crate::text::{chars_of, spec_digit_char, str_eq, string_of, take_chars};

verus! {

/// One unit of delivery work, with its own copies of everything it needs.
pub enum Delivery {
    /// The local desktop path: a visible notification, plus an optional spoken
    /// announcement.
    Desktop { title: String, body: String, speak: Option<String> },
    /// A chat-bot send: the endpoint URL (credential included) and the ready
    /// JSON payload.
    ChatBot { name: String, url: String, body: String },
    /// A webhook-card send: the endpoint and the ready JSON card.
    WebhookCard { name: String, url: String, body: String },
    /// A channel that cannot be delivered to; `cause` is logged as its outcome.
    Invalid { name: String, cause: String },
    /// A channel of an unknown kind: silently no work (defensive; discovery
    /// validates kinds).
    Skip { name: String },
}

/// The mathematical image of a delivery unit.
pub ghost enum DeliveryV {
    Desktop { title: Seq<char>, body: Seq<char>, speak: Option<Seq<char>> },
    ChatBot { name: Seq<char>, url: Seq<char>, body: Seq<char> },
    WebhookCard { name: Seq<char>, url: Seq<char>, body: Seq<char> },
    Invalid { name: Seq<char>, cause: Seq<char> },
    Skip { name: Seq<char> },
}

impl View for Delivery {
    type V = DeliveryV;

    open spec fn view(&self) -> DeliveryV {
        match self {
            Delivery::Desktop { title, body, speak } => DeliveryV::Desktop {
                title: title@,
                body: body@,
                speak: opt_view(*speak),
            },
            Delivery::ChatBot { name, url, body } => DeliveryV::ChatBot {
                name: name@,
                url: url@,
                body: body@,
            },
            Delivery::WebhookCard { name, url, body } => DeliveryV::WebhookCard {
                name: name@,
                url: url@,
                body: body@,
            },
            Delivery::Invalid { name, cause } => DeliveryV::Invalid {
                name: name@,
                cause: cause@,
            },
            Delivery::Skip { name } => DeliveryV::Skip { name: name@ },
        }
    }
}

pub open spec fn deliveries_view(v: Seq<Delivery>) -> Seq<DeliveryV> {
    v.map_values(|d: Delivery| d@)
}

/// The chat-bot send endpoint for a bot credential.
pub open spec fn spec_bot_url(token: Seq<char>) -> Seq<char> {
    "https://api.telegram.org/bot"@ + token + "/sendMessage"@
}

fn bot_url(token: &str) -> (r: String)
    ensures
        r@ == spec_bot_url(token@),
{
    let mut r = "https://api.telegram.org/bot".to_owned();
    r.append(token);
    r.append("/sendMessage");
    proof {
        assert(r@ =~= spec_bot_url(token@));
    }
    r
}

/// The delivery unit one channel gives rise to. A chat-bot channel needs its
/// token and destination id, a webhook-card channel its URL; a channel missing
/// them becomes an `Invalid` unit (logged, never sent), and a channel of an
/// unknown kind a silent `Skip`.
pub open spec fn spec_delivery_for(
    ch: ChannelV,
    title: Seq<char>,
    summary: Seq<char>,
    raw: Option<Seq<char>>,
) -> DeliveryV {
    if ch.ch_type == "telegram"@ {
        match (ch.token, ch.chat_id) {
            (Some(token), Some(chat_id)) => DeliveryV::ChatBot {
                name: ch.name,
                url: spec_bot_url(token),
                body: spec_bot_body(chat_id, spec_chat_text(title, summary, raw, None)),
            },
            (None, _) => DeliveryV::Invalid { name: ch.name, cause: "missing token"@ },
            (Some(_), None) => DeliveryV::Invalid { name: ch.name, cause: "missing chat_id"@ },
        }
    } else if ch.ch_type == "feishu"@ {
        match ch.webhook_url {
            Some(url) => DeliveryV::WebhookCard {
                name: ch.name,
                url,
                body: crate::json::spec_card_body(
                    title,
                    summary,
                    match raw {
                        Some(r) => Some(spec_take500(r)),
                        None => None,
                    },
                ),
            },
            None => DeliveryV::Invalid { name: ch.name, cause: "missing webhook_url"@ },
        }
    } else {
        DeliveryV::Skip { name: ch.name }
    }
}

/// The desktop unit: the bounded notification body and, when the voice path is
/// on and has something to say, the spoken announcement.
pub open spec fn spec_desktop_unit(
    title: Seq<char>,
    summary: Seq<char>,
    voice_enable: bool,
    voice_stop: Seq<char>,
) -> DeliveryV {
    DeliveryV::Desktop {
        title,
        body: crate::channels::spec_notify_body(summary),
        speak: if voice_enable && voice_stop.len() > 0 {
            Some(voice_stop)
        } else {
            None
        },
    }
}

/// The whole dispatch plan for one notification: the desktop unit exactly when
/// desktop delivery is enabled, then one unit per configured channel, in the
/// registry's order.
pub open spec fn spec_plan(
    cfg_win_notify: bool,
    cfg_voice_enable: bool,
    cfg_voice_stop: Seq<char>,
    chans: Seq<ChannelV>,
    title: Seq<char>,
    summary: Seq<char>,
    raw: Option<Seq<char>>,
) -> Seq<DeliveryV> {
    let desk = if cfg_win_notify {
        seq![spec_desktop_unit(title, summary, cfg_voice_enable, cfg_voice_stop)]
    } else {
        Seq::<DeliveryV>::empty()
    };
    desk + chans.map_values(|ch: ChannelV| spec_delivery_for(ch, title, summary, raw))
}

/// Lay out the dispatch plan: every unit carries its own copies of the texts
/// and credentials it needs, so the units are mutually independent.
pub fn plan_dispatch(cfg: &Config, title: &str, summary: &str, raw: Option<&str>) -> (r: Vec<
    Delivery,
>)
    ensures
        deliveries_view(r@) == spec_plan(
            cfg.win_notify_enable,
            cfg.voice_enable,
            cfg.voice_stop@,
            crate::config::chans_view(cfg.channels@),
            title@,
            summary@,
            match raw {
                Some(s) => Some(s@),
                None => None,
            },
        ),
{
    let ghost rawv: Option<Seq<char>> = match raw {
        Some(s) => Some(s@),
        None => None,
    };
    let ghost chans = crate::config::chans_view(cfg.channels@);
    let ghost desk = if cfg.win_notify_enable {
        seq![spec_desktop_unit(title@, summary@, cfg.voice_enable, cfg.voice_stop@)]
    } else {
        Seq::<DeliveryV>::empty()
    };
    let mut out: Vec<Delivery> = Vec::new();
    if cfg.win_notify_enable {
        let speak: Option<String> = if cfg.voice_enable && !cfg.voice_stop.as_str().is_empty() {
            Some(cfg.voice_stop.clone())
        } else {
            None
        };
        out.push(
            Delivery::Desktop {
                title: title.to_owned(),
                body: crate::channels::notify_body(summary),
                speak,
            },
        );
    }
    proof {
        assert(deliveries_view(out@) =~= desk + chans.map_values(
            |ch: ChannelV| spec_delivery_for(ch, title@, summary@, rawv),
        ).take(0));
    }
    let mut i: usize = 0;
    while i < cfg.channels.len()
        invariant
            i <= cfg.channels@.len(),
            chans == crate::config::chans_view(cfg.channels@),
            desk == (if cfg.win_notify_enable {
                seq![
                    spec_desktop_unit(title@, summary@, cfg.voice_enable, cfg.voice_stop@),
                ]
            } else {
                Seq::<DeliveryV>::empty()
            }),
            rawv == (match raw {
                Some(s) => Some(s@),
                None => None,
            }),
            deliveries_view(out@) == desk + chans.map_values(
                |ch: ChannelV| spec_delivery_for(ch, title@, summary@, rawv),
            ).take(i as int),
        decreases cfg.channels@.len() - i,
    {
        let ghost pre = deliveries_view(out@);
        let ch = &cfg.channels[i];
        proof {
            assert(chans[i as int] == ch@);
        }
        if str_eq(ch.ch_type.as_str(), "telegram") {
            match (&ch.token, &ch.chat_id) {
                (Some(token), Some(chat_id)) => {
                    let text = chat_text(title, summary, raw, None);
                    out.push(
                        Delivery::ChatBot {
                            name: ch.name.clone(),
                            url: bot_url(token.as_str()),
                            body: bot_body(chat_id.as_str(), text.as_str()),
                        },
                    );
                },
                (None, _) => {
                    out.push(
                        Delivery::Invalid {
                            name: ch.name.clone(),
                            cause: "missing token".to_owned(),
                        },
                    );
                },
                (Some(_), None) => {
                    out.push(
                        Delivery::Invalid {
                            name: ch.name.clone(),
                            cause: "missing chat_id".to_owned(),
                        },
                    );
                },
            }
        } else if str_eq(ch.ch_type.as_str(), "feishu") {
            match &ch.webhook_url {
                Some(url) => {
                    let cut_raw: Option<String> = match raw {
                        Some(rv) => {
                            let rc = chars_of(rv);
                            let cut = take_chars(&rc, 500);
                            Some(string_of(&cut))
                        },
                        None => None,
                    };
                    let card = match &cut_raw {
                        Some(c) => crate::json::card_body(title, summary, Some(c.as_str())),
                        None => crate::json::card_body(title, summary, None),
                    };
                    out.push(
                        Delivery::WebhookCard {
                            name: ch.name.clone(),
                            url: url.clone(),
                            body: card,
                        },
                    );
                },
                None => {
                    out.push(
                        Delivery::Invalid {
                            name: ch.name.clone(),
                            cause: "missing webhook_url".to_owned(),
                        },
                    );
                },
            }
        } else {
            out.push(Delivery::Skip { name: ch.name.clone() });
        }
        proof {
            let f = |ch2: ChannelV| spec_delivery_for(ch2, title@, summary@, rawv);
            assert(out@.last()@ == spec_delivery_for(ch@, title@, summary@, rawv));
            assert(chans.map_values(f).take(i + 1) =~= chans.map_values(f).take(i as int).push(
                f(chans[i as int]),
            ));
            assert(deliveries_view(out@) =~= pre.push(out@.last()@));
        }
        i = i + 1;
    }
    proof {
        let f = |ch2: ChannelV| spec_delivery_for(ch2, title@, summary@, rawv);
        assert(chans.map_values(f).take(i as int) =~= chans.map_values(f));
    }
    out
}

/// The per-channel result of one delivery attempt; outcomes are independent
/// and serve logging alone.
pub struct DispatchOutcome {
    pub channel: String,
    pub ok: bool,
    pub cause: Option<String>,
}

/// Relies on std::time::SystemTime::now (with duration_since(UNIX_EPOCH) to
/// convert): seconds since the Unix epoch, zero when the clock reads earlier.
#[verifier::external_body]
fn unix_now_secs() -> u64 {
    std::time::SystemTime::now().duration_since(std::time::UNIX_EPOCH).unwrap_or_default().as_secs()
}

/// A wall-clock reading rendered as `HH:MM`.
pub open spec fn spec_hhmm(total: int) -> Seq<char> {
    let h = (total % 86400) / 3600;
    let m = (total % 3600) / 60;
    seq![
        spec_digit_char(h / 10),
        spec_digit_char(h % 10),
        ':',
        spec_digit_char(m / 10),
        spec_digit_char(m % 10),
    ]
}

/// Render a second count as the time of day it falls on, `HH:MM`.
pub fn format_hhmm(total: u64) -> (r: String)
    ensures
        r@ == spec_hhmm(total as int),
{
    let h = (total % 86400) / 3600;
    let m = (total % 3600) / 60;
    let mut s = String::new();
    crate::text::push_char(&mut s, crate::text::digit_char((h / 10) as usize));
    crate::text::push_char(&mut s, crate::text::digit_char((h % 10) as usize));
    crate::text::push_char(&mut s, ':');
    crate::text::push_char(&mut s, crate::text::digit_char((m / 10) as usize));
    crate::text::push_char(&mut s, crate::text::digit_char((m % 10) as usize));
    proof {
        assert(s@ =~= spec_hhmm(total as int));
    }
    s
}

/// The current time of day as `HH:MM`, shifted to UTC+8 as the notification
/// title displays it.
pub fn now_time_str() -> (r: String)
    ensures
        r@.len() == 5,
        r@[2] == ':',
{
    let t = unix_now_secs();
    let shifted = (t % 86400) + 8 * 3600;
    format_hhmm(shifted)
}

} // verus!
