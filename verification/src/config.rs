//! The channel registry: discovery, validation and materialization of
//! notification destinations from a flat key-value configuration space.
//!
//! Channel groups share a `TG_{index}` or `FS_{index}` key prefix. A group is
//! opt-in (skipped unless its `ENABLE` key holds a non-empty value other than
//! `false`), and a group missing a field its kind requires is dropped whole,
//! with a diagnostic naming the missing key.

use vstd::prelude::*;
use crate::text::{chars_of, str_eq, string_of, sub_vec};

verus! {

/// A validated notification destination.
#[derive(Clone)]
pub struct Channel {
    pub ch_type: String,
    pub name: String,
    pub token: Option<String>,
    pub chat_id: Option<String>,
    pub webhook_url: Option<String>,
}

/// The mathematical image of a channel: its fields as character sequences.
pub ghost struct ChannelV {
    pub ch_type: Seq<char>,
    pub name: Seq<char>,
    pub token: Option<Seq<char>>,
    pub chat_id: Option<Seq<char>>,
    pub webhook_url: Option<Seq<char>>,
}

pub open spec fn opt_view(o: Option<String>) -> Option<Seq<char>> {
    match o {
        Some(s) => Some(s@),
        None => None,
    }
}

impl View for Channel {
    type V = ChannelV;

    open spec fn view(&self) -> ChannelV {
        ChannelV {
            ch_type: self.ch_type@,
            name: self.name@,
            token: opt_view(self.token),
            chat_id: opt_view(self.chat_id),
            webhook_url: opt_view(self.webhook_url),
        }
    }
}

/// A key-value source, as character sequences.
pub open spec fn kv(ps: Seq<(String, String)>) -> Seq<(Seq<char>, Seq<char>)> {
    ps.map_values(|p: (String, String)| (p.0@, p.1@))
}

pub open spec fn strs_view(v: Seq<String>) -> Seq<Seq<char>> {
    v.map_values(|s: String| s@)
}

pub open spec fn chans_view(v: Seq<Channel>) -> Seq<ChannelV> {
    v.map_values(|c: Channel| c@)
}

/// The value of the first pair whose key is `k`, if any.
pub open spec fn spec_lookup(ps: Seq<(Seq<char>, Seq<char>)>, k: Seq<char>) -> Option<Seq<char>>
    decreases ps.len(),
{
    if ps.len() == 0 {
        None
    } else if ps[0].0 == k {
        Some(ps[0].1)
    } else {
        spec_lookup(ps.drop_first(), k)
    }
}

/// Look a key up in the configuration source; the first matching pair wins.
pub fn lookup(pairs: &Vec<(String, String)>, key: &str) -> (r: Option<String>)
    ensures
        opt_view(r) == spec_lookup(kv(pairs@), key@),
{
    let ghost ps = kv(pairs@);
    let mut i: usize = 0;
    proof {
        assert(ps.skip(0) =~= ps);
    }
    while i < pairs.len()
        invariant
            i <= pairs@.len(),
            ps == kv(pairs@),
            spec_lookup(ps, key@) == spec_lookup(ps.skip(i as int), key@),
        decreases pairs@.len() - i,
    {
        if str_eq(pairs[i].0.as_str(), key) {
            proof {
                assert(ps.skip(i as int)[0] == ps[i as int]);
            }
            return Some(pairs[i].1.clone());
        }
        proof {
            assert(ps.skip(i as int)[0] == ps[i as int]);
            assert(ps.skip(i as int).drop_first() =~= ps.skip(i + 1));
        }
        i = i + 1;
    }
    proof {
        assert(ps.skip(i as int) =~= Seq::<(Seq<char>, Seq<char>)>::empty());
    }
    None
}

/// An ASCII decimal digit.
pub open spec fn is_digit(c: char) -> bool {
    48 <= c as u32 && c as u32 <= 57
}

/// Index of the first underscore in `s`, or `s.len()` when there is none.
pub open spec fn first_us(s: Seq<char>) -> nat
    decreases s.len(),
{
    if s.len() == 0 {
        0
    } else if s[0] == '_' {
        0
    } else {
        1 + first_us(s.drop_first())
    }
}

/// `first_us` is the unique index with no underscore before it.
pub proof fn lemma_first_us_is(s: Seq<char>, k: int)
    requires
        0 <= k <= s.len(),
        forall|j: int| 0 <= j < k ==> s[j] != '_',
        k < s.len() ==> s[k] == '_',
    ensures
        first_us(s) == k,
    decreases s.len(),
{
    if s.len() > 0 && s[0] != '_' {
        lemma_first_us_is(s.drop_first(), k - 1);
    }
}

/// The canonical channel-group prefix derived from a configuration key:
/// the leading `TG_` or `FS_` tag together with the digit run that follows it,
/// up to the next underscore. `None` when the key belongs to no group.
pub open spec fn spec_prefix_of(k: Seq<char>) -> Option<Seq<char>> {
    if k.len() >= 3 && (k.take(3) == "TG_"@ || k.take(3) == "FS_"@) {
        let idx = k.skip(3).take(first_us(k.skip(3)) as int);
        if forall|i: int| 0 <= i < idx.len() ==> is_digit(#[trigger] idx[i]) {
            Some(k.take(3) + idx)
        } else {
            None
        }
    } else {
        None
    }
}

/// A well-formed group prefix: a `TG_` or `FS_` tag plus a digit run.
pub open spec fn wf_prefix(id: Seq<char>) -> bool {
    id.len() >= 3 && (id.take(3) == "TG_"@ || id.take(3) == "FS_"@)
}

pub proof fn lemma_prefix_wf(k: Seq<char>)
    requires
        spec_prefix_of(k) is Some,
    ensures
        wf_prefix(spec_prefix_of(k)->Some_0),
{
    let id = spec_prefix_of(k)->Some_0;
    assert(id.take(3) =~= k.take(3));
}

/// The channel-group prefix of `key`, when it has one.
pub fn prefix_of(key: &str) -> (r: Option<String>)
    ensures
        opt_view(r) == spec_prefix_of(key@),
{
    let cs = chars_of(key);
    let n = cs.len();
    if n < 3 {
        return None;
    }
    let tg = cs[0] == 'T' && cs[1] == 'G' && cs[2] == '_';
    let fs = cs[0] == 'F' && cs[1] == 'S' && cs[2] == '_';
    proof {
        reveal_strlit("TG_");
        reveal_strlit("FS_");
        if tg {
            assert(key@.take(3) =~= "TG_"@);
        }
        if fs {
            assert(key@.take(3) =~= "FS_"@);
        }
        if key@.take(3) == "TG_"@ {
            assert(key@[0] == 'T' && key@[1] == 'G' && key@[2] == '_') by {
                assert(key@.take(3)[0] == 'T');
                assert(key@.take(3)[1] == 'G');
                assert(key@.take(3)[2] == '_');
            }
        }
        if key@.take(3) == "FS_"@ {
            assert(key@[0] == 'F' && key@[1] == 'S' && key@[2] == '_') by {
                assert(key@.take(3)[0] == 'F');
                assert(key@.take(3)[1] == 'S');
                assert(key@.take(3)[2] == '_');
            }
        }
    }
    if !(tg || fs) {
        return None;
    }
    // The index run: characters after the tag, up to the next underscore.
    let mut u: usize = 3;
    while u < n && cs[u] != '_'
        invariant
            3 <= u <= n,
            n == cs@.len(),
            cs@ == key@,
            forall|k: int| 3 <= k < u ==> cs@[k] != '_',
        decreases n - u,
    {
        u = u + 1;
    }
    proof {
        let rest = key@.skip(3);
        assert(forall|j: int| 0 <= j < u - 3 ==> rest[j] == key@[3 + j] && rest[j] != '_');
        if u < n {
            assert(rest[u - 3] == '_');
        }
        lemma_first_us_is(rest, u - 3);
    }
    // Every character of the index run must be a digit.
    let mut j: usize = 3;
    while j < u
        invariant
            3 <= j <= u <= n,
            n == cs@.len(),
            cs@ == key@,
            u - 3 == first_us(key@.skip(3)),
            forall|k: int| 3 <= k < j ==> is_digit(#[trigger] cs@[k]),
        decreases u - j,
    {
        let x = cs[j] as u32;
        if !(48 <= x && x <= 57) {
            proof {
                let idx = key@.skip(3).take(first_us(key@.skip(3)) as int);
                assert(idx[j - 3] == key@[j as int]);
                assert(!is_digit(idx[j - 3]));
            }
            return None;
        }
        j = j + 1;
    }
    let idv = sub_vec(&cs, 0, u);
    let id = string_of(&idv);
    proof {
        let rest = key@.skip(3);
        let idx = rest.take(first_us(rest) as int);
        assert(forall|k: int| 0 <= k < idx.len() ==> idx[k] == key@[3 + k]);
        assert(forall|k: int| 0 <= k < idx.len() ==> is_digit(#[trigger] idx[k]));
        assert(id@ =~= key@.take(3) + idx);
    }
    Some(id)
}

/// One step of prefix discovery: add the key's prefix unless already seen.
pub open spec fn add_prefix(acc: Seq<Seq<char>>, k: Seq<char>) -> Seq<Seq<char>> {
    match spec_prefix_of(k) {
        Some(id) => if acc.contains(id) {
            acc
        } else {
            acc.push(id)
        },
        None => acc,
    }
}

/// The distinct channel-group prefixes among `ks`, in order of first sighting.
pub open spec fn spec_prefixes(ks: Seq<Seq<char>>) -> Seq<Seq<char>> {
    ks.fold_left(Seq::<Seq<char>>::empty(), |acc: Seq<Seq<char>>, k: Seq<char>| add_prefix(acc, k))
}

pub open spec fn keys_of(ps: Seq<(Seq<char>, Seq<char>)>) -> Seq<Seq<char>> {
    ps.map_values(|p: (Seq<char>, Seq<char>)| p.0)
}

/// Every discovered prefix is well-formed.
pub proof fn lemma_prefixes_wf(ks: Seq<Seq<char>>)
    ensures
        forall|j: int| 0 <= j < spec_prefixes(ks).len() ==> wf_prefix(#[trigger] spec_prefixes(ks)[j]),
    decreases ks.len(),
{
    if ks.len() > 0 {
        lemma_prefixes_wf(ks.drop_last());
        assert(spec_prefixes(ks) == add_prefix(spec_prefixes(ks.drop_last()), ks.last()));
        if spec_prefix_of(ks.last()) is Some {
            lemma_prefix_wf(ks.last());
        }
    } else {
        assert(spec_prefixes(ks) =~= Seq::<Seq<char>>::empty());
    }
}

/// Whether `v` holds a string whose characters are `s@`.
fn contains_str(v: &Vec<String>, s: &str) -> (r: bool)
    ensures
        r == strs_view(v@).contains(s@),
{
    let mut i: usize = 0;
    while i < v.len()
        invariant
            i <= v@.len(),
            forall|k: int| 0 <= k < i ==> strs_view(v@)[k] != s@,
        decreases v@.len() - i,
    {
        if str_eq(v[i].as_str(), s) {
            proof {
                assert(strs_view(v@)[i as int] == s@);
            }
            return true;
        }
        i = i + 1;
    }
    proof {
        assert(forall|k: int| 0 <= k < strs_view(v@).len() ==> strs_view(v@)[k] != s@);
    }
    false
}

/// The distinct channel-group prefixes of the configuration source,
/// in order of first sighting.
pub fn channel_prefixes(pairs: &Vec<(String, String)>) -> (r: Vec<String>)
    ensures
        strs_view(r@) == spec_prefixes(keys_of(kv(pairs@))),
{
    let ghost ks = keys_of(kv(pairs@));
    let mut ids: Vec<String> = Vec::new();
    let mut i: usize = 0;
    proof {
        assert(ks.take(0) =~= Seq::<Seq<char>>::empty());
        assert(strs_view(ids@) =~= spec_prefixes(ks.take(0)));
    }
    while i < pairs.len()
        invariant
            i <= pairs@.len(),
            ks == keys_of(kv(pairs@)),
            strs_view(ids@) == spec_prefixes(ks.take(i as int)),
        decreases pairs@.len() - i,
    {
        let ghost pre = spec_prefixes(ks.take(i as int));
        proof {
            assert(ks.take(i + 1).drop_last() =~= ks.take(i as int));
            assert(ks.take(i + 1).last() == ks[i as int]);
            assert(spec_prefixes(ks.take(i + 1)) == add_prefix(pre, ks[i as int]));
            assert(ks[i as int] == pairs@[i as int].0@);
        }
        match prefix_of(pairs[i].0.as_str()) {
            Some(id) => {
                if !contains_str(&ids, id.as_str()) {
                    ids.push(id);
                    proof {
                        assert(strs_view(ids@) =~= pre.push(ids@.last()@));
                    }
                }
            },
            None => {},
        }
        i = i + 1;
    }
    proof {
        assert(ks.take(i as int) =~= ks);
    }
    ids
}

/// A group is enabled when its `ENABLE` key holds a non-empty value other
/// than `false` (opt-in: absent means disabled).
pub open spec fn spec_enabled(ps: Seq<(Seq<char>, Seq<char>)>, id: Seq<char>) -> bool {
    match spec_lookup(ps, id + "_ENABLE"@) {
        Some(v) => v.len() > 0 && v != "false"@,
        None => false,
    }
}

/// A kind-specific field: present only when set to a non-empty value.
pub open spec fn spec_field(ps: Seq<(Seq<char>, Seq<char>)>, k: Seq<char>) -> Option<Seq<char>> {
    match spec_lookup(ps, k) {
        Some(v) => if v.len() > 0 {
            Some(v)
        } else {
            None
        },
        None => None,
    }
}

/// The kind tag of a group: chat-bot for `TG_`, webhook-card for `FS_`.
pub open spec fn spec_is_tg(id: Seq<char>) -> bool {
    id.len() > 0 && id[0] == 'T'
}

pub open spec fn spec_ch_type(id: Seq<char>) -> Seq<char> {
    if spec_is_tg(id) {
        "telegram"@
    } else {
        "feishu"@
    }
}

/// The generated display name: `{kind}-{index}`.
pub open spec fn spec_default_name(id: Seq<char>) -> Seq<char> {
    spec_ch_type(id) + "-"@ + id.skip(3)
}

/// The display name: the configured one when set and non-empty, else generated.
pub open spec fn spec_name(ps: Seq<(Seq<char>, Seq<char>)>, id: Seq<char>) -> Seq<char> {
    match spec_lookup(ps, id + "_NAME"@) {
        Some(v) => if v.len() > 0 {
            v
        } else {
            spec_default_name(id)
        },
        None => spec_default_name(id),
    }
}

/// The channel a group materializes to, before validation.
pub open spec fn spec_channel(ps: Seq<(Seq<char>, Seq<char>)>, id: Seq<char>) -> ChannelV {
    ChannelV {
        ch_type: spec_ch_type(id),
        name: spec_name(ps, id),
        token: spec_field(ps, id + "_TOKEN"@),
        chat_id: spec_field(ps, id + "_CHAT_ID"@),
        webhook_url: spec_field(ps, id + "_WEBHOOK_URL"@),
    }
}

/// The required keys a group is missing: a chat-bot group needs a token and a
/// destination id, a webhook-card group needs a webhook URL.
pub open spec fn spec_missing(ps: Seq<(Seq<char>, Seq<char>)>, id: Seq<char>) -> Seq<Seq<char>> {
    if spec_is_tg(id) {
        (if spec_field(ps, id + "_TOKEN"@) is None {
            seq![id + "_TOKEN"@]
        } else {
            Seq::<Seq<char>>::empty()
        }) + (if spec_field(ps, id + "_CHAT_ID"@) is None {
            seq![id + "_CHAT_ID"@]
        } else {
            Seq::<Seq<char>>::empty()
        })
    } else {
        if spec_field(ps, id + "_WEBHOOK_URL"@) is None {
            seq![id + "_WEBHOOK_URL"@]
        } else {
            Seq::<Seq<char>>::empty()
        }
    }
}

/// One step of discovery: a disabled group adds nothing; a valid group adds
/// its channel; an invalid one adds only its diagnostics.
pub open spec fn spec_step(
    ps: Seq<(Seq<char>, Seq<char>)>,
    acc: (Seq<ChannelV>, Seq<Seq<char>>),
    id: Seq<char>,
) -> (Seq<ChannelV>, Seq<Seq<char>>) {
    if !spec_enabled(ps, id) {
        acc
    } else if spec_missing(ps, id).len() == 0 {
        (acc.0.push(spec_channel(ps, id)), acc.1)
    } else {
        (acc.0, acc.1 + spec_missing(ps, id))
    }
}

/// The validated channels and the diagnostics (names of missing keys) that
/// discovery yields over the configuration source.
pub open spec fn spec_discover(ps: Seq<(Seq<char>, Seq<char>)>) -> (Seq<ChannelV>, Seq<Seq<char>>) {
    spec_prefixes(keys_of(ps)).fold_left(
        (Seq::<ChannelV>::empty(), Seq::<Seq<char>>::empty()),
        |acc: (Seq<ChannelV>, Seq<Seq<char>>), id: Seq<char>| spec_step(ps, acc, id),
    )
}

/// `Some(s)` when `s` is non-empty, else `None`.
pub fn non_empty(s: String) -> (r: Option<String>)
    ensures
        opt_view(r) == (if s@.len() > 0 {
            Some(s@)
        } else {
            None::<Seq<char>>
        }),
{
    if s.as_str().is_empty() {
        None
    } else {
        Some(s)
    }
}

/// Look a kind-specific field up; empty values count as absent.
fn field(pairs: &Vec<(String, String)>, key: &String) -> (r: Option<String>)
    ensures
        opt_view(r) == spec_field(kv(pairs@), key@),
{
    match lookup(pairs, key.as_str()) {
        Some(v) => non_empty(v),
        None => None,
    }
}

/// The display name of the group `id`.
fn channel_name(pairs: &Vec<(String, String)>, id: &String, is_tg: bool) -> (r: String)
    requires
        id@.len() >= 3,
        is_tg == spec_is_tg(id@),
    ensures
        r@ == spec_name(kv(pairs@), id@),
{
    let nk = id.clone().concat("_NAME");
    match lookup(pairs, nk.as_str()) {
        Some(v) => {
            if !v.as_str().is_empty() {
                return v;
            }
        },
        None => {},
    }
    let t: &str = if is_tg {
        "telegram"
    } else {
        "feishu"
    };
    let idx = id.as_str().substring_char(3, id.as_str().unicode_len());
    t.to_owned().concat("-").concat(idx)
}

/// Discover, validate and materialize the configured channels. Returns the
/// validated channels and one diagnostic (the missing key's name) for every
/// required field a group lacks; a group with a missing field is dropped whole.
pub fn discover_channels(pairs: &Vec<(String, String)>) -> (r: (Vec<Channel>, Vec<String>))
    ensures
        chans_view(r.0@) == spec_discover(kv(pairs@)).0,
        strs_view(r.1@) == spec_discover(kv(pairs@)).1,
{
    let ghost ps = kv(pairs@);
    let ghost pids = spec_prefixes(keys_of(ps));
    let ids = channel_prefixes(pairs);
    let mut chans: Vec<Channel> = Vec::new();
    let mut diags: Vec<String> = Vec::new();
    let mut i: usize = 0;
    proof {
        lemma_prefixes_wf(keys_of(ps));
        assert(pids.take(0) =~= Seq::<Seq<char>>::empty());
        assert(chans_view(chans@) =~= Seq::<ChannelV>::empty());
        assert(strs_view(diags@) =~= Seq::<Seq<char>>::empty());
    }
    while i < ids.len()
        invariant
            i <= ids@.len(),
            ps == kv(pairs@),
            pids == spec_prefixes(keys_of(ps)),
            strs_view(ids@) == pids,
            forall|j: int| 0 <= j < pids.len() ==> wf_prefix(#[trigger] pids[j]),
            (chans_view(chans@), strs_view(diags@)) == pids.take(i as int).fold_left(
                (Seq::<ChannelV>::empty(), Seq::<Seq<char>>::empty()),
                |acc: (Seq<ChannelV>, Seq<Seq<char>>), id: Seq<char>| spec_step(ps, acc, id),
            ),
        decreases ids@.len() - i,
    {
        let ghost acc = (chans_view(chans@), strs_view(diags@));
        let id = &ids[i];
        proof {
            assert(strs_view(ids@)[i as int] == id@);
            assert(wf_prefix(id@));
            assert(pids.take(i + 1).drop_last() =~= pids.take(i as int));
            assert(pids.take(i + 1).last() == id@);
        }
        let ekey = id.clone().concat("_ENABLE");
        let enabled = match lookup(pairs, ekey.as_str()) {
            Some(v) => !v.as_str().is_empty() && !str_eq(v.as_str(), "false"),
            None => false,
        };
        proof {
            assert(enabled == spec_enabled(ps, id@));
        }
        if enabled {
            let is_tg = id.as_str().get_char(0) == 'T';
            let tkey = id.clone().concat("_TOKEN");
            let ckey = id.clone().concat("_CHAT_ID");
            let wkey = id.clone().concat("_WEBHOOK_URL");
            let token = field(pairs, &tkey);
            let chat_id = field(pairs, &ckey);
            let webhook_url = field(pairs, &wkey);
            let name = channel_name(pairs, id, is_tg);
            if is_tg {
                let mut ok = true;
                if token.is_none() {
                    diags.push(id.clone().concat("_TOKEN"));
                    ok = false;
                }
                if chat_id.is_none() {
                    diags.push(id.clone().concat("_CHAT_ID"));
                    ok = false;
                }
                if ok {
                    chans.push(
                        Channel {
                            ch_type: "telegram".to_owned(),
                            name,
                            token,
                            chat_id,
                            webhook_url,
                        },
                    );
                    proof {
                        assert(spec_missing(ps, id@).len() == 0);
                        assert(chans_view(chans@) =~= acc.0.push(spec_channel(ps, id@)));
                    }
                } else {
                    proof {
                        assert(spec_missing(ps, id@).len() > 0);
                        assert(strs_view(diags@) =~= acc.1 + spec_missing(ps, id@));
                    }
                }
            } else {
                if webhook_url.is_none() {
                    diags.push(id.clone().concat("_WEBHOOK_URL"));
                    proof {
                        assert(spec_missing(ps, id@).len() > 0);
                        assert(strs_view(diags@) =~= acc.1 + spec_missing(ps, id@));
                    }
                } else {
                    chans.push(
                        Channel {
                            ch_type: "feishu".to_owned(),
                            name,
                            token,
                            chat_id,
                            webhook_url,
                        },
                    );
                    proof {
                        assert(spec_missing(ps, id@).len() == 0);
                        assert(chans_view(chans@) =~= acc.0.push(spec_channel(ps, id@)));
                    }
                }
            }
        }
        proof {
            assert(pids.take(i + 1).fold_left(
                (Seq::<ChannelV>::empty(), Seq::<Seq<char>>::empty()),
                |a: (Seq<ChannelV>, Seq<Seq<char>>), id2: Seq<char>| spec_step(ps, a, id2),
            ) == spec_step(ps, acc, id@));
        }
        i = i + 1;
    }
    proof {
        assert(pids.take(i as int) =~= pids);
    }
    (chans, diags)
}

/// All characters of `s` are ASCII decimal digits.
pub open spec fn all_digits(s: Seq<char>) -> bool {
    forall|i: int| 0 <= i < s.len() ==> is_digit(#[trigger] s[i])
}

/// The number a digit string denotes.
pub open spec fn spec_num(s: Seq<char>) -> int
    decreases s.len(),
{
    if s.len() == 0 {
        0
    } else {
        spec_num(s.drop_last()) * 10 + ((s.last() as u32) as int - 48)
    }
}

/// What parsing an unsigned decimal yields: the denoted number, when the
/// string is a non-empty digit run whose value fits.
pub open spec fn spec_parse_usize(s: Seq<char>) -> Option<int> {
    if s.len() > 0 && all_digits(s) && spec_num(s) <= usize::MAX {
        Some(spec_num(s))
    } else {
        None
    }
}

pub proof fn lemma_num_nonneg(s: Seq<char>)
    requires
        all_digits(s),
    ensures
        spec_num(s) >= 0,
    decreases s.len(),
{
    if s.len() > 0 {
        assert(all_digits(s.drop_last()));
        lemma_num_nonneg(s.drop_last());
    }
}

pub proof fn lemma_num_prefix_le(s: Seq<char>, i: int)
    requires
        0 <= i <= s.len(),
        all_digits(s),
    ensures
        spec_num(s.take(i)) <= spec_num(s),
    decreases s.len() - i,
{
    if i < s.len() {
        lemma_num_prefix_le(s, i + 1);
        assert(s.take(i + 1).drop_last() =~= s.take(i));
        assert(all_digits(s.take(i)));
        lemma_num_nonneg(s.take(i));
    } else {
        assert(s.take(i) =~= s);
    }
}

/// Parse an unsigned decimal; `None` on an empty string, a non-digit, or overflow.
pub fn parse_usize(s: &str) -> (r: Option<usize>)
    ensures
        match r {
            Some(v) => spec_parse_usize(s@) == Some(v as int),
            None => spec_parse_usize(s@) is None,
        },
{
    let cs = chars_of(s);
    let n = cs.len();
    if n == 0 {
        return None;
    }
    let mut v: usize = 0;
    let mut i: usize = 0;
    proof {
        assert(s@.take(0) =~= Seq::<char>::empty());
    }
    while i < n
        invariant
            i <= n,
            n == s@.len(),
            cs@ == s@,
            forall|k: int| 0 <= k < i ==> is_digit(#[trigger] s@[k]),
            v == spec_num(s@.take(i as int)),
        decreases n - i,
    {
        let x = cs[i] as u32;
        if !(48 <= x && x <= 57) {
            return None;
        }
        let d = (x - 48) as usize;
        if v > (usize::MAX - d) / 10 {
            proof {
                assert(s@.take(i + 1).drop_last() =~= s@.take(i as int));
                assert(spec_num(s@.take(i + 1)) == v * 10 + d);
                assert(v * 10 + d > usize::MAX) by (nonlinear_arith)
                    requires
                        v > (usize::MAX - d) / 10,
                        d <= 9,
                ;
                if all_digits(s@) {
                    lemma_num_prefix_le(s@, i + 1);
                }
            }
            return None;
        }
        proof {
            assert(v * 10 + d <= usize::MAX) by (nonlinear_arith)
                requires
                    v <= (usize::MAX - d) / 10,
                    d <= 9,
            ;
            assert(s@.take(i + 1).drop_last() =~= s@.take(i as int));
        }
        v = v * 10 + d;
        i = i + 1;
    }
    proof {
        assert(s@.take(i as int) =~= s@);
    }
    Some(v)
}

/// The global configuration, with the discovered channels.
#[derive(Clone)]
pub struct Config {
    pub debug: bool,
    pub proxy: String,
    pub ai_enable: bool,
    pub ai_api_key: String,
    pub ai_base_url: String,
    pub ai_model: String,
    pub ai_max_words: usize,
    pub ai_system_prompt: String,
    pub ai_user_prompt: String,
    pub win_notify_enable: bool,
    pub voice_enable: bool,
    pub voice_stop: String,
    pub channels: Vec<Channel>,
}

/// A flag that is off unless its key holds exactly `true`.
pub open spec fn spec_flag_default_false(ps: Seq<(Seq<char>, Seq<char>)>, k: Seq<char>) -> bool {
    match spec_lookup(ps, k) {
        Some(v) => v == "true"@,
        None => false,
    }
}

/// A flag that is on unless its key holds exactly `false`.
pub open spec fn spec_flag_default_true(ps: Seq<(Seq<char>, Seq<char>)>, k: Seq<char>) -> bool {
    match spec_lookup(ps, k) {
        Some(v) => v != "false"@,
        None => true,
    }
}

/// The key's value, or the given default when the key is absent.
pub open spec fn spec_str_or(ps: Seq<(Seq<char>, Seq<char>)>, k: Seq<char>, d: Seq<char>) -> Seq<
    char,
> {
    match spec_lookup(ps, k) {
        Some(v) => v,
        None => d,
    }
}

/// The proxy: `HTTPS_PROXY`, else `HTTP_PROXY`, else empty.
pub open spec fn spec_proxy(ps: Seq<(Seq<char>, Seq<char>)>) -> Seq<char> {
    match spec_lookup(ps, "HTTPS_PROXY"@) {
        Some(v) => v,
        None => match spec_lookup(ps, "HTTP_PROXY"@) {
            Some(v) => v,
            None => Seq::<char>::empty(),
        },
    }
}

/// The summary word budget: the parsed `AI_MAX_WORDS` value, with 500 for an
/// absent or unparseable one.
pub open spec fn spec_max_words(ps: Seq<(Seq<char>, Seq<char>)>) -> int {
    match spec_lookup(ps, "AI_MAX_WORDS"@) {
        Some(v) => match spec_parse_usize(v) {
            Some(n) => n,
            None => 500,
        },
        None => 500,
    }
}

fn flag_default_false(pairs: &Vec<(String, String)>, key: &str) -> (r: bool)
    ensures
        r == spec_flag_default_false(kv(pairs@), key@),
{
    match lookup(pairs, key) {
        Some(v) => str_eq(v.as_str(), "true"),
        None => false,
    }
}

fn flag_default_true(pairs: &Vec<(String, String)>, key: &str) -> (r: bool)
    ensures
        r == spec_flag_default_true(kv(pairs@), key@),
{
    match lookup(pairs, key) {
        Some(v) => !str_eq(v.as_str(), "false"),
        None => true,
    }
}

fn str_or(pairs: &Vec<(String, String)>, key: &str, default: &str) -> (r: String)
    ensures
        r@ == spec_str_or(kv(pairs@), key@, default@),
{
    match lookup(pairs, key) {
        Some(v) => v,
        None => default.to_owned(),
    }
}

impl Config {
    /// Build the configuration from the key-value source: every global setting
    /// with its default, plus the discovered channels. Also returns discovery's
    /// diagnostics. Cannot fail: absent keys fall back to defaults.
    pub fn from_pairs(pairs: &Vec<(String, String)>) -> (r: (Config, Vec<String>))
        ensures
            r.0.debug == spec_flag_default_false(kv(pairs@), "DEBUG"@),
            r.0.proxy@ == spec_proxy(kv(pairs@)),
            r.0.ai_enable == spec_flag_default_true(kv(pairs@), "AI_ENABLE"@),
            r.0.ai_api_key@ == spec_str_or(kv(pairs@), "AI_API_KEY"@, Seq::<char>::empty()),
            r.0.ai_base_url@ == spec_str_or(
                kv(pairs@),
                "AI_BASE_URL"@,
                "https://api.deepseek.com"@,
            ),
            r.0.ai_model@ == spec_str_or(kv(pairs@), "AI_MODEL"@, "deepseek-chat"@),
            r.0.ai_max_words as int == spec_max_words(kv(pairs@)),
            r.0.ai_system_prompt@ == spec_str_or(kv(pairs@), "AI_SYSTEM_PROMPT"@, default_system_prompt_view()),
            r.0.ai_user_prompt@ == spec_str_or(kv(pairs@), "AI_USER_PROMPT"@, default_user_prompt_view()),
            r.0.win_notify_enable == spec_flag_default_true(kv(pairs@), "WIN_NOTIFY_ENABLE"@),
            r.0.voice_enable == spec_flag_default_true(kv(pairs@), "VOICE_ENABLE"@),
            r.0.voice_stop@ == spec_str_or(kv(pairs@), "VOICE_STOP"@, "Codex\u{4EFB}\u{52A1}\u{5B8C}\u{6210}"@),
            chans_view(r.0.channels@) == spec_discover(kv(pairs@)).0,
            strs_view(r.1@) == spec_discover(kv(pairs@)).1,
    {
        let (channels, diags) = discover_channels(pairs);
        let max_words: usize = match lookup(pairs, "AI_MAX_WORDS") {
            Some(v) => match parse_usize(v.as_str()) {
                Some(n) => n,
                None => 500,
            },
            None => 500,
        };
        let proxy = match lookup(pairs, "HTTPS_PROXY") {
            Some(v) => v,
            None => match lookup(pairs, "HTTP_PROXY") {
                Some(v) => v,
                None => String::new(),
            },
        };
        let cfg = Config {
            debug: flag_default_false(pairs, "DEBUG"),
            proxy,
            ai_enable: flag_default_true(pairs, "AI_ENABLE"),
            ai_api_key: str_or(pairs, "AI_API_KEY", ""),
            ai_base_url: str_or(pairs, "AI_BASE_URL", "https://api.deepseek.com"),
            ai_model: str_or(pairs, "AI_MODEL", "deepseek-chat"),
            ai_max_words: max_words,
            ai_system_prompt: str_or(pairs, "AI_SYSTEM_PROMPT", default_system_prompt()),
            ai_user_prompt: str_or(pairs, "AI_USER_PROMPT", default_user_prompt()),
            win_notify_enable: flag_default_true(pairs, "WIN_NOTIFY_ENABLE"),
            voice_enable: flag_default_true(pairs, "VOICE_ENABLE"),
            voice_stop: str_or(pairs, "VOICE_STOP", "Codex\u{4EFB}\u{52A1}\u{5B8C}\u{6210}"),
            channels,
        };
        proof {
            assert(""@ =~= Seq::<char>::empty()) by {
                reveal_strlit("");
            }
        }
        (cfg, diags)
    }
}

/// The built-in system instruction handed to the remote summarizer.
pub fn default_system_prompt() -> (r: &'static str)
    ensures
        r@ == default_system_prompt_view(),
{
    "\u{4F60}\u{662F}\u{6458}\u{8981}\u{52A9}\u{624B}\u{3002}\u{8981}\u{6C42}\u{FF1A}\n1. \u{8F93}\u{51FA}\u{7B80}\u{6D01}\u{4E2D}\u{6587}\u{6458}\u{8981}\u{FF0C}\u{4EE5}\u{6D53}\u{7F29}\u{6613}\u{61C2}\u{4E3A}\u{9996}\u{8981}\u{76EE}\u{6807}\u{FF0C}\u{4E0D}\u{5FC5}\u{5199}\u{6EE1}\u{5B57}\u{6570}\u{4E0A}\u{9650}\n2. \u{4F7F}\u{7528}\u{7EAF}\u{6587}\u{672C}\u{FF0C}\u{7981}\u{6B62}\u{4F7F}\u{7528} Markdown \u{683C}\u{5F0F}\u{FF08}\u{4E0D}\u{8981}\u{7528} # ** `` \u{7B49}\u{6807}\u{8BB0}\u{FF09}\n3. \u{5982}\u{6709}\u{591A}\u{4E2A}\u{8981}\u{70B9}\u{7528}\u{5E8F}\u{53F7}\u{5217}\u{51FA}\u{FF0C}\u{6BCF}\u{4E2A}\u{5E8F}\u{53F7}\u{72EC}\u{5360}\u{4E00}\u{884C}\n4. \u{4E0D}\u{52A0}\u{4EFB}\u{4F55}\u{524D}\u{7F00}\u{FF08}\u{5982}\"\u{6458}\u{8981}\u{FF1A}\"\u{FF09}\u{548C}\u{540E}\u{7F00}"
}

pub open spec fn default_system_prompt_view() -> Seq<char> {
    "\u{4F60}\u{662F}\u{6458}\u{8981}\u{52A9}\u{624B}\u{3002}\u{8981}\u{6C42}\u{FF1A}\n1. \u{8F93}\u{51FA}\u{7B80}\u{6D01}\u{4E2D}\u{6587}\u{6458}\u{8981}\u{FF0C}\u{4EE5}\u{6D53}\u{7F29}\u{6613}\u{61C2}\u{4E3A}\u{9996}\u{8981}\u{76EE}\u{6807}\u{FF0C}\u{4E0D}\u{5FC5}\u{5199}\u{6EE1}\u{5B57}\u{6570}\u{4E0A}\u{9650}\n2. \u{4F7F}\u{7528}\u{7EAF}\u{6587}\u{672C}\u{FF0C}\u{7981}\u{6B62}\u{4F7F}\u{7528} Markdown \u{683C}\u{5F0F}\u{FF08}\u{4E0D}\u{8981}\u{7528} # ** `` \u{7B49}\u{6807}\u{8BB0}\u{FF09}\n3. \u{5982}\u{6709}\u{591A}\u{4E2A}\u{8981}\u{70B9}\u{7528}\u{5E8F}\u{53F7}\u{5217}\u{51FA}\u{FF0C}\u{6BCF}\u{4E2A}\u{5E8F}\u{53F7}\u{72EC}\u{5360}\u{4E00}\u{884C}\n4. \u{4E0D}\u{52A0}\u{4EFB}\u{4F55}\u{524D}\u{7F00}\u{FF08}\u{5982}\"\u{6458}\u{8981}\u{FF1A}\"\u{FF09}\u{548C}\u{540E}\u{7F00}"@
}

/// The built-in user instruction template, with `{max_words}` and `{content}` slots.
pub fn default_user_prompt() -> (r: &'static str)
    ensures
        r@ == default_user_prompt_view(),
{
    "\u{7528}\u{4E2D}\u{6587}\u{603B}\u{7ED3}\u{4EE5}\u{4E0B}\u{5185}\u{5BB9}\u{FF0C}\u{4E0D}\u{8D85}\u{8FC7}{max_words}\u{5B57}\u{FF0C}\u{7A81}\u{51FA}\u{5173}\u{952E}\u{64CD}\u{4F5C}\u{548C}\u{7ED3}\u{679C}\u{FF1A}\n\n{content}"
}

pub open spec fn default_user_prompt_view() -> Seq<char> {
    "\u{7528}\u{4E2D}\u{6587}\u{603B}\u{7ED3}\u{4EE5}\u{4E0B}\u{5185}\u{5BB9}\u{FF0C}\u{4E0D}\u{8D85}\u{8FC7}{max_words}\u{5B57}\u{FF0C}\u{7A81}\u{51FA}\u{5173}\u{952E}\u{64CD}\u{4F5C}\u{548C}\u{7ED3}\u{679C}\u{FF1A}\n\n{content}"@
}

} // verus!
