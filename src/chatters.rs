use vstd::prelude::*;

use rand::Rng;

use crate::identity::{seen_as, IdentityIndex};
use crate::matcher::same_text;
use crate::user::{
    clone_opt_string, opt_str_view, opt_string_view, Channel, OwnedUser, Sender, UserArgument,
};

verus! {

/// The 128-bit value of a UUID written as text, or `None` when the text is not one.
pub uninterp spec fn uuid_value(s: Seq<char>) -> Option<u128>;

/// Relies on `uuid::Uuid::try_parse` (with `Uuid::as_u128`): the value of the text when it is
/// a UUID in one of its accepted forms, else `None`; the result depends on the text alone.
#[verifier::external_body]
fn parse_uuid(s: &str) -> (r: Option<u128>)
    ensures
        r == uuid_value(s@),
{
    uuid::Uuid::try_parse(s).ok().map(|u| u.as_u128())
}

/// Relies on `rand::Rng::gen_range` on the thread's generator: some position below `n`.
#[verifier::external_body]
fn random_below(n: usize) -> (r: usize)
    requires
        n > 0,
    ensures
        r < n,
{
    rand::thread_rng().gen_range(0..n)
}

pub ghost enum MessageIdView {
    Text(Seq<char>),
    Uuid(u128),
}

/// A message id as the chat service sends it: a UUID when it reads as one, else the text.
#[derive(Debug, Clone, PartialEq, Eq)]
pub enum MessageId {
    Text(String),
    Uuid(u128),
}

impl View for MessageId {
    type V = MessageIdView;

    open spec fn view(&self) -> MessageIdView {
        match self {
            MessageId::Text(s) => MessageIdView::Text(s@),
            MessageId::Uuid(v) => MessageIdView::Uuid(*v),
        }
    }
}

/// The id that the text `s` stands for, given what reading it as a UUID gave.
pub open spec fn message_id_from(s: Seq<char>, parsed: Option<u128>) -> MessageIdView {
    match parsed {
        Some(v) => MessageIdView::Uuid(v),
        None => MessageIdView::Text(s),
    }
}

pub open spec fn message_id_of(s: Seq<char>) -> MessageIdView {
    message_id_from(s, uuid_value(s))
}

impl MessageId {
    /// The id for `s`, where `parsed` is what reading `s` as a UUID gave.
    pub fn from_parsed(s: &str, parsed: Option<u128>) -> (r: Self)
        ensures
            r@ == message_id_from(s@, parsed),
    {
        match parsed {
            Some(v) => MessageId::Uuid(v),
            None => MessageId::Text(s.to_owned()),
        }
    }

    pub fn from_text(s: &str) -> (r: Self)
        ensures
            r@ == message_id_of(s@),
    {
        let parsed = parse_uuid(s);
        Self::from_parsed(s, parsed)
    }

    pub fn same_as(&self, other: &MessageId) -> (r: bool)
        ensures
            r == (self@ == other@),
    {
        match (self, other) {
            (MessageId::Text(a), MessageId::Text(b)) => same_text(a.as_str(), b.as_str()),
            (MessageId::Uuid(a), MessageId::Uuid(b)) => *a == *b,
            _ => false,
        }
    }

    fn duplicate(&self) -> (r: Self)
        ensures
            r@ == self@,
    {
        match self {
            MessageId::Text(s) => MessageId::Text(s.clone()),
            MessageId::Uuid(v) => MessageId::Uuid(*v),
        }
    }
}

pub ghost struct EntryView {
    pub user_id: Seq<char>,
    pub username: Seq<char>,
    pub display_name: Option<Seq<char>>,
    pub last_chatted: u64,
    pub last_message: Seq<char>,
    pub last_message_id: MessageIdView,
}

/// The last message of one user in one channel.
pub struct ChatterEntry {
    user_id: String,
    username: String,
    display_name: Option<String>,
    last_chatted: u64,
    last_message: String,
    last_message_id: MessageId,
}

impl View for ChatterEntry {
    type V = EntryView;

    closed spec fn view(&self) -> EntryView {
        EntryView {
            user_id: self.user_id@,
            username: self.username@,
            display_name: opt_string_view(self.display_name),
            last_chatted: self.last_chatted,
            last_message: self.last_message@,
            last_message_id: self.last_message_id@,
        }
    }
}

pub ghost struct PresenceView {
    pub channel_id: Seq<char>,
    pub name: Seq<char>,
    pub entries: Seq<EntryView>,
}

/// The users that chatted in one channel.
pub struct ChannelPresence {
    channel_id: String,
    name: String,
    entries: Vec<ChatterEntry>,
}

impl View for ChannelPresence {
    type V = PresenceView;

    closed spec fn view(&self) -> PresenceView {
        PresenceView {
            channel_id: self.channel_id@,
            name: self.name@,
            entries: self.entries@.map_values(|e: ChatterEntry| e@),
        }
    }
}

pub open spec fn entry_index(es: Seq<EntryView>, uid: Seq<char>) -> Option<int> {
    if exists|i: int| 0 <= i < es.len() && (#[trigger] es[i]).user_id == uid {
        Some(choose|i: int| 0 <= i < es.len() && (#[trigger] es[i]).user_id == uid)
    } else {
        None
    }
}

pub open spec fn presence_index(ps: Seq<PresenceView>, cid: Seq<char>) -> Option<int> {
    if exists|i: int| 0 <= i < ps.len() && (#[trigger] ps[i]).channel_id == cid {
        Some(choose|i: int| 0 <= i < ps.len() && (#[trigger] ps[i]).channel_id == cid)
    } else {
        None
    }
}

/// The id of the first channel known under `name`, from position `i` on.
pub open spec fn channel_named_from(ps: Seq<PresenceView>, name: Seq<char>, i: int) -> Option<
    Seq<char>,
>
    decreases ps.len() - i,
{
    if i < 0 || i >= ps.len() {
        None
    } else if ps[i].name == name {
        Some(ps[i].channel_id)
    } else {
        channel_named_from(ps, name, i + 1)
    }
}

pub open spec fn unique_entries(es: Seq<EntryView>) -> bool {
    forall|i: int, j: int| 0 <= i < j < es.len() ==> es[i].user_id != es[j].user_id
}

pub open spec fn unique_channels(ps: Seq<PresenceView>) -> bool {
    &&& forall|i: int, j: int| 0 <= i < j < ps.len() ==> ps[i].channel_id != ps[j].channel_id
    &&& forall|i: int| 0 <= i < ps.len() ==> unique_entries(#[trigger] ps[i].entries)
}

/// An entry stays unless it matches a given user id, message id or login name.
pub open spec fn keeps(
    e: EntryView,
    uid: Option<Seq<char>>,
    mid: Option<MessageIdView>,
    login: Option<Seq<char>>,
) -> bool {
    &&& (uid is None || uid != Some(e.user_id))
    &&& (mid is None || mid != Some(e.last_message_id))
    &&& (login is None || login != Some(e.username))
}

pub open spec fn kept(
    es: Seq<EntryView>,
    uid: Option<Seq<char>>,
    mid: Option<MessageIdView>,
    login: Option<Seq<char>>,
) -> Seq<EntryView> {
    es.filter(|e: EntryView| keeps(e, uid, mid, login))
}

/// The entry as `notice_chatter` writes it.
pub open spec fn new_entry(
    uid: Seq<char>,
    sender: crate::user::UserView,
    data: Seq<char>,
    mid: MessageIdView,
    now: u64,
) -> EntryView {
    EntryView {
        user_id: uid,
        username: sender.username,
        display_name: sender.display_name,
        last_chatted: now,
        last_message: data,
        last_message_id: mid,
    }
}

pub open spec fn upsert(es: Seq<EntryView>, e: EntryView) -> Seq<EntryView> {
    match entry_index(es, e.user_id) {
        Some(i) => es.update(i, e),
        None => es.push(e),
    }
}

/// Active within the window: less than `window` has passed since the last message.
pub open spec fn recent(e: EntryView, window: u64, now: u64) -> bool {
    now < e.last_chatted + window
}

pub open spec fn shown_name(e: EntryView, display_name: bool) -> Seq<char> {
    if display_name && e.display_name is Some {
        e.display_name->0
    } else {
        e.username
    }
}

/// The names of the recent entries, in order.
pub open spec fn recent_names(es: Seq<EntryView>, window: u64, now: u64, display_name: bool) -> Seq<
    Seq<char>,
>
    decreases es.len(),
{
    if es.len() == 0 {
        Seq::empty()
    } else {
        let rest = recent_names(es.drop_last(), window, now, display_name);
        if recent(es.last(), window, now) {
            rest.push(shown_name(es.last(), display_name))
        } else {
            rest
        }
    }
}

/// The last messages of the recent entries, in order.
pub open spec fn recent_messages_of(es: Seq<EntryView>, window: u64, now: u64) -> Seq<Seq<char>>
    decreases es.len(),
{
    if es.len() == 0 {
        Seq::empty()
    } else {
        let rest = recent_messages_of(es.drop_last(), window, now);
        if recent(es.last(), window, now) {
            rest.push(es.last().last_message)
        } else {
            rest
        }
    }
}

pub open spec fn strings_view(v: Seq<String>) -> Seq<Seq<char>> {
    v.map_values(|s: String| s@)
}

fn is_recent(last_chatted: u64, window: u64, now: u64) -> (r: bool)
    ensures
        r == (now < last_chatted + window),
{
    if now < last_chatted {
        true
    } else {
        now - last_chatted < window
    }
}

impl ChannelPresence {
    fn find_entry(&self, uid: &str) -> (r: Option<usize>)
        requires
            unique_entries(self@.entries),
        ensures
            match r {
                Some(i) => i < self.entries.len() && entry_index(self@.entries, uid@) == Some(
                    i as int,
                ),
                None => entry_index(self@.entries, uid@) is None,
            },
    {
        let ghost es = self@.entries;
        let mut i: usize = 0;
        while i < self.entries.len()
            invariant
                es == self@.entries,
                es.len() == self.entries.len(),
                unique_entries(es),
                i <= self.entries.len(),
                forall|k: int| 0 <= k < i ==> es[k].user_id != uid@,
            decreases self.entries.len() - i,
        {
            assert(es[i as int] == self.entries@[i as int]@);
            if same_text(self.entries[i].user_id.as_str(), uid) {
                proof {
                    let c = choose|c: int| 0 <= c < es.len() && (#[trigger] es[c]).user_id == uid@;
                    if c != i {
                        if c < i {
                        } else {
                            assert(es[i as int].user_id != es[c].user_id);
                        }
                    }
                }
                return Some(i);
            }
            i = i + 1;
        }
        None
    }

    /// Keeps the entries that `keeps` lets stay, in order.
    fn retain_entries(&mut self, uid: Option<&str>, mid: Option<&MessageId>, login: Option<&str>)
        requires
            unique_entries(old(self)@.entries),
        ensures
            final(self)@ == (PresenceView {
                entries: kept(
                    old(self)@.entries,
                    opt_str_view(uid),
                    match mid {
                        Some(m) => Some(m@),
                        None => None,
                    },
                    opt_str_view(login),
                ),
                ..old(self)@
            }),
            unique_entries(final(self)@.entries),
    {
        let ghost es = self@.entries;
        let ghost u = opt_str_view(uid);
        let ghost m = match mid {
            Some(m) => Some(m@),
            None => None,
        };
        let ghost l = opt_str_view(login);
        let mut old_entries: Vec<ChatterEntry> = Vec::new();
        std::mem::swap(&mut old_entries, &mut self.entries);
        assert(old_entries@.map_values(|e: ChatterEntry| e@) == es);
        let mut i: usize = 0;
        while i < old_entries.len()
            invariant
                es == old_entries@.map_values(|e: ChatterEntry| e@),
                i <= old_entries.len(),
                self@.entries == kept(es.take(i as int), u, m, l),
                self.channel_id@ == old(self)@.channel_id,
                self.name@ == old(self)@.name,
                u == opt_str_view(uid),
                l == opt_str_view(login),
                m == match mid {
                    Some(m) => Some(m@),
                    None => None::<MessageIdView>,
                },
            decreases old_entries.len() - i,
        {
            let e = &old_entries[i];
            assert(es[i as int] == e@);
            let drop_by_id = match uid {
                Some(x) => same_text(e.user_id.as_str(), x),
                None => false,
            };
            let drop_by_mid = match mid {
                Some(x) => e.last_message_id.same_as(x),
                None => false,
            };
            let drop_by_login = match login {
                Some(x) => same_text(e.username.as_str(), x),
                None => false,
            };
            let keep = !drop_by_id && !drop_by_mid && !drop_by_login;
            assert(keep == keeps(e@, u, m, l));
            let ghost before = self@.entries;
            if keep {
                let copy = ChatterEntry {
                    user_id: e.user_id.clone(),
                    username: e.username.clone(),
                    display_name: clone_opt_string(&e.display_name),
                    last_chatted: e.last_chatted,
                    last_message: e.last_message.clone(),
                    last_message_id: e.last_message_id.duplicate(),
                };
                assert(copy@ == e@);
                self.entries.push(copy);
                assert(self@.entries =~= before.push(e@));
            }
            proof {
                assert(es.take(i + 1).drop_last() =~= es.take(i as int));
                reveal(Seq::filter);
                assert(es.take(i + 1).last() == es[i as int]);
            }
            i = i + 1;
        }
        proof {
            assert(es.take(es.len() as int) =~= es);
            let f = |x: EntryView| keeps(x, u, m, l);
            let k = kept(es, u, m, l);
            assert forall|a: int, b: int| 0 <= a < b < k.len() implies k[a].user_id != k[b].user_id by {
                lemma_filter_keeps_order(es, f, a, b);
            }
        }
    }
}

impl ChannelPresence {
    /// Writes `entry` over the entry with the same user id, or adds it.
    fn record(&mut self, entry: ChatterEntry)
        requires
            unique_entries(old(self)@.entries),
        ensures
            final(self)@ == (PresenceView { entries: upsert(old(self)@.entries, entry@), ..old(self)@ }),
            unique_entries(final(self)@.entries),
    {
        let ghost es = self@.entries;
        let ghost e = entry@;
        match self.find_entry(entry.user_id.as_str()) {
            Some(i) => {
                self.entries.set(i, entry);
                proof {
                    assert(self@.entries =~= es.update(i as int, e));
                }
            },
            None => {
                self.entries.push(entry);
                proof {
                    assert(self@.entries =~= es.push(e));
                    assert forall|a: int, b: int| 0 <= a < b < es.len() + 1 implies self@.entries[a].user_id
                        != self@.entries[b].user_id by {
                        if b == es.len() {
                            assert(!(0 <= a < es.len() && es[a].user_id == e.user_id));
                        }
                    }
                }
            },
        }
    }

    fn recent_names(&self, window: u64, now: u64, display_name: bool) -> (r: Vec<String>)
        ensures
            strings_view(r@) == recent_names(self@.entries, window, now, display_name),
    {
        let ghost es = self@.entries;
        let mut out: Vec<String> = Vec::new();
        let mut i: usize = 0;
        while i < self.entries.len()
            invariant
                es == self@.entries,
                es.len() == self.entries.len(),
                i <= self.entries.len(),
                strings_view(out@) == recent_names(es.take(i as int), window, now, display_name),
            decreases self.entries.len() - i,
        {
            let e = &self.entries[i];
            assert(es[i as int] == e@);
            assert(es.take(i + 1).drop_last() =~= es.take(i as int));
            assert(es.take(i + 1).last() == es[i as int]);
            if is_recent(e.last_chatted, window, now) {
                let name = match (display_name, &e.display_name) {
                    (true, Some(d)) => d.clone(),
                    _ => e.username.clone(),
                };
                let ghost before = out@;
                out.push(name);
                assert(strings_view(out@) =~= strings_view(before).push(name@));
            }
            i = i + 1;
        }
        assert(es.take(es.len() as int) =~= es);
        out
    }

    fn recent_messages(&self, window: u64, now: u64) -> (r: Vec<String>)
        ensures
            strings_view(r@) == recent_messages_of(self@.entries, window, now),
    {
        let ghost es = self@.entries;
        let mut out: Vec<String> = Vec::new();
        let mut i: usize = 0;
        while i < self.entries.len()
            invariant
                es == self@.entries,
                es.len() == self.entries.len(),
                i <= self.entries.len(),
                strings_view(out@) == recent_messages_of(es.take(i as int), window, now),
            decreases self.entries.len() - i,
        {
            let e = &self.entries[i];
            assert(es[i as int] == e@);
            assert(es.take(i + 1).drop_last() =~= es.take(i as int));
            assert(es.take(i + 1).last() == es[i as int]);
            if is_recent(e.last_chatted, window, now) {
                let ghost before = out@;
                out.push(e.last_message.clone());
                assert(strings_view(out@) =~= strings_view(before).push(e@.last_message));
            }
            i = i + 1;
        }
        assert(es.take(es.len() as int) =~= es);
        out
    }
}

/// The channel id that `ch` resolves to: its own id, else the id of a known channel of
/// that name.
pub open spec fn resolved(ps: Seq<PresenceView>, ch: crate::user::UserView) -> Option<Seq<char>> {
    match ch.user_id {
        Some(x) => Some(x),
        None => channel_named_from(ps, ch.username, 0),
    }
}

/// The presence after `sender` said `data` in `ch`; only users and channels with ids are
/// recorded.
pub open spec fn noticed(
    ps: Seq<PresenceView>,
    ch: crate::user::UserView,
    sender: crate::user::UserView,
    data: Seq<char>,
    mid: MessageIdView,
    now: u64,
) -> Seq<PresenceView> {
    match (ch.user_id, sender.user_id) {
        (Some(cid), Some(uid)) => {
            let e = new_entry(uid, sender, data, mid, now);
            match presence_index(ps, cid) {
                Some(p) => ps.update(p, PresenceView { entries: upsert(ps[p].entries, e), ..ps[p] }),
                None => ps.push(PresenceView { channel_id: cid, name: ch.username, entries: seq![e] }),
            }
        },
        _ => ps,
    }
}

pub open spec fn with_entries(p: PresenceView, es: Seq<EntryView>) -> PresenceView {
    PresenceView { entries: es, ..p }
}

/// Every channel emptied, channels still known.
pub open spec fn all_cleared(ps: Seq<PresenceView>) -> Seq<PresenceView> {
    ps.map_values(|p: PresenceView| with_entries(p, Seq::empty()))
}

/// The presence after the entries of the channel `ch` resolves to are filtered; when it
/// resolves to none, every channel is emptied.
pub open spec fn cleared(
    ps: Seq<PresenceView>,
    ch: crate::user::UserView,
    f: spec_fn(Seq<EntryView>) -> Seq<EntryView>,
) -> Seq<PresenceView> {
    match resolved(ps, ch) {
        None => all_cleared(ps),
        Some(cid) => match presence_index(ps, cid) {
            None => ps,
            Some(i) => ps.update(i, with_entries(ps[i], f(ps[i].entries))),
        },
    }
}

/// A ban or timeout: the user's entry by id, else entries by login name, else all of them.
pub open spec fn chat_clear(uid: Option<Seq<char>>, name: Option<Seq<char>>) -> spec_fn(
    Seq<EntryView>,
) -> Seq<EntryView> {
    |es: Seq<EntryView>|
        match uid {
            Some(u) => kept(es, Some(u), None, None),
            None => match name {
                Some(n) => kept(es, None, None, Some(n)),
                None => Seq::empty(),
            },
        }
}

/// A deleted message: entries with that message id or that login name go, or all of them
/// when neither is given.
pub open spec fn message_clear(mid: Option<MessageIdView>, login: Option<Seq<char>>) -> spec_fn(
    Seq<EntryView>,
) -> Seq<EntryView> {
    |es: Seq<EntryView>|
        if mid is Some || login is Some {
            kept(es, None, mid, login)
        } else {
            Seq::empty()
        }
}

pub open spec fn opt_message_id_of(m: Option<Seq<char>>) -> Option<MessageIdView> {
    match m {
        Some(s) => Some(message_id_of(s)),
        None => None,
    }
}

/// A moderation action on a channel's chat.
pub enum ClearChatAction {
    /// The whole chat was cleared.
    ChatCleared,
    /// A user was banned.
    UserBanned { user_login: String, user_id: String },
    /// A user was timed out.
    UserTimedOut { user_login: String, user_id: String },
}

/// Who chatted where: every user seen, every channel seen, and per channel the last message
/// of each user.
pub struct ChannelChatters {
    chatters: IdentityIndex,
    channels: IdentityIndex,
    presence: Vec<ChannelPresence>,
}

impl ChannelChatters {
    pub closed spec fn chatters(&self) -> IdentityIndex {
        self.chatters
    }

    pub closed spec fn channels(&self) -> IdentityIndex {
        self.channels
    }

    pub closed spec fn presence(&self) -> Seq<PresenceView> {
        self.presence@.map_values(|p: ChannelPresence| p@)
    }

    pub open spec fn wf(&self) -> bool {
        &&& self.chatters().wf()
        &&& self.channels().wf()
        &&& unique_channels(self.presence())
    }

    pub fn new() -> (r: Self)
        ensures
            r.wf(),
            r.presence().len() == 0,
            r.chatters().users().len() == 0,
    {
        let r = ChannelChatters {
            chatters: IdentityIndex::new(),
            channels: IdentityIndex::new(),
            presence: Vec::new(),
        };
        assert(r.presence() =~= Seq::<PresenceView>::empty());
        r
    }

    /// The user a named user resolves to, by login name, then by display name.
    pub fn get(&self, user: &UserArgument) -> (r: Option<OwnedUser>)
        requires
            self.wf(),
        ensures
            match self.chatters().index_from_userargument_spec(user.text()) {
                Some(i) => r matches Some(u) && u@ == self.chatters().users()[i as int],
                None => r is None,
            },
    {
        self.chatters.get(user)
    }

    fn find_presence(&self, cid: &str) -> (r: Option<usize>)
        requires
            self.wf(),
        ensures
            match r {
                Some(i) => i < self.presence.len() && presence_index(self.presence(), cid@) == Some(
                    i as int,
                ),
                None => presence_index(self.presence(), cid@) is None,
            },
    {
        let ghost ps = self.presence();
        let mut i: usize = 0;
        while i < self.presence.len()
            invariant
                ps == self.presence(),
                ps.len() == self.presence.len(),
                unique_channels(ps),
                i <= self.presence.len(),
                forall|k: int| 0 <= k < i ==> ps[k].channel_id != cid@,
            decreases self.presence.len() - i,
        {
            assert(ps[i as int] == self.presence@[i as int]@);
            if same_text(self.presence[i].channel_id.as_str(), cid) {
                proof {
                    let c = choose|c: int| 0 <= c < ps.len() && (#[trigger] ps[c]).channel_id == cid@;
                    if c > i {
                        assert(ps[i as int].channel_id != ps[c].channel_id);
                    }
                }
                return Some(i);
            }
            i = i + 1;
        }
        None
    }

    fn channel_named(&self, name: &str) -> (r: Option<String>)
        ensures
            opt_string_view(r) == channel_named_from(self.presence(), name@, 0),
    {
        let ghost ps = self.presence();
        let mut i: usize = 0;
        while i < self.presence.len()
            invariant
                ps == self.presence(),
                ps.len() == self.presence.len(),
                i <= self.presence.len(),
                channel_named_from(ps, name@, i as int) == channel_named_from(ps, name@, 0),
            decreases self.presence.len() - i,
        {
            assert(ps[i as int] == self.presence@[i as int]@);
            if same_text(self.presence[i].name.as_str(), name) {
                return Some(self.presence[i].channel_id.clone());
            }
            i = i + 1;
        }
        None
    }

    fn resolve_channel(&self, channel: &Channel) -> (r: Option<String>)
        ensures
            opt_string_view(r) == resolved(self.presence(), channel.user_view()),
    {
        match channel.user().user_id() {
            Some(id) => Some(id),
            None => self.channel_named(channel.user().username()),
        }
    }

    /// Empties every channel; the channels stay known.
    fn clear_all(&mut self)
        requires
            old(self).wf(),
        ensures
            final(self).wf(),
            final(self).presence() == all_cleared(old(self).presence()),
            final(self).chatters() == old(self).chatters(),
            final(self).channels() == old(self).channels(),
    {
        let ghost ps = self.presence();
        let mut i: usize = 0;
        while i < self.presence.len()
            invariant
                ps == old(self).presence(),
                self.presence.len() == ps.len(),
                i <= ps.len(),
                self.chatters == old(self).chatters,
                self.channels == old(self).channels,
                forall|k: int| 0 <= k < i ==> self.presence@[k]@ == with_entries(ps[k], Seq::empty()),
                forall|k: int| i <= k < ps.len() ==> self.presence@[k]@ == ps[k],
            decreases ps.len() - i,
        {
            let mut p = self.presence.remove(i);
            assert(p@ == ps[i as int]);
            p.entries = Vec::new();
            assert(p@.entries =~= Seq::<EntryView>::empty());
            assert(p@ =~= with_entries(ps[i as int], Seq::empty()));
            self.presence.insert(i, p);
            i = i + 1;
        }
        assert(self.presence() =~= all_cleared(ps));
    }

    /// Records a message of `sender` in `channel`: the sender and the channel join the
    /// identity indexes, and, when both have ids, the sender's entry in that channel holds
    /// this message, its id and the time `now`.
    pub fn notice_chatter(
        &mut self,
        channel: &Channel,
        sender: &Sender,
        data: &str,
        message_id: &str,
        now: u64,
    )
        requires
            old(self).wf(),
        ensures
            final(self).wf(),
            exists|a: usize| seen_as(old(self).chatters(), final(self).chatters(), sender.user_view(), a),
            exists|b: usize| seen_as(old(self).channels(), final(self).channels(), channel.user_view(), b),
            final(self).presence() == noticed(
                old(self).presence(),
                channel.user_view(),
                sender.user_view(),
                data@,
                message_id_of(message_id@),
                now,
            ),
    {
        let a = self.chatters.update_or_insert(sender.user());
        let b = self.channels.update_or_insert(channel.user());
        let ghost ps = self.presence();
        match (channel.user().user_id(), sender.user().user_id()) {
            (Some(cid), Some(uid)) => {
                let entry = ChatterEntry {
                    user_id: uid,
                    username: sender.user().username().to_owned(),
                    display_name: match sender.user().display_name() {
                        Some(d) => Some(d.to_owned()),
                        None => None,
                    },
                    last_chatted: now,
                    last_message: data.to_owned(),
                    last_message_id: MessageId::from_text(message_id),
                };
                assert(entry@ == new_entry(
                    sender.user_view().user_id->0,
                    sender.user_view(),
                    data@,
                    message_id_of(message_id@),
                    now,
                ));
                match self.find_presence(cid.as_str()) {
                    Some(i) => {
                        let mut p = self.presence.remove(i);
                        assert(p@ == ps[i as int]);
                        p.record(entry);
                        self.presence.insert(i, p);
                        assert(self.presence() =~= ps.update(
                            i as int,
                            PresenceView { entries: upsert(ps[i as int].entries, entry@), ..ps[i as int] },
                        ));
                    },
                    None => {
                        let mut entries: Vec<ChatterEntry> = Vec::new();
                        let ghost e = entry@;
                        entries.push(entry);
                        let p = ChannelPresence {
                            channel_id: cid,
                            name: channel.user().username().to_owned(),
                            entries,
                        };
                        assert(p@.entries =~= seq![e]);
                        self.presence.push(p);
                        assert(self.presence() =~= ps.push(p@));
                    },
                }
            },
            _ => {},
        }
        proof {
            assert(seen_as(old(self).chatters(), self.chatters(), sender.user_view(), a));
            assert(seen_as(old(self).channels(), self.channels(), channel.user_view(), b));
            let nps = self.presence();
            assert forall|x: int, y: int| 0 <= x < y < nps.len() implies nps[x].channel_id
                != nps[y].channel_id by {
                if y == ps.len() {
                    assert(ps[x].channel_id == nps[x].channel_id);
                }
            }
            assert forall|x: int| 0 <= x < nps.len() implies unique_entries(#[trigger] nps[x].entries) by {
                if x < ps.len() && nps[x] == ps[x] {
                    assert(unique_entries(ps[x].entries));
                }
            }
        }
    }

    /// Replaces the entries of channel `i` by what `retain_entries` keeps, or by none.
    fn filter_channel(
        &mut self,
        i: usize,
        uid: Option<&str>,
        mid: Option<&MessageId>,
        login: Option<&str>,
        clear: bool,
    )
        requires
            old(self).wf(),
            i < old(self).presence().len(),
        ensures
            final(self).wf(),
            final(self).chatters() == old(self).chatters(),
            final(self).channels() == old(self).channels(),
            final(self).presence() == old(self).presence().update(
                i as int,
                with_entries(
                    old(self).presence()[i as int],
                    if clear {
                        Seq::empty()
                    } else {
                        kept(
                            old(self).presence()[i as int].entries,
                            opt_str_view(uid),
                            match mid {
                                Some(m) => Some(m@),
                                None => None,
                            },
                            opt_str_view(login),
                        )
                    },
                ),
            ),
    {
        let ghost ps = self.presence();
        let mut p = self.presence.remove(i);
        assert(p@ == ps[i as int]);
        if clear {
            p.entries = Vec::new();
            assert(p@.entries =~= Seq::<EntryView>::empty());
        } else {
            p.retain_entries(uid, mid, login);
        }
        self.presence.insert(i, p);
        proof {
            let nps = self.presence();
            assert(nps =~= ps.update(i as int, p@));
            assert forall|x: int, y: int| 0 <= x < y < nps.len() implies nps[x].channel_id
                != nps[y].channel_id by {
                assert(ps[x].channel_id == nps[x].channel_id);
                assert(ps[y].channel_id == nps[y].channel_id);
            }
            assert forall|x: int| 0 <= x < nps.len() implies unique_entries(#[trigger] nps[x].entries) by {
                if x != i {
                    assert(unique_entries(ps[x].entries));
                }
            }
        }
    }

    /// A ban, a timeout or a cleared chat in `channel`: removes the entry of the user with
    /// `user_id`, else the entries with login `name`, else every entry of the channel. When
    /// the channel resolves to no id, every channel is emptied.
    pub fn clear_chat(&mut self, channel: &Channel, user_id: Option<String>, name: Option<&str>)
        requires
            old(self).wf(),
        ensures
            final(self).wf(),
            final(self).chatters() == old(self).chatters(),
            final(self).channels() == old(self).channels(),
            final(self).presence() == cleared(
                old(self).presence(),
                channel.user_view(),
                chat_clear(opt_string_view(user_id), opt_str_view(name)),
            ),
    {
        match self.resolve_channel(channel) {
            None => self.clear_all(),
            Some(cid) => {
                match self.find_presence(cid.as_str()) {
                    None => {},
                    Some(i) => {
                        let ghost es = self.presence()[i as int].entries;
                        match &user_id {
                            Some(u) => self.filter_channel(i, Some(u.as_str()), None, None, false),
                            None => match name {
                                Some(n) => self.filter_channel(i, None, None, Some(n), false),
                                None => self.filter_channel(i, None, None, None, true),
                            },
                        }
                        proof {
                            let f = chat_clear(opt_string_view(user_id), opt_str_view(name));
                            assert(f(es) == self.presence()[i as int].entries);
                        }
                    },
                }
            },
        }
    }

    /// A deleted message in `channel`: removes the entries whose last message has that id,
    /// and those with login `login`; with neither given, every entry of the channel. When
    /// the channel resolves to no id, every channel is emptied.
    pub fn clear_message(&mut self, channel: &Channel, message_id: Option<&str>, login: Option<&str>)
        requires
            old(self).wf(),
        ensures
            final(self).wf(),
            final(self).chatters() == old(self).chatters(),
            final(self).channels() == old(self).channels(),
            final(self).presence() == cleared(
                old(self).presence(),
                channel.user_view(),
                message_clear(opt_message_id_of(opt_str_view(message_id)), opt_str_view(login)),
            ),
    {
        match self.resolve_channel(channel) {
            None => self.clear_all(),
            Some(cid) => {
                match self.find_presence(cid.as_str()) {
                    None => {},
                    Some(i) => {
                        let ghost es = self.presence()[i as int].entries;
                        let mid = match message_id {
                            Some(m) => Some(MessageId::from_text(m)),
                            None => None,
                        };
                        let clear = message_id.is_none() && login.is_none();
                        match &mid {
                            Some(m) => self.filter_channel(i, None, Some(m), login, clear),
                            None => self.filter_channel(i, None, None, login, clear),
                        }
                        proof {
                            let f = message_clear(
                                opt_message_id_of(opt_str_view(message_id)),
                                opt_str_view(login),
                            );
                            assert(f(es) == self.presence()[i as int].entries);
                        }
                    },
                }
            },
        }
    }

    /// The users of channel `channel_id` whose last message is less than `window` old at
    /// time `now`: their display names where `display_name` asks for them and they have one,
    /// else their login names.
    pub fn get_list(&self, channel_id: &str, window: u64, display_name: bool, now: u64) -> (r: Vec<
        String,
    >)
        requires
            self.wf(),
        ensures
            strings_view(r@) == match presence_index(self.presence(), channel_id@) {
                Some(i) => recent_names(self.presence()[i].entries, window, now, display_name),
                None => Seq::empty(),
            },
    {
        match self.find_presence(channel_id) {
            Some(i) => {
                assert(self.presence()[i as int] == self.presence@[i as int]@);
                self.presence[i].recent_names(window, now, display_name)
            },
            None => {
                let r: Vec<String> = Vec::new();
                assert(strings_view(r@) =~= Seq::<Seq<char>>::empty());
                r
            },
        }
    }

    /// The last messages, in channel `channel_id`, of the users active within `window` of
    /// `now`.
    pub fn recent_messages(&self, channel_id: &str, window: u64, now: u64) -> (r: Vec<String>)
        requires
            self.wf(),
        ensures
            strings_view(r@) == match presence_index(self.presence(), channel_id@) {
                Some(i) => recent_messages_of(self.presence()[i].entries, window, now),
                None => Seq::empty(),
            },
    {
        match self.find_presence(channel_id) {
            Some(i) => {
                assert(self.presence()[i as int] == self.presence@[i as int]@);
                self.presence[i].recent_messages(window, now)
            },
            None => {
                let r: Vec<String> = Vec::new();
                assert(strings_view(r@) =~= Seq::<Seq<char>>::empty());
                r
            },
        }
    }

    /// One of the messages `recent_messages` lists, picked at random; `None` when it lists
    /// none.
    pub fn get_random_message(&self, channel_id: &str, window: u64, now: u64) -> (r: Option<String>)
        requires
            self.wf(),
        ensures
            ({
                let msgs = match presence_index(self.presence(), channel_id@) {
                    Some(i) => recent_messages_of(self.presence()[i].entries, window, now),
                    None => Seq::empty(),
                };
                &&& r is None <==> msgs.len() == 0
                &&& r matches Some(m) ==> msgs.contains(m@)
            }),
    {
        let list = self.recent_messages(channel_id, window, now);
        if list.len() == 0 {
            return None;
        }
        let i = random_below(list.len());
        assert(strings_view(list@)[i as int] == list@[i as int]@);
        Some(list[i].clone())
    }

    /// Applies a moderation action on the whole chat or one user: see `clear_chat`.
    pub fn apply_clear_chat(&mut self, channel: &Channel, action: ClearChatAction)
        requires
            old(self).wf(),
        ensures
            final(self).wf(),
            final(self).chatters() == old(self).chatters(),
            final(self).channels() == old(self).channels(),
            final(self).presence() == cleared(
                old(self).presence(),
                channel.user_view(),
                match action {
                    ClearChatAction::ChatCleared => chat_clear(None, None),
                    ClearChatAction::UserBanned { user_login, user_id } => chat_clear(
                        Some(user_id@),
                        Some(user_login@),
                    ),
                    ClearChatAction::UserTimedOut { user_login, user_id } => chat_clear(
                        Some(user_id@),
                        Some(user_login@),
                    ),
                },
            ),
    {
        match action {
            ClearChatAction::ChatCleared => self.clear_chat(channel, None, None),
            ClearChatAction::UserBanned { user_login, user_id } => self.clear_chat(
                channel,
                Some(user_id),
                Some(user_login.as_str()),
            ),
            ClearChatAction::UserTimedOut { user_login, user_id } => self.clear_chat(
                channel,
                Some(user_id),
                Some(user_login.as_str()),
            ),
        }
    }
}

/// Renaming through the registry: after a known user (found by id) is seen again under a new
/// display name, looking the old display name up finds nobody and the new one finds that
/// user, under its id and with the new name. The names must not be anyone's login, since a
/// login is looked up first.
pub proof fn lemma_registry_display_name_rename(
    before: ChannelChatters,
    after: ChannelChatters,
    sender: crate::user::UserView,
    old_name: Seq<char>,
    new_name: Seq<char>,
)
    requires
        before.wf(),
        after.wf(),
        exists|a: usize| seen_as(before.chatters(), after.chatters(), sender, a),
        sender.user_id is Some,
        before.chatters().index_of(sender) is Some,
        before.chatters().users()[before.chatters().index_of(sender)->0 as int].display_name == Some(
            old_name,
        ),
        sender.display_name == Some(new_name),
        old_name != new_name,
        !after.chatters().usernames().contains_key(old_name),
        !after.chatters().usernames().contains_key(new_name),
    ensures
        after.chatters().index_from_userargument_spec(old_name) is None,
        ({
            let i = before.chatters().index_of(sender)->0;
            &&& after.chatters().index_from_userargument_spec(new_name) == Some(i)
            &&& after.chatters().users()[i as int].display_name == Some(new_name)
            &&& after.chatters().users()[i as int].user_id == sender.user_id
        }),
{
    let a = choose|a: usize| seen_as(before.chatters(), after.chatters(), sender, a);
    crate::identity::lemma_display_name_rename(
        before.chatters(),
        after.chatters(),
        sender,
        a,
        old_name,
        new_name,
    );
    let i = before.chatters().index_of(sender)->0;
    assert(before.chatters().users()[i as int].user_id == sender.user_id);
}

/// Each element a filter keeps stands somewhere in the filtered sequence.
proof fn lemma_filter_from(es: Seq<EntryView>, f: spec_fn(EntryView) -> bool, a: int)
    requires
        0 <= a < es.filter(f).len(),
    ensures
        exists|k: int| 0 <= k < es.len() && es[k] == es.filter(f)[a],
    decreases es.len(),
{
    reveal(Seq::filter);
    let init = es.drop_last();
    let rest = init.filter(f);
    if f(es.last()) && a == rest.len() {
        assert(es[es.len() - 1] == es.filter(f)[a]);
    } else {
        lemma_filter_from(init, f, a);
        let k = choose|k: int| 0 <= k < init.len() && init[k] == rest[a];
        assert(es[k] == es.filter(f)[a]);
    }
}

/// A filter keeps user ids distinct when they were distinct before it.
proof fn lemma_filter_keeps_order(es: Seq<EntryView>, f: spec_fn(EntryView) -> bool, a: int, b: int)
    requires
        unique_entries(es),
        0 <= a < b < es.filter(f).len(),
    ensures
        es.filter(f)[a].user_id != es.filter(f)[b].user_id,
    decreases es.len(),
{
    reveal(Seq::filter);
    let init = es.drop_last();
    let rest = init.filter(f);
    assert(unique_entries(init));
    if f(es.last()) {
        assert(es.filter(f) == rest.push(es.last()));
        if b < rest.len() {
            lemma_filter_keeps_order(init, f, a, b);
        } else {
            lemma_filter_from(init, f, a);
            let k = choose|k: int| 0 <= k < init.len() && init[k] == rest[a];
            assert(es[k] == init[k]);
            assert(es.filter(f)[a] == rest[a]);
            assert(es.filter(f)[b] == es[es.len() - 1]);
            assert(k < es.len() - 1);
        }
    } else {
        assert(es.filter(f) == rest);
        lemma_filter_keeps_order(init, f, a, b);
    }
}

} // verus!
