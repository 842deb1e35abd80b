//! The read path for messages: listing a chat renders every stored message
//! that is visible at read time. Expired messages are filtered out, deleted
//! and viewed view-once messages are redacted, reactions are aggregated per
//! emoji, and polls are summarised for the requesting viewer. Redaction
//! happens here, at read time; the stored attachment is never touched by a
//! view-once read.

use vstd::prelude::*;
use vstd::multiset::Multiset;
use crate::model::{
    has_reaction, spec_is_expired, spec_message_state, Message, MessageReaction, MessageState,
    Poll, PollOption, RichPayload,
};
use crate::engine::deleted_text;
use crate::store::{chat_for, message_for, profile_for, EngineError, Store};
use crate::strutil::{hex16_of, id_hex, str_eq};

verus! {

/// One emoji's aggregate on a message, as the viewer sees it.
pub struct ReactionSummary {
    pub emoji: String,
    pub count: usize,
    pub me_reacted: bool,
}

/// One poll choice as the viewer sees it.
pub struct PollOptionResponse {
    pub text: String,
    pub count: usize,
    pub me_voted: bool,
}

/// A poll as the viewer sees it.
pub struct PollResponse {
    pub question: String,
    pub options: Vec<PollOptionResponse>,
    pub is_multiple: bool,
    pub is_closed: bool,
    pub total_votes: usize,
}

/// A contact card as the viewer sees it.
pub struct ContactResponse {
    pub username: String,
    pub full_name: Option<String>,
    pub avatar_url: Option<String>,
}

/// A shared place as the viewer sees it, in microdegrees.
pub struct LocationResponse {
    pub latitude_microdeg: i64,
    pub longitude_microdeg: i64,
    pub label: Option<String>,
    pub is_live: Option<bool>,
    pub expires_at: Option<i64>,
}

/// The quoted parent of a reply.
pub struct ParentMessageSummary {
    pub id: String,
    pub content: String,
    pub username: String,
}

/// One rendered message.
pub struct MessageResponse {
    pub id: String,
    pub sender_id: String,
    pub sender_username: String,
    pub content: String,
    pub attachment_url: Option<String>,
    pub attachment_type: Option<String>,
    pub created_at: i64,
    pub is_me: bool,
    pub reply_to: Option<ParentMessageSummary>,
    pub reactions: Vec<ReactionSummary>,
    pub is_deleted: bool,
    pub read_at: Option<i64>,
    pub encrypted_content: Option<String>,
    pub encryption_iv: Option<String>,
    pub poll: Option<PollResponse>,
    pub location: Option<LocationResponse>,
    pub contact: Option<ContactResponse>,
    pub is_view_once: bool,
    pub viewed_at: Option<i64>,
    pub expires_at: Option<i64>,
}

/// How often this emoji was reacted with.
pub open spec fn count_emoji(rs: Seq<MessageReaction>, emoji: Seq<char>) -> int
    decreases rs.len(),
{
    if rs.len() == 0 {
        0
    } else {
        count_emoji(rs.drop_last(), emoji) + if rs.last().emoji@ == emoji {
            1int
        } else {
            0int
        }
    }
}

/// The count never exceeds the number of reactions.
pub proof fn lemma_count_emoji_le_len(rs: Seq<MessageReaction>, emoji: Seq<char>)
    ensures
        0 <= count_emoji(rs, emoji) <= rs.len(),
    decreases rs.len(),
{
    if rs.len() > 0 {
        lemma_count_emoji_le_len(rs.drop_last(), emoji);
    }
}

/// What a correct aggregation of reactions looks like: one entry per emoji
/// that occurs, with its exact count and whether the viewer is among the
/// reactors. Entries carry distinct emojis; their order is not specified.
pub open spec fn reaction_summaries_ok(
    rs: Seq<MessageReaction>,
    viewer: u64,
    out: Seq<ReactionSummary>,
) -> bool {
    &&& forall|k: int|
        0 <= k < out.len() ==> {
            &&& count_emoji(rs, (#[trigger] out[k]).emoji@) == out[k].count
            &&& out[k].me_reacted == has_reaction(rs, viewer, out[k].emoji@)
        }
    &&& forall|k1: int, k2: int|
        0 <= k1 < k2 < out.len() ==> (#[trigger] out[k1].emoji@) != (#[trigger] out[k2].emoji@)
    &&& forall|i: int| 0 <= i < rs.len() ==> summarized(out, (#[trigger] rs[i]).emoji@)
    &&& forall|k: int| 0 <= k < out.len() ==> emoji_occurs(rs, (#[trigger] out[k]).emoji@)
}

/// Whether some summary entry carries this emoji.
pub open spec fn summarized(out: Seq<ReactionSummary>, e: Seq<char>) -> bool {
    exists|k: int| 0 <= k < out.len() && (#[trigger] out[k]).emoji@ == e
}

/// Whether some reaction carries this emoji.
pub open spec fn emoji_occurs(rs: Seq<MessageReaction>, e: Seq<char>) -> bool {
    exists|i: int| 0 <= i < rs.len() && (#[trigger] rs[i]).emoji@ == e
}

/// The total number of votes across all options.
pub open spec fn sum_votes(opts: Seq<PollOption>) -> int
    decreases opts.len(),
{
    if opts.len() == 0 {
        0
    } else {
        sum_votes(opts.drop_last()) + opts.last().voter_ids@.len()
    }
}

/// What a correct poll summary looks like for the viewer, including the
/// total vote count saturated at the machine limit.
pub open spec fn poll_response_ok(p: Poll, viewer: u64, r: PollResponse) -> bool {
    &&& r.question@ == p.question@
    &&& r.is_multiple == p.is_multiple
    &&& r.is_closed == p.is_closed
    &&& r.options@.len() == p.options@.len()
    &&& forall|j: int|
        0 <= j < p.options@.len() ==> {
            &&& (#[trigger] r.options@[j]).text@ == p.options@[j].text@
            &&& r.options@[j].count == p.options@[j].voter_ids@.len()
            &&& r.options@[j].me_voted == p.options@[j].voter_ids@.contains(viewer)
        }
    &&& r.total_votes == if sum_votes(p.options@) <= usize::MAX as int {
        sum_votes(p.options@)
    } else {
        usize::MAX as int
    }
}

/// The content a read shows: a viewed view-once message reads as a fixed
/// marker, a deleted message as the deletion placeholder, and anything else
/// as its stored text.
pub open spec fn rendered_content(m: Message) -> Seq<char> {
    if m.is_view_once && m.viewed_at is Some {
        "Media viewed"@
    } else if m.is_deleted {
        deleted_text()
    } else {
        m.content@
    }
}

/// Whether a read hides the attachment: after deletion, and after the first
/// view of a view-once message.
pub open spec fn attachment_redacted(m: Message) -> bool {
    m.is_deleted || (m.is_view_once && m.viewed_at is Some)
}

/// The username shown for a user, or the fallback when no profile exists.
pub open spec fn username_or_unknown(ps: Seq<crate::model::Profile>, user_id: u64) -> Seq<char> {
    match profile_for(ps, user_id) {
        Some(p) => p.username@,
        None => "Unknown"@,
    }
}

/// What a correctly rendered message looks like, relative to the stored
/// profiles and messages it quotes.
pub open spec fn message_view_ok(
    m: Message,
    viewer: u64,
    ps: Seq<crate::model::Profile>,
    ms: Seq<Message>,
    r: MessageResponse,
) -> bool {
    &&& r.id@ == hex16_of(m.id)
    &&& r.sender_id@ == hex16_of(m.sender_id)
    &&& r.sender_username@ == username_or_unknown(ps, m.sender_id)
    &&& r.content@ == rendered_content(m)
    &&& r.attachment_url == (if attachment_redacted(m) {
        None
    } else {
        m.attachment_url
    })
    &&& r.attachment_type == (if attachment_redacted(m) {
        None
    } else {
        m.attachment_type
    })
    &&& r.created_at == m.created_at
    &&& r.is_me == (m.sender_id == viewer)
    &&& (match m.reply_to_id {
        Some(pid) => match message_for(ms, pid) {
            Some(pm) => match r.reply_to {
                Some(s) => s.id@ == hex16_of(pid) && s.content@ == pm.content@ && s.username@
                    == username_or_unknown(ps, pm.sender_id),
                None => false,
            },
            None => r.reply_to is None,
        },
        None => r.reply_to is None,
    })
    &&& reaction_summaries_ok(m.reactions@, viewer, r.reactions@)
    &&& r.is_deleted == m.is_deleted
    &&& r.read_at == m.read_at
    &&& r.encrypted_content == m.encrypted_content
    &&& r.encryption_iv == m.encryption_iv
    &&& (match m.payload {
        RichPayload::Poll(p) => match r.poll {
            Some(pr) => poll_response_ok(p, viewer, pr),
            None => false,
        },
        _ => r.poll is None,
    })
    &&& (match m.payload {
        RichPayload::Location(l) => match r.location {
            Some(lr) => {
                &&& lr.latitude_microdeg == l.latitude_microdeg
                &&& lr.longitude_microdeg == l.longitude_microdeg
                &&& lr.label == l.label
                &&& lr.is_live == l.is_live
                &&& lr.expires_at == l.expires_at
            },
            None => false,
        },
        _ => r.location is None,
    })
    &&& (match m.payload {
        RichPayload::Contact(c) => match r.contact {
            Some(cr) => cr.username@ == c.username@ && cr.full_name == c.full_name
                && cr.avatar_url == c.avatar_url,
            None => false,
        },
        _ => r.contact is None,
    })
    &&& r.is_view_once == m.is_view_once
    &&& r.viewed_at == m.viewed_at
    &&& r.expires_at == m.expires_at
}

/// The messages belonging to one chat.
pub open spec fn in_chat(chat_id: u64) -> spec_fn(Message) -> bool {
    |m: Message| m.chat_id == chat_id
}

/// The messages whose lifetime has not passed at `now`.
pub open spec fn not_expired(now: i64) -> spec_fn(Message) -> bool {
    |m: Message| !spec_is_expired(m, now)
}

/// Oldest first: creation times never decrease along the listing.
pub open spec fn creation_sorted(ms: Seq<Message>) -> bool {
    forall|k1: int, k2: int|
        0 <= k1 < k2 < ms.len() ==> (#[trigger] ms[k1]).created_at <= (#[trigger] ms[k2]).created_at
}

/// How many entries one page of a listing holds: everything up to the page
/// limit of one hundred.
pub open spec fn page_of(len: int) -> int {
    if len <= 100 {
        len
    } else {
        100
    }
}

/// The messages standing at the given indices, in that order.
pub open spec fn messages_at(ms: Seq<Message>, idxs: Seq<usize>) -> Seq<Message> {
    Seq::new(idxs.len(), |k: int| ms[idxs[k] as int])
}

/// A prefix of a creation-sorted sequence stays sorted after filtering.
proof fn lemma_filter_creation_sorted(ms: Seq<Message>, pred: spec_fn(Message) -> bool)
    requires
        creation_sorted(ms),
    ensures
        creation_sorted(ms.filter(pred)),
        forall|k: int|
            0 <= k < ms.filter(pred).len() ==> ms.contains(#[trigger] ms.filter(pred)[k]),
    decreases ms.len(),
{
    reveal(Seq::filter);
    if ms.len() == 0 {
    } else {
        let dl = ms.drop_last();
        assert(creation_sorted(dl)) by {
            assert(forall|k: int| 0 <= k < dl.len() ==> dl[k] == ms[k]);
        }
        lemma_filter_creation_sorted(dl, pred);
        let f = dl.filter(pred);
        assert forall|k: int| 0 <= k < f.len() implies ms.contains(#[trigger] f[k]) by {
            let j = choose|j: int| 0 <= j < dl.len() && dl[j] == f[k];
            assert(ms[j] == f[k]);
        }
        if pred(ms.last()) {
            assert(ms.filter(pred) == f.push(ms.last()));
            assert forall|k1: int, k2: int|
                0 <= k1 < k2 < f.push(ms.last()).len() implies (#[trigger] f.push(
                ms.last(),
            )[k1]).created_at <= (#[trigger] f.push(ms.last())[k2]).created_at by {
                if k2 < f.len() {
                } else {
                    let a = f.push(ms.last())[k1];
                    let j = choose|j: int| 0 <= j < dl.len() && dl[j] == a;
                    assert(ms[j] == a);
                    assert(ms.last() == ms[ms.len() - 1]);
                }
            }
        } else {
            assert(ms.filter(pred) == f);
        }
    }
}

/// The first entry equal to `s`, if any.
fn find_string(list: &Vec<String>, s: &String) -> (r: Option<usize>)
    ensures
        match r {
            Some(k) => k < list@.len() && list@[k as int]@ == s@,
            None => forall|k: int| 0 <= k < list@.len() ==> (#[trigger] list@[k])@ != s@,
        },
{
    let mut k: usize = 0;
    while k < list.len()
        invariant
            k <= list@.len(),
            forall|j: int| 0 <= j < k ==> (#[trigger] list@[j])@ != s@,
        decreases list@.len() - k,
    {
        if str_eq(&list[k], s) {
            return Some(k);
        }
        k = k + 1;
    }
    None
}

/// Whether some list entry equals this emoji.
pub open spec fn listed_emoji(list: Seq<String>, e: Seq<char>) -> bool {
    exists|k: int| 0 <= k < list.len() && (#[trigger] list[k])@ == e
}

/// A longer list keeps every listed emoji.
proof fn lemma_listed_emoji_push(list: Seq<String>, x: String, e: Seq<char>)
    requires
        listed_emoji(list, e),
    ensures
        listed_emoji(list.push(x), e),
{
    let k = choose|k: int| 0 <= k < list.len() && (#[trigger] list[k])@ == e;
    assert(list.push(x)[k]@ == e);
}

/// The distinct emojis of a reaction list, each exactly once, in order of
/// first occurrence.
fn distinct_emojis(rs: &Vec<MessageReaction>) -> (list: Vec<String>)
    ensures
        forall|k1: int, k2: int|
            0 <= k1 < k2 < list@.len() ==> (#[trigger] list@[k1])@ != (#[trigger] list@[k2])@,
        forall|i: int| 0 <= i < rs@.len() ==> listed_emoji(list@, (#[trigger] rs@[i]).emoji@),
        forall|k: int| 0 <= k < list@.len() ==> emoji_occurs(rs@, (#[trigger] list@[k])@),
{
    let mut list: Vec<String> = Vec::new();
    let mut i: usize = 0;
    while i < rs.len()
        invariant
            i <= rs@.len(),
            forall|k1: int, k2: int|
                0 <= k1 < k2 < list@.len() ==> (#[trigger] list@[k1])@ != (#[trigger] list@[k2])@,
            forall|ii: int| 0 <= ii < i ==> listed_emoji(list@, (#[trigger] rs@[ii]).emoji@),
            forall|k: int| 0 <= k < list@.len() ==> emoji_occurs(rs@, (#[trigger] list@[k])@),
        decreases rs@.len() - i,
    {
        let ghost old_list = list@;
        match find_string(&list, &rs[i].emoji) {
            Some(k) => {
                proof {
                    assert(listed_emoji(list@, rs@[i as int].emoji@)) by {
                        assert(list@[k as int]@ == rs@[i as int].emoji@);
                    }
                }
            },
            None => {
                list.push(rs[i].emoji.clone());
                proof {
                    assert(list@ == old_list.push(list@[list@.len() - 1]));
                    assert(list@[list@.len() - 1]@ == rs@[i as int].emoji@);
                    assert(listed_emoji(list@, rs@[i as int].emoji@));
                    assert(emoji_occurs(rs@, list@[list@.len() - 1]@)) by {
                        assert(rs@[i as int].emoji@ == list@[list@.len() - 1]@);
                    }
                    assert forall|ii: int| 0 <= ii < i implies listed_emoji(
                        list@,
                        (#[trigger] rs@[ii]).emoji@,
                    ) by {
                        lemma_listed_emoji_push(old_list, list@[list@.len() - 1], rs@[ii].emoji@);
                    }
                }
            },
        }
        i = i + 1;
    }
    list
}

/// How often `emoji` was reacted with, executably.
fn count_emoji_exec(rs: &Vec<MessageReaction>, emoji: &String) -> (c: usize)
    ensures
        c == count_emoji(rs@, emoji@),
{
    let mut c: usize = 0;
    let mut i: usize = 0;
    while i < rs.len()
        invariant
            i <= rs@.len(),
            c <= i,
            c == count_emoji(rs@.subrange(0, i as int), emoji@),
        decreases rs@.len() - i,
    {
        let ghost pre = rs@.subrange(0, i as int);
        let ghost ext = rs@.subrange(0, i + 1);
        proof {
            assert(ext.drop_last() =~= pre);
            assert(ext.last() == rs@[i as int]);
            lemma_count_emoji_le_len(pre, emoji@);
        }
        if str_eq(&rs[i].emoji, emoji) {
            c = c + 1;
        }
        i = i + 1;
    }
    proof {
        assert(rs@.subrange(0, rs@.len() as int) =~= rs@);
    }
    c
}

/// Aggregates the reactions of one message for the viewer: the distinct
/// emojis first, then each one's exact count and whether the viewer is among
/// its reactors.
fn summarize_reactions(rs: &Vec<MessageReaction>, viewer: u64) -> (out: Vec<ReactionSummary>)
    ensures
        reaction_summaries_ok(rs@, viewer, out@),
{
    let list = distinct_emojis(rs);
    let mut out: Vec<ReactionSummary> = Vec::new();
    let mut k: usize = 0;
    while k < list.len()
        invariant
            k <= list@.len(),
            out@.len() == k,
            forall|k1: int, k2: int|
                0 <= k1 < k2 < list@.len() ==> (#[trigger] list@[k1])@ != (#[trigger] list@[k2])@,
            forall|i: int| 0 <= i < rs@.len() ==> listed_emoji(list@, (#[trigger] rs@[i]).emoji@),
            forall|j: int| 0 <= j < list@.len() ==> emoji_occurs(rs@, (#[trigger] list@[j])@),
            forall|j: int| 0 <= j < k ==> (#[trigger] out@[j]).emoji@ == list@[j]@,
            forall|j: int|
                0 <= j < k ==> {
                    &&& count_emoji(rs@, (#[trigger] out@[j]).emoji@) == out@[j].count
                    &&& out@[j].me_reacted == has_reaction(rs@, viewer, out@[j].emoji@)
                },
        decreases list@.len() - k,
    {
        let count = count_emoji_exec(rs, &list[k]);
        let me_reacted = crate::engine::has_reaction_exec(rs, viewer, &list[k]);
        out.push(ReactionSummary { emoji: list[k].clone(), count, me_reacted });
        k = k + 1;
    }
    proof {
        assert forall|i: int| 0 <= i < rs@.len() implies summarized(
            out@,
            (#[trigger] rs@[i]).emoji@,
        ) by {
            let j = choose|j: int| 0 <= j < list@.len() && (#[trigger] list@[j])@ == rs@[i].emoji@;
            assert(out@[j].emoji@ == rs@[i].emoji@);
        }
        assert forall|j: int| 0 <= j < out@.len() implies emoji_occurs(
            rs@,
            (#[trigger] out@[j]).emoji@,
        ) by {
            assert(out@[j].emoji@ == list@[j]@);
        }
    }
    out
}

/// Renders one poll for the viewer.
fn render_poll(p: &Poll, viewer: u64) -> (r: PollResponse)
    ensures
        poll_response_ok(*p, viewer, r),
{
    let mut options: Vec<PollOptionResponse> = Vec::new();
    let mut total: usize = 0;
    let mut j: usize = 0;
    while j < p.options.len()
        invariant
            j <= p.options@.len(),
            options@.len() == j,
            forall|k: int|
                0 <= k < j ==> {
                    &&& (#[trigger] options@[k]).text@ == p.options@[k].text@
                    &&& options@[k].count == p.options@[k].voter_ids@.len()
                    &&& options@[k].me_voted == p.options@[k].voter_ids@.contains(viewer)
                },
            total as int == if sum_votes(p.options@.subrange(0, j as int)) <= usize::MAX as int {
                sum_votes(p.options@.subrange(0, j as int))
            } else {
                usize::MAX as int
            },
        decreases p.options@.len() - j,
    {
        let ghost pre = p.options@.subrange(0, j as int);
        let ghost ext = p.options@.subrange(0, j + 1);
        proof {
            assert(ext.drop_last() =~= pre);
            assert(ext.last() == p.options@[j as int]);
            lemma_sum_votes_nonneg(pre);
        }
        let opt = &p.options[j];
        let count = opt.voter_ids.len();
        options.push(
            PollOptionResponse {
                text: opt.text.clone(),
                count,
                me_voted: crate::model::contains_u64(&opt.voter_ids, viewer),
            },
        );
        total = if total > usize::MAX - count {
            usize::MAX
        } else {
            total + count
        };
        j = j + 1;
    }
    proof {
        assert(p.options@.subrange(0, p.options@.len() as int) =~= p.options@);
    }
    PollResponse {
        question: p.question.clone(),
        options,
        is_multiple: p.is_multiple,
        is_closed: p.is_closed,
        total_votes: total,
    }
}

/// The total is never negative.
pub proof fn lemma_sum_votes_nonneg(opts: Seq<PollOption>)
    ensures
        sum_votes(opts) >= 0,
    decreases opts.len(),
{
    if opts.len() > 0 {
        lemma_sum_votes_nonneg(opts.drop_last());
    }
}

impl Store {
    /// The username shown for a user.
    fn username_of(&self, user_id: u64) -> (r: String)
        ensures
            r@ == username_or_unknown(self.profiles@, user_id),
    {
        match self.find_profile(user_id) {
            Some(i) => self.profiles[i].username.clone(),
            None => String::from_str("Unknown"),
        }
    }

    /// Renders one message for the viewer, applying the read-time redaction
    /// rules and quoting the reply parent if it still exists.
    fn render_message(&self, m: &Message, viewer: u64) -> (r: MessageResponse)
        ensures
            message_view_ok(*m, viewer, self.profiles@, self.messages@, r),
    {
        let redacted = m.is_deleted || (m.is_view_once && m.viewed_at.is_some());
        let content = if m.is_view_once && m.viewed_at.is_some() {
            String::from_str("Media viewed")
        } else if m.is_deleted {
            String::from_str("This message was deleted")
        } else {
            m.content.clone()
        };
        let reply_to = match m.reply_to_id {
            Some(pid) => match self.find_message(pid) {
                Some(pi) => {
                    let parent = &self.messages[pi];
                    Some(
                        ParentMessageSummary {
                            id: id_hex(pid),
                            content: parent.content.clone(),
                            username: self.username_of(parent.sender_id),
                        },
                    )
                },
                None => None,
            },
            None => None,
        };
        let poll = match &m.payload {
            RichPayload::Poll(p) => Some(render_poll(p, viewer)),
            _ => None,
        };
        let location = match &m.payload {
            RichPayload::Location(l) => Some(
                LocationResponse {
                    latitude_microdeg: l.latitude_microdeg,
                    longitude_microdeg: l.longitude_microdeg,
                    label: l.label.clone(),
                    is_live: l.is_live,
                    expires_at: l.expires_at,
                },
            ),
            _ => None,
        };
        let contact = match &m.payload {
            RichPayload::Contact(c) => Some(
                ContactResponse {
                    username: c.username.clone(),
                    full_name: c.full_name.clone(),
                    avatar_url: c.avatar_url.clone(),
                },
            ),
            _ => None,
        };
        MessageResponse {
            id: id_hex(m.id),
            sender_id: id_hex(m.sender_id),
            sender_username: self.username_of(m.sender_id),
            content,
            attachment_url: if redacted {
                None
            } else {
                m.attachment_url.clone()
            },
            attachment_type: if redacted {
                None
            } else {
                m.attachment_type.clone()
            },
            created_at: m.created_at,
            is_me: m.sender_id == viewer,
            reply_to,
            reactions: summarize_reactions(&m.reactions, viewer),
            is_deleted: m.is_deleted,
            read_at: m.read_at,
            encrypted_content: m.encrypted_content.clone(),
            encryption_iv: m.encryption_iv.clone(),
            poll,
            location,
            contact,
            is_view_once: m.is_view_once,
            viewed_at: m.viewed_at,
            expires_at: m.expires_at,
        }
    }

    /// The indices of this chat's messages, arranged oldest first.
    fn sorted_message_indices(&self, chat_id: u64) -> (idxs: Vec<usize>)
        ensures
            forall|k: int| 0 <= k < idxs@.len() ==> (#[trigger] idxs@[k]) < self.messages@.len(),
            forall|k: int|
                0 <= k < idxs@.len() ==> self.messages@[#[trigger] idxs@[k] as int].chat_id
                    == chat_id,
            messages_at(self.messages@, idxs@).to_multiset() == self.messages@.filter(
                in_chat(chat_id),
            ).to_multiset(),
            creation_sorted(messages_at(self.messages@, idxs@)),
    {
        let mut idxs: Vec<usize> = Vec::new();
        let mut i: usize = 0;
        proof {
            reveal(Seq::filter);
            broadcast use vstd::seq_lib::group_to_multiset_ensures;

            assert(messages_at(self.messages@, idxs@) =~= Seq::<Message>::empty());
            assert(self.messages@.subrange(0, 0).filter(in_chat(chat_id))
                =~= Seq::<Message>::empty());
            assert(Seq::<Message>::empty().to_multiset() =~= Multiset::<Message>::empty());
        }
        while i < self.messages.len()
            invariant
                i <= self.messages@.len(),
                forall|k: int|
                    0 <= k < idxs@.len() ==> (#[trigger] idxs@[k]) < self.messages@.len(),
                forall|k: int|
                    0 <= k < idxs@.len() ==> self.messages@[#[trigger] idxs@[k] as int].chat_id
                        == chat_id,
                messages_at(self.messages@, idxs@).to_multiset() == self.messages@.subrange(
                    0,
                    i as int,
                ).filter(in_chat(chat_id)).to_multiset(),
                creation_sorted(messages_at(self.messages@, idxs@)),
            decreases self.messages@.len() - i,
        {
            let ghost pre = self.messages@.subrange(0, i as int);
            let ghost ext = self.messages@.subrange(0, i + 1);
            let ghost cpred = in_chat(chat_id);
            proof {
                reveal(Seq::filter);
                assert(ext.drop_last() =~= pre);
                assert(ext.last() == self.messages@[i as int]);
            }
            if self.messages[i].chat_id == chat_id {
                let key = self.messages[i].created_at;
                let ghost old_idxs = idxs@;
                let mut j: usize = 0;
                while j < idxs.len() && self.messages[idxs[j]].created_at <= key
                    invariant
                        idxs@ == old_idxs,
                        j <= idxs@.len(),
                        forall|k: int|
                            0 <= k < idxs@.len() ==> (#[trigger] idxs@[k])
                                < self.messages@.len(),
                        forall|jj: int|
                            0 <= jj < j ==> self.messages@[#[trigger] idxs@[jj] as int].created_at
                                <= key,
                    decreases idxs@.len() - j,
                {
                    j = j + 1;
                }
                idxs.insert(j, i);
                proof {
                    broadcast use vstd::seq_lib::group_to_multiset_ensures;

                    let mapped_old = messages_at(self.messages@, old_idxs);
                    let mapped_new = messages_at(self.messages@, idxs@);
                    assert(mapped_new =~= mapped_old.insert(j as int, self.messages@[i as int]));
                    crate::store::lemma_to_multiset_insert(
                        mapped_old,
                        j as int,
                        self.messages@[i as int],
                    );
                    assert(cpred(ext.last()));
                    assert(ext.filter(cpred) == pre.filter(cpred).push(self.messages@[i as int]));
                    assert(creation_sorted(mapped_new)) by {
                        assert forall|k1: int, k2: int|
                            0 <= k1 < k2 < mapped_new.len() implies (#[trigger] mapped_new[k1]).created_at
                            <= (#[trigger] mapped_new[k2]).created_at by {
                            if k2 < j {
                            } else if k1 < j && k2 == j {
                                assert(mapped_old[k1] == mapped_new[k1]);
                            } else if k1 < j && k2 > j {
                                assert(mapped_new[k2] == mapped_old[k2 - 1]);
                            } else if k1 == j {
                                assert(mapped_new[k2] == mapped_old[k2 - 1]);
                                if (j as int) < old_idxs.len() {
                                    assert(mapped_old[j as int].created_at > key);
                                }
                            } else {
                                assert(mapped_new[k1] == mapped_old[k1 - 1]);
                                assert(mapped_new[k2] == mapped_old[k2 - 1]);
                            }
                        }
                    }
                }
            } else {
                proof {
                    reveal(Seq::filter);
                    assert(!cpred(ext.last()));
                    assert(ext.filter(cpred) == pre.filter(cpred));
                }
            }
            i = i + 1;
        }
        proof {
            assert(self.messages@.subrange(0, self.messages@.len() as int) =~= self.messages@);
        }
        idxs
    }

    /// Lists one page of the chat's messages as the viewer sees them at time
    /// `now`: the chat's messages oldest first, up to one hundred of them,
    /// with those whose lifetime has passed filtered out of the page though
    /// they remain in storage. Deleted and viewed view-once messages appear
    /// redacted. An absent chat is not found; an existing chat the viewer
    /// does not belong to is off limits.
    pub fn list_messages(&self, chat_id: u64, viewer: u64, now: i64) -> (r: Result<
        Vec<MessageResponse>,
        EngineError,
    >)
        ensures
            match r {
                Ok(out) => {
                    &&& chat_for(self.chats@, chat_id) is Some
                    &&& chat_for(self.chats@, chat_id)->Some_0.participants@.contains(viewer)
                    &&& exists|sorted: Seq<Message>|
                        #![trigger sorted.to_multiset()]
                        {
                            let vis = sorted.subrange(0, page_of(sorted.len() as int)).filter(
                                not_expired(now),
                            );
                            &&& sorted.to_multiset() == self.messages@.filter(
                                in_chat(chat_id),
                            ).to_multiset()
                            &&& creation_sorted(sorted)
                            &&& out@.len() == vis.len()
                            &&& (forall|k: int|
                                0 <= k < vis.len() ==> message_view_ok(
                                    vis[k],
                                    viewer,
                                    self.profiles@,
                                    self.messages@,
                                    #[trigger] out@[k],
                                ))
                            &&& (forall|k: int|
                                0 <= k < vis.len() ==> !spec_is_expired(#[trigger] vis[k], now))
                        }
                    &&& forall|k1: int, k2: int|
                        0 <= k1 < k2 < out@.len() ==> (#[trigger] out@[k1]).created_at
                            <= (#[trigger] out@[k2]).created_at
                },
                Err(e) => if chat_for(self.chats@, chat_id) is None {
                    e == EngineError::NotFound
                } else {
                    &&& e == EngineError::Forbidden
                    &&& !chat_for(self.chats@, chat_id)->Some_0.participants@.contains(viewer)
                },
            },
    {
        let ci = match self.find_chat(chat_id) {
            Some(ci) => ci,
            None => { return Err(EngineError::NotFound) },
        };
        if !crate::model::contains_u64(&self.chats[ci].participants, viewer) {
            return Err(EngineError::Forbidden);
        }
        let idxs = self.sorted_message_indices(chat_id);
        let page = if idxs.len() > 100 {
            100
        } else {
            idxs.len()
        };
        let ghost sorted = messages_at(self.messages@, idxs@);
        let mut out: Vec<MessageResponse> = Vec::new();
        let mut k: usize = 0;
        proof {
            reveal(Seq::filter);
            assert(sorted.subrange(0, 0).filter(not_expired(now)) =~= Seq::<Message>::empty());
        }
        while k < page
            invariant
                k <= page,
                page == page_of(idxs@.len() as int),
                page <= idxs@.len(),
                sorted == messages_at(self.messages@, idxs@),
                forall|j: int| 0 <= j < idxs@.len() ==> (#[trigger] idxs@[j]) < self.messages@.len(),
                out@.len() == sorted.subrange(0, k as int).filter(not_expired(now)).len(),
                forall|j: int|
                    0 <= j < out@.len() ==> message_view_ok(
                        sorted.subrange(0, k as int).filter(not_expired(now))[j],
                        viewer,
                        self.profiles@,
                        self.messages@,
                        #[trigger] out@[j],
                    ),
            decreases page - k,
        {
            let ghost spre = sorted.subrange(0, k as int);
            let ghost sext = sorted.subrange(0, k + 1);
            proof {
                reveal(Seq::filter);
                assert(sext.drop_last() =~= spre);
                assert(sext.last() == sorted[k as int]);
                assert(sorted[k as int] == self.messages@[idxs@[k as int] as int]);
            }
            let m = &self.messages[idxs[k]];
            let expired = m.state(now) == MessageState::Expired;
            proof {
                assert(expired == spec_is_expired(sorted[k as int], now)) by {
                    assert(spec_message_state(sorted[k as int], now) == MessageState::Expired
                        <==> spec_is_expired(sorted[k as int], now));
                }
            }
            if !expired {
                let rendered = self.render_message(m, viewer);
                out.push(rendered);
                proof {
                    let np = not_expired(now);
                    assert(np(sext.last()));
                    assert(sext.filter(np) == spre.filter(np).push(sorted[k as int]));
                }
            } else {
                proof {
                    let np = not_expired(now);
                    assert(!np(sext.last()));
                    assert(sext.filter(np) == spre.filter(np));
                }
            }
            k = k + 1;
        }
        proof {
            reveal(Seq::filter);
            let np = not_expired(now);
            assert(sorted.subrange(0, page as int) =~= sorted.subrange(0, page_of(
                sorted.len() as int,
            )));
            let vis = sorted.subrange(0, page_of(sorted.len() as int)).filter(np);
            assert forall|k2: int| 0 <= k2 < vis.len() implies !spec_is_expired(
                #[trigger] vis[k2],
                now,
            ) by {
                sorted.subrange(0, page_of(sorted.len() as int)).lemma_filter_pred(np, k2);
            }
            let prefix = sorted.subrange(0, page as int);
            assert(creation_sorted(prefix)) by {
                assert(forall|j: int| 0 <= j < prefix.len() ==> prefix[j] == sorted[j]);
            }
            lemma_filter_creation_sorted(prefix, np);
            assert forall|k1: int, k2: int|
                0 <= k1 < k2 < out@.len() implies (#[trigger] out@[k1]).created_at
                <= (#[trigger] out@[k2]).created_at by {
                assert(out@[k1].created_at == vis[k1].created_at);
                assert(out@[k2].created_at == vis[k2].created_at);
            }
        }
        Ok(out)
    }
}

} // verus!
