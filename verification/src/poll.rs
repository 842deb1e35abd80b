//! Poll voting: a toggle per (user, option), with single-choice polls keeping
//! at most one vote per user by clearing the user's other votes first.

use vstd::prelude::*;
use crate::model::{Message, Poll, PollOption, RichPayload};
use crate::store::{EngineError, Store};

verus! {

/// The predicate a voter must satisfy to survive removal of `user`.
pub open spec fn keeps_voter(user: u64) -> spec_fn(u64) -> bool {
    |v: u64| v != user
}

/// The voters left after removing `user`.
pub open spec fn remove_voter(vs: Seq<u64>, user: u64) -> Seq<u64> {
    vs.filter(keeps_voter(user))
}

/// Removal leaves no trace of the user.
pub proof fn lemma_remove_voter(vs: Seq<u64>, user: u64)
    ensures
        !remove_voter(vs, user).contains(user),
{
    let pred = keeps_voter(user);
    if remove_voter(vs, user).contains(user) {
        let k = choose|k: int|
            0 <= k < vs.filter(pred).len() && vs.filter(pred)[k] == user;
        vs.lemma_filter_pred(pred, k);
    }
}

/// Removing an absent voter changes nothing.
pub proof fn lemma_remove_voter_absent(vs: Seq<u64>, user: u64)
    requires
        !vs.contains(user),
    ensures
        remove_voter(vs, user) == vs,
    decreases vs.len(),
{
    reveal(Seq::filter);
    let pred = keeps_voter(user);
    if vs.len() == 0 {
        assert(vs.filter(pred) =~= vs);
    } else {
        let dl = vs.drop_last();
        assert(!dl.contains(user)) by {
            if dl.contains(user) {
                let j = choose|j: int| 0 <= j < dl.len() && dl[j] == user;
                assert(vs[j] == user);
            }
        }
        lemma_remove_voter_absent(dl, user);
        assert(pred(vs.last())) by {
            assert(vs[vs.len() - 1] == vs.last());
            if vs.last() == user {
                assert(vs.contains(user));
            }
        }
        assert(vs.filter(pred) == dl.filter(pred).push(vs.last()));
        assert(dl.push(vs.last()) =~= vs);
    }
}

/// How one vote call changes the option list: a vote on an option the user
/// already voted for removes it; otherwise the vote is added, and on a
/// single-choice poll the user's votes on every other option are cleared
/// first.
pub open spec fn vote_toggled(
    old_opts: Seq<PollOption>,
    new_opts: Seq<PollOption>,
    user: u64,
    oi: int,
    is_multiple: bool,
) -> bool {
    &&& new_opts.len() == old_opts.len()
    &&& forall|j: int|
        0 <= j < old_opts.len() ==> #[trigger] new_opts[j] == (PollOption {
            voter_ids: new_opts[j].voter_ids,
            ..old_opts[j]
        })
    &&& if old_opts[oi].voter_ids@.contains(user) {
        &&& new_opts[oi].voter_ids@ == remove_voter(old_opts[oi].voter_ids@, user)
        &&& forall|j: int| 0 <= j < old_opts.len() && j != oi ==> new_opts[j] == old_opts[j]
    } else if is_multiple {
        &&& new_opts[oi].voter_ids@ == old_opts[oi].voter_ids@.push(user)
        &&& forall|j: int| 0 <= j < old_opts.len() && j != oi ==> new_opts[j] == old_opts[j]
    } else {
        &&& new_opts[oi].voter_ids@ == remove_voter(old_opts[oi].voter_ids@, user).push(user)
        &&& forall|j: int|
            0 <= j < old_opts.len() && j != oi ==> #[trigger] new_opts[j].voter_ids@
                == remove_voter(old_opts[j].voter_ids@, user)
    }
}

/// On a single-choice poll, voting for one option and then for another leaves
/// the user's vote on the second option alone: after the two calls the user
/// appears among the voters of the second option and of no other.
pub proof fn lemma_vote_exclusive(
    o0: Seq<PollOption>,
    o1: Seq<PollOption>,
    o2: Seq<PollOption>,
    user: u64,
    first_choice: int,
    second_choice: int,
)
    requires
        0 <= first_choice < o0.len(),
        0 <= second_choice < o0.len(),
        first_choice != second_choice,
        forall|j: int| 0 <= j < o0.len() ==> !(#[trigger] o0[j].voter_ids@.contains(user)),
        vote_toggled(o0, o1, user, first_choice, false),
        vote_toggled(o1, o2, user, second_choice, false),
    ensures
        o2[second_choice].voter_ids@.contains(user),
        forall|j: int|
            0 <= j < o2.len() && j != second_choice ==> !(#[trigger] o2[j].voter_ids@.contains(
                user,
            )),
{
    assert(!o0[first_choice].voter_ids@.contains(user));
    assert(o1[first_choice].voter_ids@ == remove_voter(o0[first_choice].voter_ids@, user).push(
        user,
    ));
    assert(!o1[second_choice].voter_ids@.contains(user)) by {
        assert(o1[second_choice].voter_ids@ == remove_voter(o0[second_choice].voter_ids@, user));
        lemma_remove_voter(o0[second_choice].voter_ids@, user);
    }
    assert(o2[second_choice].voter_ids@ == remove_voter(o1[second_choice].voter_ids@, user).push(
        user,
    ));
    assert(o2[second_choice].voter_ids@.contains(user)) by {
        let vs = o2[second_choice].voter_ids@;
        assert(vs[vs.len() - 1] == user);
    }
    assert forall|j: int| 0 <= j < o2.len() && j != second_choice implies !(
    #[trigger] o2[j].voter_ids@.contains(user)) by {
        assert(o2[j].voter_ids@ == remove_voter(o1[j].voter_ids@, user));
        lemma_remove_voter(o1[j].voter_ids@, user);
    }
}

/// The voters of `vs` without `user`, executably.
fn remove_voter_vec(vs: &Vec<u64>, user: u64) -> (out: Vec<u64>)
    ensures
        out@ == remove_voter(vs@, user),
{
    let mut out: Vec<u64> = Vec::new();
    let mut i: usize = 0;
    proof {
        reveal(Seq::filter);
        assert(vs@.subrange(0, 0).filter(keeps_voter(user)) =~= Seq::<u64>::empty());
    }
    while i < vs.len()
        invariant
            i <= vs@.len(),
            out@ == vs@.subrange(0, i as int).filter(keeps_voter(user)),
        decreases vs@.len() - i,
    {
        if vs[i] != user {
            out.push(vs[i]);
        }
        proof {
            reveal(Seq::filter);
            let pre = vs@.subrange(0, i as int);
            let ext = vs@.subrange(0, i + 1);
            assert(ext.drop_last() =~= pre);
            assert(ext.last() == vs@[i as int]);
            assert(out@ =~= ext.filter(keeps_voter(user)));
        }
        i = i + 1;
    }
    proof {
        assert(vs@.subrange(0, vs@.len() as int) =~= vs@);
    }
    out
}

impl Store {
    /// Casts or withdraws a vote on the poll carried by the message with the
    /// given id. Rejected as not-found when no such message exists, and as a
    /// bad request when the message carries no poll, the poll is closed, or
    /// the option index is out of range; in every rejected case the store is
    /// untouched.
    pub fn vote_poll(&mut self, msg_id: u64, user: u64, option_index: usize) -> (r: Result<
        (),
        EngineError,
    >)
        requires
            old(self).wf(),
        ensures
            final(self).wf(),
            final(self).chats@ == old(self).chats@,
            final(self).notifications@ == old(self).notifications@,
            final(self).profiles@ == old(self).profiles@,
            final(self).next_id == old(self).next_id,
            match r {
                Ok(()) => exists|i: int|
                    {
                        &&& 0 <= i < old(self).messages@.len()
                        &&& old(self).messages@[i].id == msg_id
                        &&& old(self).messages@[i].payload is Poll
                        &&& !old(self).messages@[i].payload->Poll_0.is_closed
                        &&& option_index < old(self).messages@[i].payload->Poll_0.options@.len()
                        &&& final(self).messages@.len() == old(self).messages@.len()
                        &&& (forall|k: int|
                            0 <= k < old(self).messages@.len() && k != i
                                ==> final(self).messages@[k] == old(self).messages@[k])
                        &&& final(self).messages@[i] == (Message {
                            payload: final(self).messages@[i].payload,
                            ..old(self).messages@[i]
                        })
                        &&& final(self).messages@[i].payload is Poll
                        &&& final(self).messages@[i].payload->Poll_0 == (Poll {
                            options: final(self).messages@[i].payload->Poll_0.options,
                            ..old(self).messages@[i].payload->Poll_0
                        })
                        &&& vote_toggled(
                            old(self).messages@[i].payload->Poll_0.options@,
                            final(self).messages@[i].payload->Poll_0.options@,
                            user,
                            option_index as int,
                            old(self).messages@[i].payload->Poll_0.is_multiple,
                        )
                    },
                Err(e) => {
                    &&& *final(self) == *old(self)
                    &&& if e == EngineError::NotFound {
                        forall|j: int|
                            0 <= j < old(self).messages@.len() ==> old(self).messages@[j].id
                                != msg_id
                    } else {
                        &&& e == EngineError::BadRequest
                        &&& exists|i: int|
                            {
                                &&& 0 <= i < old(self).messages@.len()
                                &&& old(self).messages@[i].id == msg_id
                                &&& match old(self).messages@[i].payload {
                                    RichPayload::Poll(p) => p.is_closed || option_index
                                        >= p.options@.len(),
                                    _ => true,
                                }
                            }
                    }
                },
            },
    {
        let found = self.find_message(msg_id);
        let idx = match found {
            Some(idx) => idx,
            None => { return Err(EngineError::NotFound) },
        };
        let ghost i = idx as int;
        let ghost old_msgs = self.messages@;
        match &self.messages[idx].payload {
            RichPayload::Poll(p) => {
                if p.is_closed {
                    return Err(EngineError::BadRequest);
                }
                if option_index >= p.options.len() {
                    return Err(EngineError::BadRequest);
                }
            },
            _ => { return Err(EngineError::BadRequest) },
        }
        let mut msg = self.messages.remove(idx);
        if let RichPayload::Poll(poll) = msg.payload {
            let Poll { question, options, is_multiple, is_closed, created_at } = poll;
            let ghost old_opts = options@;
            let new_options = toggle_vote_options(options, user, option_index, is_multiple);
            msg.payload = RichPayload::Poll(
                Poll { question, options: new_options, is_multiple, is_closed, created_at },
            );
            let ghost gmsg = msg;
            self.messages.insert(idx, msg);
            proof {
                assert(self.messages@ =~= old_msgs.update(i, gmsg));
                assert(gmsg == (Message { payload: gmsg.payload, ..old_msgs[i] }));
                assert(forall|k: int| 0 <= k < self.messages@.len() ==> self.messages@[k].wf());
                assert(old_msgs[i].payload is Poll);
                assert(gmsg.payload is Poll);
                assert(old_msgs[i].payload->Poll_0.options@ == old_opts);
                assert(gmsg.payload->Poll_0 == (Poll {
                    options: gmsg.payload->Poll_0.options,
                    ..old_msgs[i].payload->Poll_0
                }));
                assert(vote_toggled(
                    old_msgs[i].payload->Poll_0.options@,
                    gmsg.payload->Poll_0.options@,
                    user,
                    option_index as int,
                    old_msgs[i].payload->Poll_0.is_multiple,
                ));
                assert(self.messages@[i] == gmsg);
                assert(forall|k: int|
                    0 <= k < old_msgs.len() && k != i ==> self.messages@[k] == old_msgs[k]);
            }
            Ok(())
        } else {
            proof {
                assert(false);
            }
            Err(EngineError::BadRequest)
        }
    }
}

/// Applies the vote toggle to an option list.
fn toggle_vote_options(options: Vec<PollOption>, user: u64, oi: usize, is_multiple: bool) -> (out:
    Vec<PollOption>)
    requires
        oi < options@.len(),
    ensures
        vote_toggled(options@, out@, user, oi as int, is_multiple),
{
    let ghost old_opts = options@;
    let mut options = options;
    let me_in = crate::model::contains_u64(&options[oi].voter_ids, user);
    if me_in {
        let mut opt = options.remove(oi);
        opt.voter_ids = remove_voter_vec(&opt.voter_ids, user);
        let ghost gopt = opt;
        options.insert(oi, opt);
        proof {
            assert(options@ =~= old_opts.update(oi as int, gopt));
        }
        options
    } else if is_multiple {
        let mut opt = options.remove(oi);
        opt.voter_ids.push(user);
        let ghost gopt = opt;
        options.insert(oi, opt);
        proof {
            assert(options@ =~= old_opts.update(oi as int, gopt));
            assert(gopt.voter_ids@ =~= old_opts[oi as int].voter_ids@.push(user));
        }
        options
    } else {
        let mut out: Vec<PollOption> = Vec::new();
        let mut j: usize = 0;
        while j < options.len()
            invariant
                options@ == old_opts,
                oi < old_opts.len(),
                j <= old_opts.len(),
                out@.len() == j,
                forall|k: int|
                    0 <= k < j ==> #[trigger] out@[k] == (PollOption {
                        voter_ids: out@[k].voter_ids,
                        ..old_opts[k]
                    }),
                forall|k: int|
                    0 <= k < j && k != oi ==> #[trigger] out@[k].voter_ids@ == remove_voter(
                        old_opts[k].voter_ids@,
                        user,
                    ),
                j > oi ==> out@[oi as int].voter_ids@ == remove_voter(
                    old_opts[oi as int].voter_ids@,
                    user,
                ).push(user),
            decreases old_opts.len() - j,
        {
            let mut ids = remove_voter_vec(&options[j].voter_ids, user);
            if j == oi {
                ids.push(user);
            }
            out.push(PollOption { text: options[j].text.clone(), voter_ids: ids });
            j = j + 1;
        }
        out
    }
}

/// A vote on one option of a poll.
pub struct VoteRequest {
    pub option_index: usize,
}

} // verus!
