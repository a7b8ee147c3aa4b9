use vstd::prelude::*;

use crate::rss3::arithmetic::RSS3_arithmetic;
use crate::rss3::arithmetic::pair_value;
use crate::rss3::arithmetic::is_arith_sharing;
use crate::rss3::arithmetic::lemma_pair_reconstructs;
use crate::rss3::arithmetic::ring;
use crate::rss3::arithmetic::RSS3Share_arithmetic;
use crate::share_storage::ShareStorage;

use std::collections::HashSet;

verus! {

broadcast use vstd::std_specs::hash::group_hash_axioms;

/// The decimal digit `c` stands for, when it is one of `'0'..='9'`.
pub open spec fn is_decimal_digit(c: char) -> bool {
    '0' <= c && c <= '9'
}

/// The number written by a string of decimal digits.
pub open spec fn decimal_value(digits: Seq<char>) -> int
    decreases digits.len(),
{
    if digits.len() == 0 {
        0
    } else {
        decimal_value(digits.drop_last()) * 10 + (digits.last() as int - '0' as int)
    }
}

/// What parsing `s` as an `i32` gives: an optional `+` or `-` sign followed by one or
/// more decimal digits, whose value fits in an `i32`; anything else is rejected.
pub open spec fn parse_i32_spec(s: Seq<char>) -> Option<i32> {
    let negative = s.len() > 0 && s[0] == '-';
    let signed = s.len() > 0 && (s[0] == '-' || s[0] == '+');
    let digits = if signed { s.drop_first() } else { s };
    let magnitude = decimal_value(digits);
    let value = if negative { -magnitude } else { magnitude };
    if digits.len() > 0 && (forall|i: int| 0 <= i < digits.len() ==> is_decimal_digit(#[trigger] digits[i]))
        && i32::MIN <= value <= i32::MAX {
        Some(value as i32)
    } else {
        None
    }
}

/// Parses `s` with `str::parse::<i32>`, discarding the error. The standard library documents
/// the accepted form as an optional `+` or `-` followed by decimal digits only, with values
/// outside the range of `i32` rejected; this contract states exactly that.
#[verifier::external_body]
fn parse_i32(s: &str) -> (r: Option<i32>)
    ensures
        r == parse_i32_spec(s@),
{
    s.parse::<i32>().ok()
}

/// The integer `s` stands for, or 0 when it is not an `i32` in decimal.
pub open spec fn string2int_spec(s: Seq<char>) -> i32 {
    match parse_i32_spec(s) {
        Some(v) => v,
        None => 0,
    }
}

/// The integer a party id string stands for, or 0 when it is not an `i32` in decimal.
pub fn string2int(s: String) -> (r: i32)
    ensures
        r == string2int_spec(s@),
{
    match parse_i32(s.as_str()) {
        Some(v) => v,
        None => 0,
    }
}

/// The secret for `(protocol_id, step_id)` once the shares of parties 0 and 1 are both
/// stored, reconstructed from those two shares; `None` while either is missing.
pub fn reconstruct_stored_secret(storage: &ShareStorage, protocol_id: u32, step_id: u32) -> (r: Option<u64>)
    ensures
        r == (if storage@.contains_key((protocol_id, step_id, 0)) && storage@.contains_key(
            (protocol_id, step_id, 1),
        ) {
            Some(pair_value(storage@[(protocol_id, step_id, 0)], storage@[(protocol_id, step_id, 1)]) as u64)
        } else {
            None
        }),
        forall|sh: [RSS3Share_arithmetic; 3], s: int|
            #[trigger] is_arith_sharing(sh, s) && storage@.contains_key((protocol_id, step_id, 0))
                && storage@.contains_key((protocol_id, step_id, 1))
                && storage@[(protocol_id, step_id, 0)] == sh[0].shares
                && storage@[(protocol_id, step_id, 1)] == sh[1].shares ==> r == Some((s % ring()) as u64),
{
    proof {
        assert forall|sh: [RSS3Share_arithmetic; 3], s: int|
            #[trigger] is_arith_sharing(sh, s) && storage@.contains_key((protocol_id, step_id, 0))
                && storage@.contains_key((protocol_id, step_id, 1))
                && storage@[(protocol_id, step_id, 0)] == sh[0].shares
                && storage@[(protocol_id, step_id, 1)] == sh[1].shares
            implies pair_value(storage@[(protocol_id, step_id, 0)], storage@[(protocol_id, step_id, 1)]) == s % ring() by {
            lemma_pair_reconstructs(sh, s);
        }
    }
    let share0 = storage.get_share(protocol_id, step_id, 0);
    let share1 = storage.get_share(protocol_id, step_id, 1);
    match (share0, share1) {
        (Some(s0), Some(s1)) => Some(RSS3_arithmetic::reconstruct_fromS0andS1(s0, s1)),
        _ => None,
    }
}

/// The send that party `party_id` still owes party `i`: party `i`'s share, unless `i` is
/// `party_id` itself or is in `done`.
pub open spec fn pending_one(party_id: usize, shares: [RSS3Share_arithmetic; 3], done: Set<usize>, i: usize) -> Seq<(usize, (u64, u64))> {
    if i != party_id && !done.contains(i) {
        seq![(i, shares[i as int].shares)]
    } else {
        Seq::empty()
    }
}

/// The sends party `party_id` still owes, to parties 0, 1, 2 in that order.
pub open spec fn pending_spec(party_id: usize, shares: [RSS3Share_arithmetic; 3], done: Set<usize>) -> Seq<(usize, (u64, u64))> {
    pending_one(party_id, shares, done, 0) + pending_one(party_id, shares, done, 1) + pending_one(party_id, shares, done, 2)
}

/// What the pending sends are: party `i` of 0, 1, 2 is listed exactly when it is not
/// `party_id` and not in `done`; each listed party comes with its own share; and the parties
/// appear in increasing order, each at most once.
pub proof fn lemma_pending_sends(party_id: usize, shares: [RSS3Share_arithmetic; 3], done: Set<usize>)
    ensures
        forall|i: usize|
            i < 3 ==> (#[trigger] pending_spec(party_id, shares, done).contains((i, shares[i as int].shares))
                <==> (i != party_id && !done.contains(i))),
        forall|j: int|
            0 <= j < pending_spec(party_id, shares, done).len() ==> {
                let e = #[trigger] pending_spec(party_id, shares, done)[j];
                &&& e.0 < 3
                &&& e.0 != party_id
                &&& !done.contains(e.0)
                &&& e.1 == shares[e.0 as int].shares
            },
        forall|j: int, k: int|
            0 <= j < k < pending_spec(party_id, shares, done).len() ==> pending_spec(party_id, shares, done)[j].0
                < pending_spec(party_id, shares, done)[k].0,
{
    let p0 = pending_one(party_id, shares, done, 0);
    let p1 = pending_one(party_id, shares, done, 1);
    let p2 = pending_one(party_id, shares, done, 2);
    let r = pending_spec(party_id, shares, done);
    assert(r == p0 + p1 + p2);
    assert forall|j: int| 0 <= j < r.len() implies {
        &&& r[j].0 < 3
        &&& r[j].0 != party_id
        &&& !done.contains(r[j].0)
        &&& r[j].1 == shares[r[j].0 as int].shares
        &&& (r[j].0 == 0 ==> j == 0)
        &&& (r[j].0 == 1 ==> j == p0.len())
        &&& (r[j].0 == 2 ==> j == p0.len() + p1.len())
    } by {
        if j < p0.len() {
            assert(r[j] == p0[j]);
        } else if j < p0.len() + p1.len() {
            assert(r[j] == p1[j - p0.len()]);
        } else {
            assert(r[j] == p2[j - p0.len() - p1.len()]);
        }
    }
    assert forall|i: usize| i < 3 implies (#[trigger] r.contains((i, shares[i as int].shares))
        <==> (i != party_id && !done.contains(i))) by {
        if i != party_id && !done.contains(i) {
            let j: int = if i == 0 { 0 } else if i == 1 { p0.len() as int } else { (p0.len() + p1.len()) as int };
            if i == 0 {
                assert(r[0] == p0[0]);
            } else if i == 1 {
                assert(r[j] == p1[0]);
            } else {
                assert(r[j] == p2[0]);
            }
            assert(r[j] == (i, shares[i as int].shares));
        }
        if r.contains((i, shares[i as int].shares)) {
            let j = choose|j: int| 0 <= j < r.len() && r[j] == (i, shares[i as int].shares);
            assert(r[j].0 == i);
        }
    }
}

/// The parties (other than `party_id`) that `done` does not list yet, each with the share
/// meant for it, in increasing order of party.
pub fn pending_sends(party_id: usize, shares: &[RSS3Share_arithmetic; 3], done: &HashSet<usize>) -> (r: Vec<(usize, (u64, u64))>)
    ensures
        r@ == pending_spec(party_id, *shares, done@),
        forall|i: usize| i < 3 ==> (#[trigger] r@.contains((i, shares[i as int].shares)) <==> (i != party_id && !done@.contains(i))),
        forall|j: int|
            0 <= j < r.len() ==> {
                &&& (#[trigger] r[j]).0 < 3
                &&& r[j].0 != party_id
                &&& !done@.contains(r[j].0)
                &&& r[j].1 == shares[r[j].0 as int].shares
            },
        forall|j: int, k: int| 0 <= j < k < r.len() ==> r[j].0 < r[k].0,
{
    proof {
        lemma_pending_sends(party_id, *shares, done@);
    }
    let mut r: Vec<(usize, (u64, u64))> = Vec::new();
    if 0 != party_id && !done.contains(&0) {
        r.push((0, shares[0].shares));
    }
    let ghost r0 = r@;
    if 1 != party_id && !done.contains(&1) {
        r.push((1, shares[1].shares));
    }
    let ghost r1 = r@;
    if 2 != party_id && !done.contains(&2) {
        r.push((2, shares[2].shares));
    }
    proof {
        assert(r0 =~= pending_one(party_id, *shares, done@, 0));
        assert(r1 =~= r0 + pending_one(party_id, *shares, done@, 1));
        assert(r@ =~= r1 + pending_one(party_id, *shares, done@, 2));
    }
    r
}

/// Whether the distributing party still has shares to hand out: only party 0 distributes,
/// and it is done once two parties have acknowledged.
pub fn distribution_pending(party_id: usize, acked: &HashSet<usize>) -> (r: bool)
    ensures
        r == (party_id == 0 && acked@.len() < 2),
{
    party_id == 0 && acked.len() < 2
}

/// What a party has seen while exchanging shares with the others: the senders it received
/// shares from, the senders it acknowledged, and the parties that acknowledged its shares.
pub struct ExchangeState {
    pub received_shares: HashSet<usize>,
    pub sent_acks: HashSet<usize>,
    pub sent_success: HashSet<usize>,
}

/// The sender id a received share is recorded under: the sender's address read as an
/// integer, plus its party id.
pub open spec fn received_id(from_ip: Seq<char>, from_party_id: i32) -> int {
    (string2int_spec(from_ip) as usize) + (from_party_id as usize)
}

impl ExchangeState {
    /// Nothing seen yet.
    pub fn new() -> (st: Self)
        ensures
            st.received_shares@ == Set::<usize>::empty(),
            st.sent_acks@ == Set::<usize>::empty(),
            st.sent_success@ == Set::<usize>::empty(),
    {
        ExchangeState { received_shares: HashSet::new(), sent_acks: HashSet::new(), sent_success: HashSet::new() }
    }

    /// Handle a message. For protocol 1, step 0 (a share) the share is stored under the
    /// sender's party id, the sender is recorded as received, and the party to acknowledge
    /// is returned. For protocol 1, step 1 (an acknowledgement) the sender's address is
    /// recorded as having received our share. Any other message changes nothing.
    pub fn on_message(
        &mut self,
        storage: &mut ShareStorage,
        protocol: i32,
        step: i32,
        from_ip: &String,
        from_party_id: i32,
        share: (u64, u64),
    ) -> (ack_to: Option<i32>)
        requires
            protocol == 1 && step == 0 ==> received_id(from_ip@, from_party_id) <= usize::MAX,
        ensures
            protocol == 1 && step == 0 ==> {
                &&& final(self).received_shares@ == old(self).received_shares@.insert(received_id(from_ip@, from_party_id) as usize)
                &&& final(storage)@ == old(storage)@.insert((1, 0, from_party_id as u32), share)
                &&& final(self).sent_success@ == old(self).sent_success@
                &&& ack_to == Some(from_party_id)
            },
            protocol == 1 && step == 1 ==> {
                &&& final(self).sent_success@ == old(self).sent_success@.insert(string2int_spec(from_ip@) as usize)
                &&& final(self).received_shares@ == old(self).received_shares@
                &&& final(storage)@ == old(storage)@
                &&& ack_to is None
            },
            !(protocol == 1 && (step == 0 || step == 1)) ==> {
                &&& final(self).received_shares@ == old(self).received_shares@
                &&& final(self).sent_success@ == old(self).sent_success@
                &&& final(storage)@ == old(storage)@
                &&& ack_to is None
            },
            final(self).sent_acks@ == old(self).sent_acks@,
    {
        if protocol == 1 {
            if step == 0 {
                let sender = string2int(from_ip.clone()) as usize + from_party_id as usize;
                self.received_shares.insert(sender);
                storage.store_share(1, 0, from_party_id as u32, share);
                return Some(from_party_id);
            } else if step == 1 {
                let acker = string2int(from_ip.clone()) as usize;
                self.sent_success.insert(acker);
            }
        }
        None
    }

    /// Record that our share reached party `to`.
    pub fn on_share_delivered(&mut self, to: usize)
        ensures
            final(self).sent_success@ == old(self).sent_success@.insert(to),
            final(self).received_shares@ == old(self).received_shares@,
            final(self).sent_acks@ == old(self).sent_acks@,
    {
        self.sent_success.insert(to);
    }

    /// Record that the acknowledgement to the sender at `from_ip` was delivered.
    pub fn on_ack_delivered(&mut self, from_ip: &String)
        ensures
            final(self).sent_acks@ == old(self).sent_acks@.insert(string2int_spec(from_ip@) as usize),
            final(self).received_shares@ == old(self).received_shares@,
            final(self).sent_success@ == old(self).sent_success@,
    {
        let acked = string2int(from_ip.clone()) as usize;
        self.sent_acks.insert(acked);
    }

    /// The exchange is over once shares came from two senders and two parties acknowledged ours.
    pub fn finished(&self) -> (r: bool)
        ensures
            r == (self.received_shares@.len() >= 2 && self.sent_success@.len() >= 2),
    {
        self.received_shares.len() >= 2 && self.sent_success.len() >= 2
    }
}

} // verus!
