use vstd::prelude::*;
use crate::contacts::{Contact, contact_pairs};

verus! {

/// How far back a first fetch looks: seven days, in seconds.
pub const DEFAULT_LOOKBACK_SECS: u64 = 60 * 60 * 24 * 7;

/// The user's settings: signing key, relays, explicit contacts and the time
/// of the last successful fetch.
#[derive(Debug, Clone)]
pub struct Config {
    pub key: String,
    pub relays: Vec<String>,
    pub contacts: Vec<(String, String)>,
    pub last_login: Option<u64>,
}

/// The checkpoint that posts are fetched from: the last login, or seven
/// days before `now` when there was none.
pub open spec fn checkpoint(last_login: Option<u64>, now: u64) -> u64 {
    match last_login {
        Some(t) => t,
        None => if now >= DEFAULT_LOOKBACK_SECS {
            (now - DEFAULT_LOOKBACK_SECS) as u64
        } else {
            0
        },
    }
}

pub open spec fn pair_texts(pairs: Seq<(String, String)>) -> Seq<(Seq<char>, Seq<char>)> {
    pairs.map_values(|p: (String, String)| (p.0@, p.1@))
}

/// Relies on chrono::Utc::now, the current time as seconds since the epoch
/// (`timestamp`); nothing is stated of it. chrono panics here only when the
/// system clock is set before 1970.
#[verifier::external_body]
fn now_secs() -> (r: i64) {
    chrono::Utc::now().timestamp()
}

/// The current time in seconds since the epoch, zero before it.
fn current_time() -> (r: u64) {
    let t = now_secs();
    if t < 0 {
        0
    } else {
        t as u64
    }
}

impl Config {
    /// The checkpoint to fetch from, at time `now`.
    pub fn checkpoint_at(&self, now: u64) -> (r: u64)
        ensures
            r == checkpoint(self.last_login, now),
    {
        match self.last_login {
            Some(t) => t,
            None => now.saturating_sub(DEFAULT_LOOKBACK_SECS),
        }
    }

    /// The checkpoint to fetch from, now.
    pub fn get_last_login(&self) -> (r: u64)
        ensures
            self.last_login.is_some() ==> r == self.last_login.unwrap(),
            self.last_login.is_none() ==> exists|now: u64| r == checkpoint(None, now),
    {
        let now = current_time();
        self.checkpoint_at(now)
    }

    /// Records `now` as the time of the last successful fetch.
    pub fn record_login(&mut self, now: u64)
        ensures
            final(self).last_login == Some(now),
            final(self).key == old(self).key,
            final(self).relays == old(self).relays,
            final(self).contacts == old(self).contacts,
    {
        self.last_login = Some(now);
    }

    /// Records the current time as the time of the last successful fetch.
    pub fn update_last_login(&mut self)
        ensures
            final(self).last_login.is_some(),
            final(self).key == old(self).key,
            final(self).relays == old(self).relays,
            final(self).contacts == old(self).contacts,
    {
        let now = current_time();
        self.record_login(now);
    }

    /// Keeps discovered contacts when none were configured; an explicit list
    /// is never replaced.
    pub fn adopt_contacts(&mut self, discovered: &Vec<Contact>)
        ensures
            final(self).key == old(self).key,
            final(self).relays == old(self).relays,
            final(self).last_login == old(self).last_login,
            old(self).contacts@.len() == 0 ==> pair_texts(final(self).contacts@) == contact_pairs(
                discovered@,
            ),
            old(self).contacts@.len() > 0 ==> final(self).contacts == old(self).contacts,
    {
        if self.contacts.len() == 0 {
            let mut pairs: Vec<(String, String)> = Vec::new();
            let mut i: usize = 0;
            while i < discovered.len()
                invariant
                    i <= discovered@.len(),
                    pairs@.len() == i,
                    pair_texts(pairs@) == contact_pairs(discovered@.subrange(0, i as int)),
                decreases discovered@.len() - i,
            {
                let ghost before = pairs@;
                let pair = discovered[i].to_string_tuple();
                pairs.push(pair);
                assert forall|j: int| 0 <= j < i implies pair_texts(pairs@)[j] == contact_pairs(
                    discovered@.subrange(0, i + 1),
                )[j] by {
                    assert(pairs@[j] == before[j]);
                    assert(pair_texts(before)[j] == contact_pairs(discovered@.subrange(0, i as int))[j]);
                }
                assert(pair_texts(pairs@)[i as int] == contact_pairs(discovered@.subrange(0, i + 1))[i as int]);
                assert(pair_texts(pairs@) =~= contact_pairs(discovered@.subrange(0, i + 1)));
                i = i + 1;
            }
            assert(discovered@.subrange(0, discovered@.len() as int) =~= discovered@);
            self.contacts = pairs;
        }
    }
}

} // verus!
