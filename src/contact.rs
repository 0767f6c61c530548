//! Reading the physics engine's contact events: ground contact, pad occupancy
//! and crash-level impacts.
use vstd::prelude::*;
use crate::flight::{Player, BASE_SCORE_MULTIPLIER};

verus! {

/// Summed normal impulse above which a touchdown is a crash, in thousandths.
pub const SAFE_LANDING_IMPULSE: u64 = 15_000_000;

/// What a collider taking part in a contact belongs to.
#[derive(Clone, Copy, Debug, PartialEq, Eq, Structural)]
pub enum BodyKind {
    Lander,
    Terrain,
    /// The sensor above a landing pad, with the pad's score multiplier in hundredths.
    Pad { score_multiplier: u32 },
    Other,
}

/// Two colliders that began or ceased to touch.
#[derive(Clone, Copy, Debug, PartialEq, Eq, Structural)]
pub struct Contact {
    pub first: BodyKind,
    pub second: BodyKind,
}

/// The contact is between the lander and terrain.
pub open spec fn lander_on_terrain(c: Contact) -> bool {
    (c.first == BodyKind::Lander && c.second == BodyKind::Terrain) || (c.first == BodyKind::Terrain
        && c.second == BodyKind::Lander)
}

/// The multiplier of the pad that the contact joins to the lander, if it is such a contact.
pub open spec fn pad_of(c: Contact) -> Option<u32> {
    match (c.first, c.second) {
        (BodyKind::Pad { score_multiplier }, BodyKind::Lander) => Some(score_multiplier),
        (BodyKind::Lander, BodyKind::Pad { score_multiplier }) => Some(score_multiplier),
        _ => None,
    }
}

/// Every pad of the batch grants at least the base multiplier.
pub open spec fn contacts_wf(s: Seq<Contact>) -> bool {
    forall|i: int|
        0 <= i < s.len() && (#[trigger] pad_of(s[i])).is_some() ==> pad_of(s[i]).unwrap()
            >= BASE_SCORE_MULTIPLIER
}

pub open spec fn any_terrain_contact(s: Seq<Contact>) -> bool {
    exists|i: int| 0 <= i < s.len() && lander_on_terrain(#[trigger] s[i])
}

pub open spec fn any_pad_contact(s: Seq<Contact>) -> bool {
    exists|i: int| 0 <= i < s.len() && (#[trigger] pad_of(s[i])).is_some()
}

/// The multiplier of the last pad contact in `s`, or `m` if there is none.
pub open spec fn last_pad_multiplier(s: Seq<Contact>, m: u32) -> u32
    decreases s.len(),
{
    if s.len() == 0 {
        m
    } else {
        match pad_of(s.last()) {
            Some(p) => p,
            None => last_pad_multiplier(s.drop_last(), m),
        }
    }
}

/// Sum of the impulse magnitudes `s`.
pub open spec fn impulse_total(s: Seq<u64>) -> int
    decreases s.len(),
{
    if s.len() == 0 {
        0
    } else {
        impulse_total(s.drop_last()) + s.last()
    }
}

/// A crash: the lander began touching terrain while the normal impulses of all
/// its contacts add up to more than the safe limit.
pub open spec fn is_crash_spec(started: Seq<Contact>, impulses: Seq<u64>) -> bool {
    any_terrain_contact(started) && impulse_total(impulses) > SAFE_LANDING_IMPULSE
}

fn is_lander_on_terrain(c: &Contact) -> (r: bool)
    ensures
        r == lander_on_terrain(*c),
{
    match (c.first, c.second) {
        (BodyKind::Lander, BodyKind::Terrain) => true,
        (BodyKind::Terrain, BodyKind::Lander) => true,
        _ => false,
    }
}

fn pad_multiplier(c: &Contact) -> (r: Option<u32>)
    ensures
        r == pad_of(*c),
{
    match (c.first, c.second) {
        (BodyKind::Pad { score_multiplier }, BodyKind::Lander) => Some(score_multiplier),
        (BodyKind::Lander, BodyKind::Pad { score_multiplier }) => Some(score_multiplier),
        _ => None,
    }
}

/// Whether any contact of `s` is between the lander and terrain.
pub fn has_terrain_contact(s: &Vec<Contact>) -> (r: bool)
    ensures
        r == any_terrain_contact(s@),
{
    let mut i: usize = 0;
    while i < s.len()
        invariant
            i <= s@.len(),
            forall|k: int| 0 <= k < i ==> !lander_on_terrain(#[trigger] s@[k]),
        decreases s@.len() - i,
    {
        if is_lander_on_terrain(&s[i]) {
            return true;
        }
        i = i + 1;
    }
    false
}

/// Whether any contact of `s` is between the lander and a pad.
pub fn has_pad_contact(s: &Vec<Contact>) -> (r: bool)
    ensures
        r == any_pad_contact(s@),
{
    let mut i: usize = 0;
    while i < s.len()
        invariant
            i <= s@.len(),
            forall|k: int| 0 <= k < i ==> (#[trigger] pad_of(s@[k])).is_none(),
        decreases s@.len() - i,
    {
        if pad_multiplier(&s[i]).is_some() {
            return true;
        }
        i = i + 1;
    }
    false
}

/// Sum of the impulse magnitudes, saturating at `u64::MAX`.
pub fn total_impulse(impulses: &Vec<u64>) -> (r: u64)
    ensures
        r == (if impulse_total(impulses@) > u64::MAX { u64::MAX as int } else { impulse_total(impulses@) }),
{
    let mut acc: u64 = 0;
    let mut i: usize = 0;
    while i < impulses.len()
        invariant
            i <= impulses@.len(),
            acc == (if impulse_total(impulses@.take(i as int)) > u64::MAX {
                u64::MAX as int
            } else {
                impulse_total(impulses@.take(i as int))
            }),
        decreases impulses@.len() - i,
    {
        proof {
            assert(impulses@.take(i + 1).drop_last() =~= impulses@.take(i as int));
            lemma_impulse_total_nonneg(impulses@.take(i as int));
        }
        acc = acc.saturating_add(impulses[i]);
        i = i + 1;
    }
    assert(impulses@.take(i as int) =~= impulses@);
    acc
}

proof fn lemma_impulse_total_nonneg(s: Seq<u64>)
    ensures
        impulse_total(s) >= 0,
    decreases s.len(),
{
    if s.len() > 0 {
        lemma_impulse_total_nonneg(s.drop_last());
    }
}

/// Whether this tick's contacts crash the lander: some new contact joins it to
/// terrain while the normal impulses of all its current contacts, `impulses`,
/// add up to more than `SAFE_LANDING_IMPULSE`.
pub fn is_crash(started: &Vec<Contact>, impulses: &Vec<u64>) -> (r: bool)
    ensures
        r == is_crash_spec(started@, impulses@),
{
    if !has_terrain_contact(started) {
        return false;
    }
    total_impulse(impulses) > SAFE_LANDING_IMPULSE
}

/// The lander after one tick of contact events: ground contact follows the
/// lander's terrain contacts and the score multiplier follows its pad contacts;
/// an end event wins over a start event of the same tick.
pub open spec fn after_contacts(p: Player, started: Seq<Contact>, ended: Seq<Contact>) -> Player {
    Player {
        grounded: if any_terrain_contact(ended) {
            false
        } else if any_terrain_contact(started) {
            true
        } else {
            p.grounded
        },
        score_multiplier: if any_pad_contact(ended) {
            BASE_SCORE_MULTIPLIER
        } else {
            last_pad_multiplier(started, p.score_multiplier)
        },
        ..p
    }
}

proof fn lemma_last_pad_multiplier_floor(s: Seq<Contact>, m: u32)
    requires
        contacts_wf(s),
        m >= BASE_SCORE_MULTIPLIER,
    ensures
        last_pad_multiplier(s, m) >= BASE_SCORE_MULTIPLIER,
    decreases s.len(),
{
    if s.len() > 0 {
        assert(contacts_wf(s.drop_last()));
        assert(pad_of(s[s.len() - 1]) == pad_of(s.last()));
        lemma_last_pad_multiplier_floor(s.drop_last(), m);
    }
}

impl Player {
    /// Records one tick of contact events, the started ones before the ended ones.
    pub fn record_contacts(&mut self, started: &Vec<Contact>, ended: &Vec<Contact>)
        requires
            old(self).wf(),
            contacts_wf(started@),
        ensures
            *final(self) == after_contacts(*old(self), started@, ended@),
            final(self).wf(),
    {
        if has_terrain_contact(started) {
            self.grounded = true;
        }
        if has_terrain_contact(ended) {
            self.grounded = false;
        }
        let mut i: usize = 0;
        while i < started.len()
            invariant
                i <= started@.len(),
                self.score_multiplier == last_pad_multiplier(started@.take(i as int), old(self).score_multiplier),
                self.grounded == after_contacts(*old(self), started@, ended@).grounded,
                self.fuel == old(self).fuel,
                self.mass == old(self).mass,
                self.flight_state == old(self).flight_state,
                self.motion == old(self).motion,
                self.frozen == old(self).frozen,
            decreases started@.len() - i,
        {
            proof {
                assert(started@.take(i + 1).drop_last() =~= started@.take(i as int));
            }
            if let Some(m) = pad_multiplier(&started[i]) {
                self.score_multiplier = m;
            }
            i = i + 1;
        }
        assert(started@.take(i as int) =~= started@);
        if has_pad_contact(ended) {
            self.score_multiplier = BASE_SCORE_MULTIPLIER;
        }
        proof {
            lemma_last_pad_multiplier_floor(started@, old(self).score_multiplier);
        }
    }
}

} // verus!
