//! Event-driven contact handlers: a standalone collision pipeline with
//! its own velocity-response rules.  `VelocityBouncer`
//! reflects or cancels a body's velocity along the first contact normal
//! when a contact starts; `ProximityMessage` merely observes proximity
//! changes.

use crate::shape::Contact;
use crate::util::{
    dot_div_trunc, lemma_dot_div_bounded, lemma_mul_div_bounded, mul_div_trunc, spec_dot_div,
    spec_mul_div, v2, v2_in_range, v2_neg, Vec2, SCALE, V2,
};
use vstd::prelude::*;

verus! {

/// How a body of the event-driven pipeline responds to a contact.
#[derive(Clone, Copy, PartialEq, Eq, Structural, Debug)]
pub enum ObjectType {
    /// Reflect the velocity off the contact normal.
    Bounce,
    /// Cancel the velocity along the contact normal.
    Still,
}

/// Movement data carried by an object of the event-driven pipeline.
#[derive(Clone, Copy, PartialEq, Eq, Structural, Debug)]
pub struct ObjectData {
    pub velocity: Vec2,
    pub acceleration: Vec2,
    pub typ: ObjectType,
}

impl Default for ObjectData {
    /// At rest, under a default downward acceleration of 160 pixels per
    /// second squared, responding as `Still`.
    fn default() -> (d: ObjectData)
        ensures
            d.velocity@ == v2(0, 0),
            d.acceleration@ == v2(0, 576_000),
            d.typ == ObjectType::Still,
    {
        ObjectData {
            velocity: Vec2 { x: 0, y: 0 },
            acceleration: Vec2 { x: 0, y: 576_000 },
            typ: ObjectType::Still,
        }
    }
}

/// Observes proximity changes between collision objects; the prototype
/// takes no action on them.
pub struct ProximityMessage;

/// The velocity after a contact along unit normal `n`: reflected
/// (`Bounce`) or with the normal component removed (`Still`).
pub open spec fn spec_bounce(v: V2, n: V2, typ: ObjectType) -> V2 {
    let w = spec_dot_div(v, n, SCALE as int);
    match typ {
        ObjectType::Bounce => v2(
            v.x - 2 * spec_mul_div(n.x, w, SCALE as int),
            v.y - 2 * spec_mul_div(n.y, w, SCALE as int),
        ),
        ObjectType::Still => v2(
            v.x - spec_mul_div(n.x, w, SCALE as int),
            v.y - spec_mul_div(n.y, w, SCALE as int),
        ),
    }
}

/// Responds to a starting contact by adjusting both bodies' velocities
/// along the first contact normal.
pub struct VelocityBouncer {
    /// The contacts of the last handled event.
    pub tmp_collector: Vec<Contact>,
}

impl VelocityBouncer {
    pub fn new() -> (b: VelocityBouncer)
        ensures
            b.tmp_collector@.len() == 0,
    {
        VelocityBouncer { tmp_collector: Vec::new() }
    }

    /// A contact has started between `co1` and `co2`, with the given
    /// contact list (never empty).  Collects the contacts and applies
    /// `spec_bounce` to each body: `co1` along the first contact's normal,
    /// `co2` along its reverse.
    pub fn handle_contact_started(
        &mut self,
        co1: &mut ObjectData,
        co2: &mut ObjectData,
        contacts: &Vec<Contact>,
    )
        requires
            contacts@.len() > 0,
            v2_in_range(contacts@[0]@.normal, SCALE as int),
            v2_in_range(old(co1).velocity@, 0x1_0000_0000),
            v2_in_range(old(co2).velocity@, 0x1_0000_0000),
        ensures
            final(self).tmp_collector@ == contacts@,
            final(co1).velocity@ == spec_bounce(
                old(co1).velocity@,
                contacts@[0]@.normal,
                old(co1).typ,
            ),
            final(co2).velocity@ == spec_bounce(
                old(co2).velocity@,
                v2_neg(contacts@[0]@.normal),
                old(co2).typ,
            ),
            final(co1).acceleration == old(co1).acceleration,
            final(co2).acceleration == old(co2).acceleration,
            final(co1).typ == old(co1).typ,
            final(co2).typ == old(co2).typ,
    {
        self.tmp_collector = Vec::new();
        let mut k: usize = 0;
        while k < contacts.len()
            invariant
                self.tmp_collector@.len() == k,
                k <= contacts@.len(),
                forall|j: int| 0 <= j < k ==> #[trigger] self.tmp_collector@[j] == contacts@[j],
            decreases contacts@.len() - k,
        {
            self.tmp_collector.push(contacts[k]);
            k = k + 1;
        }
        proof {
            assert(self.tmp_collector@ =~= contacts@);
        }
        let n1 = contacts[0].normal;
        proof {
            lemma_dot_div_bounded(co1.velocity@, n1@, 0x1_0000_0000, SCALE as int);
        }
        let w1 = dot_div_trunc(co1.velocity, n1, SCALE);
        proof {
            lemma_mul_div_bounded(n1@.x, w1 as int, SCALE as int);
            lemma_mul_div_bounded(n1@.y, w1 as int, SCALE as int);
        }
        let t1x = mul_div_trunc(n1.x, w1, SCALE);
        let t1y = mul_div_trunc(n1.y, w1, SCALE);
        match co1.typ {
            ObjectType::Bounce => {
                co1.velocity.x = co1.velocity.x - 2 * t1x;
                co1.velocity.y = co1.velocity.y - 2 * t1y;
            },
            ObjectType::Still => {
                co1.velocity.x = co1.velocity.x - t1x;
                co1.velocity.y = co1.velocity.y - t1y;
            },
        }
        let n2 = Vec2 { x: -n1.x, y: -n1.y };
        proof {
            lemma_dot_div_bounded(co2.velocity@, n2@, 0x1_0000_0000, SCALE as int);
        }
        let w2 = dot_div_trunc(co2.velocity, n2, SCALE);
        proof {
            lemma_mul_div_bounded(n2@.x, w2 as int, SCALE as int);
            lemma_mul_div_bounded(n2@.y, w2 as int, SCALE as int);
        }
        let t2x = mul_div_trunc(n2.x, w2, SCALE);
        let t2y = mul_div_trunc(n2.y, w2, SCALE);
        match co2.typ {
            ObjectType::Bounce => {
                co2.velocity.x = co2.velocity.x - 2 * t2x;
                co2.velocity.y = co2.velocity.y - 2 * t2y;
            },
            ObjectType::Still => {
                co2.velocity.x = co2.velocity.x - t2x;
                co2.velocity.y = co2.velocity.y - t2y;
            },
        }
    }

    /// A contact has stopped; the prototype takes no action.
    pub fn handle_contact_stopped(&mut self, _co1: &ObjectData, _co2: &ObjectData)
        ensures
            final(self).tmp_collector@ == old(self).tmp_collector@,
    {
    }
}

} // verus!
