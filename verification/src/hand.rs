//! The skeleton of a hand: which joints it has and how they are named.
//! What a joint holds, a pose and a radius, is up to the caller.

use vstd::prelude::*;

verus! {

/// The joints of a finger, from the tip to the wrist.
#[derive(Debug)]
pub struct Finger<J> {
    pub tip: J,
    pub distal: J,
    pub proximal: J,
    pub intermediate: J,
    pub metacarpal: J,
}

/// The joints of the thumb, which has no intermediate one.
#[derive(Debug)]
pub struct Thumb<J> {
    pub tip: J,
    pub distal: J,
    pub proximal: J,
    pub metacarpal: J,
}

/// The joints of a hand.
#[derive(Debug)]
pub struct Hand<J> {
    pub thumb: Thumb<J>,
    pub index: Finger<J>,
    pub middle: Finger<J>,
    pub ring: Finger<J>,
    pub little: Finger<J>,
    pub palm: J,
    pub wrist: J,
}

impl<J: Copy> Clone for Finger<J> {
    fn clone(&self) -> (copy: Self)
        ensures
            copy == *self,
    {
        *self
    }
}

impl<J: Copy> Copy for Finger<J> {

}

impl<J: Copy> Clone for Thumb<J> {
    fn clone(&self) -> (copy: Self)
        ensures
            copy == *self,
    {
        *self
    }
}

impl<J: Copy> Copy for Thumb<J> {

}

impl<J: Copy> Clone for Hand<J> {
    fn clone(&self) -> (copy: Self)
        ensures
            copy == *self,
    {
        *self
    }
}

impl<J: Copy> Copy for Hand<J> {

}

/// The names of the joints of a hand, in the order in which hand tracking
/// counts them.
#[derive(Clone, Copy, Debug, PartialEq, Eq, Structural, Hash)]
pub enum HandJoint {
    Palm,
    Wrist,
    ThumbMetacarpal,
    ThumbProximal,
    ThumbDistal,
    ThumbTip,
    IndexMetacarpal,
    IndexProximal,
    IndexIntermediate,
    IndexDistal,
    IndexTip,
    MiddleMetacarpal,
    MiddleProximal,
    MiddleIntermediate,
    MiddleDistal,
    MiddleTip,
    RingMetacarpal,
    RingProximal,
    RingIntermediate,
    RingDistal,
    RingTip,
    LittleMetacarpal,
    LittleProximal,
    LittleIntermediate,
    LittleDistal,
    LittleTip,
}

impl HandJoint {
    /// The number of the joint in hand tracking.
    pub open spec fn number(self) -> u8 {
        match self {
            HandJoint::Palm => 0,
            HandJoint::Wrist => 1,
            HandJoint::ThumbMetacarpal => 2,
            HandJoint::ThumbProximal => 3,
            HandJoint::ThumbDistal => 4,
            HandJoint::ThumbTip => 5,
            HandJoint::IndexMetacarpal => 6,
            HandJoint::IndexProximal => 7,
            HandJoint::IndexIntermediate => 8,
            HandJoint::IndexDistal => 9,
            HandJoint::IndexTip => 10,
            HandJoint::MiddleMetacarpal => 11,
            HandJoint::MiddleProximal => 12,
            HandJoint::MiddleIntermediate => 13,
            HandJoint::MiddleDistal => 14,
            HandJoint::MiddleTip => 15,
            HandJoint::RingMetacarpal => 16,
            HandJoint::RingProximal => 17,
            HandJoint::RingIntermediate => 18,
            HandJoint::RingDistal => 19,
            HandJoint::RingTip => 20,
            HandJoint::LittleMetacarpal => 21,
            HandJoint::LittleProximal => 22,
            HandJoint::LittleIntermediate => 23,
            HandJoint::LittleDistal => 24,
            HandJoint::LittleTip => 25,
        }
    }

    /// The number of the joint in hand tracking, from 0 for the palm to 25
    /// for the tip of the little finger.
    pub fn index(self) -> (number: u8)
        ensures
            number == self.number(),
            number < 26,
    {
        match self {
            HandJoint::Palm => 0,
            HandJoint::Wrist => 1,
            HandJoint::ThumbMetacarpal => 2,
            HandJoint::ThumbProximal => 3,
            HandJoint::ThumbDistal => 4,
            HandJoint::ThumbTip => 5,
            HandJoint::IndexMetacarpal => 6,
            HandJoint::IndexProximal => 7,
            HandJoint::IndexIntermediate => 8,
            HandJoint::IndexDistal => 9,
            HandJoint::IndexTip => 10,
            HandJoint::MiddleMetacarpal => 11,
            HandJoint::MiddleProximal => 12,
            HandJoint::MiddleIntermediate => 13,
            HandJoint::MiddleDistal => 14,
            HandJoint::MiddleTip => 15,
            HandJoint::RingMetacarpal => 16,
            HandJoint::RingProximal => 17,
            HandJoint::RingIntermediate => 18,
            HandJoint::RingDistal => 19,
            HandJoint::RingTip => 20,
            HandJoint::LittleMetacarpal => 21,
            HandJoint::LittleProximal => 22,
            HandJoint::LittleIntermediate => 23,
            HandJoint::LittleDistal => 24,
            HandJoint::LittleTip => 25,
        }
    }
}

/// No two joints have the same number.
pub proof fn lemma_joint_numbers_differ(a: HandJoint, b: HandJoint)
    requires
        a.number() == b.number(),
    ensures
        a == b,
{
}

impl<J: Copy> Finger<J> {
    /// The finger whose joints all hold `joint`.
    pub fn filled(joint: J) -> (finger: Finger<J>)
        ensures
            finger == (Finger {
                tip: joint,
                distal: joint,
                proximal: joint,
                intermediate: joint,
                metacarpal: joint,
            }),
    {
        Finger {
            tip: joint,
            distal: joint,
            proximal: joint,
            intermediate: joint,
            metacarpal: joint,
        }
    }

    /// The finger with `f` applied to each joint.
    pub fn transform<K>(&self, f: &impl Fn(J) -> K) -> (finger: Finger<K>)
        requires
            call_requires(*f, (self.tip,)),
            call_requires(*f, (self.distal,)),
            call_requires(*f, (self.proximal,)),
            call_requires(*f, (self.intermediate,)),
            call_requires(*f, (self.metacarpal,)),
        ensures
            call_ensures(*f, (self.tip,), finger.tip),
            call_ensures(*f, (self.distal,), finger.distal),
            call_ensures(*f, (self.proximal,), finger.proximal),
            call_ensures(*f, (self.intermediate,), finger.intermediate),
            call_ensures(*f, (self.metacarpal,), finger.metacarpal),
    {
        Finger {
            tip: f(self.tip),
            distal: f(self.distal),
            proximal: f(self.proximal),
            intermediate: f(self.intermediate),
            metacarpal: f(self.metacarpal),
        }
    }
}

impl<J: Copy> Thumb<J> {
    /// The thumb whose joints all hold `joint`.
    pub fn filled(joint: J) -> (thumb: Thumb<J>)
        ensures
            thumb == (Thumb { tip: joint, distal: joint, proximal: joint, metacarpal: joint }),
    {
        Thumb { tip: joint, distal: joint, proximal: joint, metacarpal: joint }
    }

    /// The thumb with `f` applied to each joint.
    pub fn transform<K>(&self, f: &impl Fn(J) -> K) -> (thumb: Thumb<K>)
        requires
            call_requires(*f, (self.tip,)),
            call_requires(*f, (self.distal,)),
            call_requires(*f, (self.proximal,)),
            call_requires(*f, (self.metacarpal,)),
        ensures
            call_ensures(*f, (self.tip,), thumb.tip),
            call_ensures(*f, (self.distal,), thumb.distal),
            call_ensures(*f, (self.proximal,), thumb.proximal),
            call_ensures(*f, (self.metacarpal,), thumb.metacarpal),
    {
        Thumb {
            tip: f(self.tip),
            distal: f(self.distal),
            proximal: f(self.proximal),
            metacarpal: f(self.metacarpal),
        }
    }
}

impl<J> Hand<J> {
    /// The joint of this name.
    pub open spec fn joint(self, joint: HandJoint) -> J {
        match joint {
            HandJoint::Palm => self.palm,
            HandJoint::Wrist => self.wrist,
            HandJoint::ThumbMetacarpal => self.thumb.metacarpal,
            HandJoint::ThumbProximal => self.thumb.proximal,
            HandJoint::ThumbDistal => self.thumb.distal,
            HandJoint::ThumbTip => self.thumb.tip,
            HandJoint::IndexMetacarpal => self.index.metacarpal,
            HandJoint::IndexProximal => self.index.proximal,
            HandJoint::IndexIntermediate => self.index.intermediate,
            HandJoint::IndexDistal => self.index.distal,
            HandJoint::IndexTip => self.index.tip,
            HandJoint::MiddleMetacarpal => self.middle.metacarpal,
            HandJoint::MiddleProximal => self.middle.proximal,
            HandJoint::MiddleIntermediate => self.middle.intermediate,
            HandJoint::MiddleDistal => self.middle.distal,
            HandJoint::MiddleTip => self.middle.tip,
            HandJoint::RingMetacarpal => self.ring.metacarpal,
            HandJoint::RingProximal => self.ring.proximal,
            HandJoint::RingIntermediate => self.ring.intermediate,
            HandJoint::RingDistal => self.ring.distal,
            HandJoint::RingTip => self.ring.tip,
            HandJoint::LittleMetacarpal => self.little.metacarpal,
            HandJoint::LittleProximal => self.little.proximal,
            HandJoint::LittleIntermediate => self.little.intermediate,
            HandJoint::LittleDistal => self.little.distal,
            HandJoint::LittleTip => self.little.tip,
        }
    }

    /// The five fingertips, from the thumb to the little finger. They stand
    /// for the hand where its distance to a field is asked for.
    pub open spec fn tips(self) -> Seq<J> {
        seq![self.thumb.tip, self.index.tip, self.middle.tip, self.ring.tip, self.little.tip]
    }
}

impl<J: Copy> Hand<J> {
    /// The hand whose joints all hold `joint`.
    pub fn filled(joint: J) -> (hand: Hand<J>)
        ensures
            forall|name: HandJoint| hand.joint(name) == joint,
    {
        Hand {
            thumb: Thumb::filled(joint),
            index: Finger::filled(joint),
            middle: Finger::filled(joint),
            ring: Finger::filled(joint),
            little: Finger::filled(joint),
            palm: joint,
            wrist: joint,
        }
    }

    pub fn get_joint(&self, joint: HandJoint) -> (found: J)
        ensures
            found == self.joint(joint),
    {
        match joint {
            HandJoint::Palm => self.palm,
            HandJoint::Wrist => self.wrist,
            HandJoint::ThumbMetacarpal => self.thumb.metacarpal,
            HandJoint::ThumbProximal => self.thumb.proximal,
            HandJoint::ThumbDistal => self.thumb.distal,
            HandJoint::ThumbTip => self.thumb.tip,
            HandJoint::IndexMetacarpal => self.index.metacarpal,
            HandJoint::IndexProximal => self.index.proximal,
            HandJoint::IndexIntermediate => self.index.intermediate,
            HandJoint::IndexDistal => self.index.distal,
            HandJoint::IndexTip => self.index.tip,
            HandJoint::MiddleMetacarpal => self.middle.metacarpal,
            HandJoint::MiddleProximal => self.middle.proximal,
            HandJoint::MiddleIntermediate => self.middle.intermediate,
            HandJoint::MiddleDistal => self.middle.distal,
            HandJoint::MiddleTip => self.middle.tip,
            HandJoint::RingMetacarpal => self.ring.metacarpal,
            HandJoint::RingProximal => self.ring.proximal,
            HandJoint::RingIntermediate => self.ring.intermediate,
            HandJoint::RingDistal => self.ring.distal,
            HandJoint::RingTip => self.ring.tip,
            HandJoint::LittleMetacarpal => self.little.metacarpal,
            HandJoint::LittleProximal => self.little.proximal,
            HandJoint::LittleIntermediate => self.little.intermediate,
            HandJoint::LittleDistal => self.little.distal,
            HandJoint::LittleTip => self.little.tip,
        }
    }

    /// The five fingertips, from the thumb to the little finger.
    pub fn fingertips(&self) -> (tips: [J; 5])
        ensures
            tips@ == self.tips(),
    {
        let tips =
            [self.thumb.tip, self.index.tip, self.middle.tip, self.ring.tip, self.little.tip];
        tips
    }

    /// The hand with `f` applied to each joint, as when the hand is taken
    /// into another space: every joint stays the joint that it was, and holds
    /// what `f` makes of what it held.
    pub fn transform<K>(&self, f: impl Fn(J) -> K) -> (hand: Hand<K>)
        requires
            forall|name: HandJoint| call_requires(f, (#[trigger] self.joint(name),)),
        ensures
            forall|name: HandJoint|
                call_ensures(f, (self.joint(name),), #[trigger] hand.joint(name)),
    {
        proof {
            assert(call_requires(f, (self.joint(HandJoint::ThumbTip),)));
            assert(call_requires(f, (self.joint(HandJoint::ThumbDistal),)));
            assert(call_requires(f, (self.joint(HandJoint::ThumbProximal),)));
            assert(call_requires(f, (self.joint(HandJoint::ThumbMetacarpal),)));
            assert(call_requires(f, (self.joint(HandJoint::IndexTip),)));
            assert(call_requires(f, (self.joint(HandJoint::IndexDistal),)));
            assert(call_requires(f, (self.joint(HandJoint::IndexIntermediate),)));
            assert(call_requires(f, (self.joint(HandJoint::IndexProximal),)));
            assert(call_requires(f, (self.joint(HandJoint::IndexMetacarpal),)));
            assert(call_requires(f, (self.joint(HandJoint::MiddleTip),)));
            assert(call_requires(f, (self.joint(HandJoint::MiddleDistal),)));
            assert(call_requires(f, (self.joint(HandJoint::MiddleIntermediate),)));
            assert(call_requires(f, (self.joint(HandJoint::MiddleProximal),)));
            assert(call_requires(f, (self.joint(HandJoint::MiddleMetacarpal),)));
            assert(call_requires(f, (self.joint(HandJoint::RingTip),)));
            assert(call_requires(f, (self.joint(HandJoint::RingDistal),)));
            assert(call_requires(f, (self.joint(HandJoint::RingIntermediate),)));
            assert(call_requires(f, (self.joint(HandJoint::RingProximal),)));
            assert(call_requires(f, (self.joint(HandJoint::RingMetacarpal),)));
            assert(call_requires(f, (self.joint(HandJoint::LittleTip),)));
            assert(call_requires(f, (self.joint(HandJoint::LittleDistal),)));
            assert(call_requires(f, (self.joint(HandJoint::LittleIntermediate),)));
            assert(call_requires(f, (self.joint(HandJoint::LittleProximal),)));
            assert(call_requires(f, (self.joint(HandJoint::LittleMetacarpal),)));
            assert(call_requires(f, (self.joint(HandJoint::Palm),)));
            assert(call_requires(f, (self.joint(HandJoint::Wrist),)));
        }
        Hand {
            thumb: self.thumb.transform(&f),
            index: self.index.transform(&f),
            middle: self.middle.transform(&f),
            ring: self.ring.transform(&f),
            little: self.little.transform(&f),
            palm: f(self.palm),
            wrist: f(self.wrist),
        }
    }
}

} // verus!
