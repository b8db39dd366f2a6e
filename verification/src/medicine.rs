//! Medicines, their per-channel effects on the rat's drive state, and the
//! comparison of a player's report against a medicine's true effects.

use vstd::prelude::*;

verus! {

/// One of the three drive channels a medicine can affect.
#[derive(Debug, Copy, Clone, PartialEq, Eq, Structural)]
pub enum MedicineEffect {
    Appetite,
    Fear,
    Smell,
}

impl MedicineEffect {
    /// The delta that counts as the desirable ("positive-polarity") effect
    /// on this channel: more appetite, less fear, better smell.
    pub open spec fn spec_positive_value(self) -> int {
        match self {
            MedicineEffect::Appetite => 1,
            MedicineEffect::Fear => -1,
            MedicineEffect::Smell => 1,
        }
    }

    /// The delta that counts as the side effect ("negative-polarity") on
    /// this channel: less appetite, more fear, worse smell.
    pub open spec fn spec_negative_value(self) -> int {
        match self {
            MedicineEffect::Appetite => -1,
            MedicineEffect::Fear => 1,
            MedicineEffect::Smell => -1,
        }
    }

    pub fn positive_value(&self) -> (v: i32)
        ensures
            v == self.spec_positive_value(),
    {
        match self {
            MedicineEffect::Appetite => 1,
            MedicineEffect::Fear => -1,
            MedicineEffect::Smell => 1,
        }
    }

    pub fn negative_value(&self) -> (v: i32)
        ensures
            v == self.spec_negative_value(),
    {
        match self {
            MedicineEffect::Appetite => -1,
            MedicineEffect::Fear => 1,
            MedicineEffect::Smell => -1,
        }
    }
}

/// The player's claim about one medicine: one value per drive channel,
/// 0 meaning "no effect claimed".
#[derive(Debug, Copy, Clone, PartialEq, Eq, Structural)]
pub struct Report {
    pub appetite: i32,
    pub smell: i32,
    pub fear: i32,
}

impl Default for Report {
    fn default() -> (r: Self)
        ensures
            r.appetite == 0 && r.smell == 0 && r.fear == 0,
    {
        Report { appetite: 0, smell: 0, fear: 0 }
    }
}

impl Report {
    /// Record a claimed value for one channel, leaving the others unchanged.
    pub fn mark_effect(&mut self, effect: &MedicineEffect, value: i32)
        ensures
            final(self).appetite == (if *effect == MedicineEffect::Appetite {
                value
            } else {
                old(self).appetite
            }),
            final(self).smell == (if *effect == MedicineEffect::Smell {
                value
            } else {
                old(self).smell
            }),
            final(self).fear == (if *effect == MedicineEffect::Fear {
                value
            } else {
                old(self).fear
            }),
    {
        match effect {
            MedicineEffect::Appetite => self.appetite = value,
            MedicineEffect::Smell => self.smell = value,
            MedicineEffect::Fear => self.fear = value,
        }
    }

    /// The claimed value of the given channel.
    pub open spec fn channel(self, e: MedicineEffect) -> int {
        match e {
            MedicineEffect::Appetite => self.appetite as int,
            MedicineEffect::Fear => self.fear as int,
            MedicineEffect::Smell => self.smell as int,
        }
    }
}

/// A medicine: its true per-channel deltas, whether it is part of the
/// current experiment, and the player's report about it.
#[derive(Debug, Clone)]
pub struct Medicine {
    pub name: String,
    pub appetite: i32,
    pub smell: i32,
    pub fear: i32,
    pub in_experiment: bool,
    pub report: Report,
}

impl Default for Medicine {
    fn default() -> (m: Self)
        ensures
            m.appetite == 0 && m.smell == 0 && m.fear == 0,
            !m.in_experiment,
            m.report.appetite == 0 && m.report.smell == 0 && m.report.fear == 0,
            m.name@ == Seq::<char>::empty(),
    {
        Medicine {
            name: String::new(),
            appetite: 0,
            smell: 0,
            fear: 0,
            in_experiment: false,
            report: Report { appetite: 0, smell: 0, fear: 0 },
        }
    }
}

impl Medicine {
    /// The true value of the given channel.
    pub open spec fn channel(self, e: MedicineEffect) -> int {
        match e {
            MedicineEffect::Appetite => self.appetite as int,
            MedicineEffect::Fear => self.fear as int,
            MedicineEffect::Smell => self.smell as int,
        }
    }

    /// The same medicine under another name.
    pub fn with_name(&self, name: &str) -> (m: Self)
        ensures
            m.name@ == name@,
            m.appetite == self.appetite && m.smell == self.smell && m.fear == self.fear,
            m.in_experiment == self.in_experiment,
            m.report == self.report,
    {
        Medicine {
            name: name.to_owned(),
            appetite: self.appetite,
            smell: self.smell,
            fear: self.fear,
            in_experiment: self.in_experiment,
            report: self.report,
        }
    }

    /// Set the true delta of one channel, leaving the others unchanged.
    pub fn set_effect(&mut self, effect: &MedicineEffect, value: i32)
        ensures
            final(self).appetite == (if *effect == MedicineEffect::Appetite {
                value
            } else {
                old(self).appetite
            }),
            final(self).smell == (if *effect == MedicineEffect::Smell {
                value
            } else {
                old(self).smell
            }),
            final(self).fear == (if *effect == MedicineEffect::Fear {
                value
            } else {
                old(self).fear
            }),
            final(self).name == old(self).name,
            final(self).in_experiment == old(self).in_experiment,
            final(self).report == old(self).report,
    {
        match effect {
            MedicineEffect::Appetite => self.appetite = value,
            MedicineEffect::Smell => self.smell = value,
            MedicineEffect::Fear => self.fear = value,
        }
    }

    /// The report matches the true effects exactly.
    pub open spec fn spec_report_is_correct(self) -> bool {
        self.appetite == self.report.appetite
            && self.fear == self.report.fear
            && self.smell == self.report.smell
    }

    /// A side effect on channel `e` is real but not reported as such.
    pub open spec fn spec_missed_side_effect(self, e: MedicineEffect) -> bool {
        self.channel(e) == e.spec_negative_value() && self.channel(e) != self.report.channel(e)
    }

    /// Channel `e` is reported as a side effect it does not have.
    pub open spec fn spec_extra_side_effect(self, e: MedicineEffect) -> bool {
        self.report.channel(e) == e.spec_negative_value() && self.channel(e) != self.report.channel(e)
    }

    /// A desirable effect on channel `e` is real but not reported as such.
    pub open spec fn spec_missed_desirable_effect(self, e: MedicineEffect) -> bool {
        self.channel(e) == e.spec_positive_value() && self.channel(e) != self.report.channel(e)
    }

    /// Channel `e` is reported as a desirable effect it does not have.
    pub open spec fn spec_extra_desirable_effect(self, e: MedicineEffect) -> bool {
        self.report.channel(e) == e.spec_positive_value() && self.channel(e) != self.report.channel(e)
    }

    pub fn report_is_correct(&self) -> (r: bool)
        ensures
            r == self.spec_report_is_correct(),
    {
        self.appetite == self.report.appetite
            && self.fear == self.report.fear
            && self.smell == self.report.smell
    }

    pub fn report_missed_side_effects(&self) -> (r: bool)
        ensures
            r == (self.spec_missed_side_effect(MedicineEffect::Appetite)
                || self.spec_missed_side_effect(MedicineEffect::Fear)
                || self.spec_missed_side_effect(MedicineEffect::Smell)),
    {
        (self.appetite == MedicineEffect::Appetite.negative_value()
            && self.appetite != self.report.appetite)
            || (self.fear == MedicineEffect::Fear.negative_value() && self.fear != self.report.fear)
            || (self.smell == MedicineEffect::Smell.negative_value()
                && self.smell != self.report.smell)
    }

    pub fn report_extra_side_effects(&self) -> (r: bool)
        ensures
            r == (self.spec_extra_side_effect(MedicineEffect::Appetite)
                || self.spec_extra_side_effect(MedicineEffect::Fear)
                || self.spec_extra_side_effect(MedicineEffect::Smell)),
    {
        (self.report.appetite == MedicineEffect::Appetite.negative_value()
            && self.appetite != self.report.appetite)
            || (self.report.fear == MedicineEffect::Fear.negative_value()
                && self.fear != self.report.fear)
            || (self.report.smell == MedicineEffect::Smell.negative_value()
                && self.smell != self.report.smell)
    }

    pub fn report_missed_desirable_effects(&self) -> (r: bool)
        ensures
            r == (self.spec_missed_desirable_effect(MedicineEffect::Appetite)
                || self.spec_missed_desirable_effect(MedicineEffect::Fear)
                || self.spec_missed_desirable_effect(MedicineEffect::Smell)),
    {
        (self.appetite == MedicineEffect::Appetite.positive_value()
            && self.appetite != self.report.appetite)
            || (self.fear == MedicineEffect::Fear.positive_value() && self.fear != self.report.fear)
            || (self.smell == MedicineEffect::Smell.positive_value()
                && self.smell != self.report.smell)
    }

    pub fn report_extra_desirable_effects(&self) -> (r: bool)
        ensures
            r == (self.spec_extra_desirable_effect(MedicineEffect::Appetite)
                || self.spec_extra_desirable_effect(MedicineEffect::Fear)
                || self.spec_extra_desirable_effect(MedicineEffect::Smell)),
    {
        (self.report.appetite == MedicineEffect::Appetite.positive_value()
            && self.appetite != self.report.appetite)
            || (self.report.fear == MedicineEffect::Fear.positive_value()
                && self.fear != self.report.fear)
            || (self.report.smell == MedicineEffect::Smell.positive_value()
                && self.smell != self.report.smell)
    }
}

/// Each of the four report-comparison flags of a channel depends on that
/// channel's true and reported value alone: two medicines that agree there
/// agree on all four flags, whatever their other channels hold.
pub proof fn lemma_report_flags_per_channel(a: Medicine, b: Medicine, e: MedicineEffect)
    requires
        a.channel(e) == b.channel(e),
        a.report.channel(e) == b.report.channel(e),
    ensures
        a.spec_missed_side_effect(e) == b.spec_missed_side_effect(e),
        a.spec_extra_side_effect(e) == b.spec_extra_side_effect(e),
        a.spec_missed_desirable_effect(e) == b.spec_missed_desirable_effect(e),
        a.spec_extra_desirable_effect(e) == b.spec_extra_desirable_effect(e),
{
}

/// The set of medicines of one play-through.
pub struct Medicines(pub Vec<Medicine>);

impl Default for Medicines {
    /// The three medicines the game starts with, named "A", "B" and "C".
    fn default() -> (m: Self)
        ensures
            m.0@.len() == 3,
            m.0@[0].name@ == "A"@ && m.0@[1].name@ == "B"@ && m.0@[2].name@ == "C"@,
            m.0@[0].appetite == -1 && m.0@[0].fear == 1 && m.0@[0].smell == 0,
            m.0@[1].appetite == 1 && m.0@[1].fear == 0 && m.0@[1].smell == -1,
            m.0@[2].appetite == 1 && m.0@[2].fear == -1 && m.0@[2].smell == 1,
            forall|i: int| 0 <= i < 3 ==> !(#[trigger] m.0@[i]).in_experiment,
            forall|i: int| 0 <= i < 3 ==> (#[trigger] m.0@[i]).report == (Report {
                appetite: 0,
                smell: 0,
                fear: 0,
            }),
    {
        let mut a = Medicine::default().with_name("A");
        a.set_effect(&MedicineEffect::Appetite, -1);
        a.set_effect(&MedicineEffect::Fear, 1);

        let mut b = Medicine::default().with_name("B");
        b.set_effect(&MedicineEffect::Appetite, 1);
        b.set_effect(&MedicineEffect::Smell, -1);

        let mut c = Medicine::default().with_name("C");
        c.set_effect(&MedicineEffect::Appetite, 1);
        c.set_effect(&MedicineEffect::Smell, 1);
        c.set_effect(&MedicineEffect::Fear, -1);

        Medicines(vec![a, b, c])
    }
}

impl Medicines {
    pub fn all_reports_are_correct(&self) -> (r: bool)
        ensures
            r == forall|i: int|
                0 <= i < self.0@.len() ==> (#[trigger] self.0@[i]).spec_report_is_correct(),
    {
        let mut i: usize = 0;
        while i < self.0.len()
            invariant
                0 <= i <= self.0@.len(),
                forall|j: int| 0 <= j < i ==> (#[trigger] self.0@[j]).spec_report_is_correct(),
            decreases self.0@.len() - i,
        {
            if !self.0[i].report_is_correct() {
                return false;
            }
            i = i + 1;
        }
        true
    }

    pub fn some_reports_have_extra_side_effects(&self) -> (r: bool)
        ensures
            r == exists|i: int|
                0 <= i < self.0@.len() && ((#[trigger] self.0@[i]).spec_extra_side_effect(
                    MedicineEffect::Appetite,
                ) || self.0@[i].spec_extra_side_effect(MedicineEffect::Fear)
                    || self.0@[i].spec_extra_side_effect(MedicineEffect::Smell)),
    {
        let mut i: usize = 0;
        while i < self.0.len()
            invariant
                0 <= i <= self.0@.len(),
                forall|j: int|
                    0 <= j < i ==> !((#[trigger] self.0@[j]).spec_extra_side_effect(
                        MedicineEffect::Appetite,
                    ) || self.0@[j].spec_extra_side_effect(MedicineEffect::Fear)
                        || self.0@[j].spec_extra_side_effect(MedicineEffect::Smell)),
            decreases self.0@.len() - i,
        {
            if self.0[i].report_extra_side_effects() {
                return true;
            }
            i = i + 1;
        }
        false
    }

    pub fn some_reports_have_missed_side_effects(&self) -> (r: bool)
        ensures
            r == exists|i: int|
                0 <= i < self.0@.len() && ((#[trigger] self.0@[i]).spec_missed_side_effect(
                    MedicineEffect::Appetite,
                ) || self.0@[i].spec_missed_side_effect(MedicineEffect::Fear)
                    || self.0@[i].spec_missed_side_effect(MedicineEffect::Smell)),
    {
        let mut i: usize = 0;
        while i < self.0.len()
            invariant
                0 <= i <= self.0@.len(),
                forall|j: int|
                    0 <= j < i ==> !((#[trigger] self.0@[j]).spec_missed_side_effect(
                        MedicineEffect::Appetite,
                    ) || self.0@[j].spec_missed_side_effect(MedicineEffect::Fear)
                        || self.0@[j].spec_missed_side_effect(MedicineEffect::Smell)),
            decreases self.0@.len() - i,
        {
            if self.0[i].report_missed_side_effects() {
                return true;
            }
            i = i + 1;
        }
        false
    }

    pub fn some_reports_have_extra_desirable_effects(&self) -> (r: bool)
        ensures
            r == exists|i: int|
                0 <= i < self.0@.len() && ((#[trigger] self.0@[i]).spec_extra_desirable_effect(
                    MedicineEffect::Appetite,
                ) || self.0@[i].spec_extra_desirable_effect(MedicineEffect::Fear)
                    || self.0@[i].spec_extra_desirable_effect(MedicineEffect::Smell)),
    {
        let mut i: usize = 0;
        while i < self.0.len()
            invariant
                0 <= i <= self.0@.len(),
                forall|j: int|
                    0 <= j < i ==> !((#[trigger] self.0@[j]).spec_extra_desirable_effect(
                        MedicineEffect::Appetite,
                    ) || self.0@[j].spec_extra_desirable_effect(MedicineEffect::Fear)
                        || self.0@[j].spec_extra_desirable_effect(MedicineEffect::Smell)),
            decreases self.0@.len() - i,
        {
            if self.0[i].report_extra_desirable_effects() {
                return true;
            }
            i = i + 1;
        }
        false
    }

    pub fn some_reports_have_missed_desirable_effects(&self) -> (r: bool)
        ensures
            r == exists|i: int|
                0 <= i < self.0@.len() && ((#[trigger] self.0@[i]).spec_missed_desirable_effect(
                    MedicineEffect::Appetite,
                ) || self.0@[i].spec_missed_desirable_effect(MedicineEffect::Fear)
                    || self.0@[i].spec_missed_desirable_effect(MedicineEffect::Smell)),
    {
        let mut i: usize = 0;
        while i < self.0.len()
            invariant
                0 <= i <= self.0@.len(),
                forall|j: int|
                    0 <= j < i ==> !((#[trigger] self.0@[j]).spec_missed_desirable_effect(
                        MedicineEffect::Appetite,
                    ) || self.0@[j].spec_missed_desirable_effect(MedicineEffect::Fear)
                        || self.0@[j].spec_missed_desirable_effect(MedicineEffect::Smell)),
            decreases self.0@.len() - i,
        {
            if self.0[i].report_missed_desirable_effects() {
                return true;
            }
            i = i + 1;
        }
        false
    }
}

} // verus!
