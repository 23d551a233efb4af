//! The plant in progress: one growth point for every finished session.

use vstd::prelude::*;

verus! {

/// The stages a plant passes through, in order.
#[derive(Debug, Clone, Copy, PartialEq, Eq, Structural)]
pub enum PlantStage {
    Seed,
    Sprout,
    Seedling,
    YoungPlant,
    FullGrown,
}

/// The growth points at which a plant is complete.
pub const MAX_GROWTH: u32 = 10;

impl PlantStage {
    /// The number of the stage, counted from zero.
    pub open spec fn number(self) -> nat {
        match self {
            PlantStage::Seed => 0,
            PlantStage::Sprout => 1,
            PlantStage::Seedling => 2,
            PlantStage::YoungPlant => 3,
            PlantStage::FullGrown => 4,
        }
    }

    /// The stage with the given number; the last stage for any number past it.
    pub open spec fn numbered(stage: nat) -> PlantStage {
        if stage == 0 {
            PlantStage::Seed
        } else if stage == 1 {
            PlantStage::Sprout
        } else if stage == 2 {
            PlantStage::Seedling
        } else if stage == 3 {
            PlantStage::YoungPlant
        } else {
            PlantStage::FullGrown
        }
    }

    /// The growth points at which the stage begins.
    pub open spec fn first_point(self) -> nat {
        match self {
            PlantStage::Seed => 0,
            PlantStage::Sprout => 2,
            PlantStage::Seedling => 5,
            PlantStage::YoungPlant => 8,
            PlantStage::FullGrown => 10,
        }
    }

    /// The growth points at which the stage is left for the next one. The
    /// last stage is never left.
    pub open spec fn end_point(self) -> nat {
        match self {
            PlantStage::FullGrown => 10,
            _ => PlantStage::numbered(self.number() + 1).first_point(),
        }
    }

    /// The stage that a plant with the given growth points is in: the one
    /// whose band of points holds them.
    pub open spec fn at_points(points: nat) -> PlantStage {
        if points < 2 {
            PlantStage::Seed
        } else if points < 5 {
            PlantStage::Sprout
        } else if points < 8 {
            PlantStage::Seedling
        } else if points < 10 {
            PlantStage::YoungPlant
        } else {
            PlantStage::FullGrown
        }
    }

    /// The name of the stage.
    pub open spec fn spec_name(self) -> Seq<char> {
        match self {
            PlantStage::Seed => "Seed"@,
            PlantStage::Sprout => "Sprout"@,
            PlantStage::Seedling => "Seedling"@,
            PlantStage::YoungPlant => "Young Plant"@,
            PlantStage::FullGrown => "Full Grown"@,
        }
    }

    /// The pictogram of the stage.
    pub open spec fn spec_icon(self) -> Seq<char> {
        match self {
            PlantStage::Seed => "🌱"@,
            PlantStage::Sprout => "🌿"@,
            PlantStage::Seedling => "🪴"@,
            PlantStage::YoungPlant => "🌸"@,
            PlantStage::FullGrown => "🌳"@,
        }
    }

    /// The stage with the given number; the last stage for any number past it.
    pub fn from_u32(stage: u32) -> (s: PlantStage)
        ensures
            s == PlantStage::numbered(stage as nat),
            stage <= 4 ==> s.number() == stage,
            stage > 4 ==> s == PlantStage::FullGrown,
    {
        match stage {
            0 => PlantStage::Seed,
            1 => PlantStage::Sprout,
            2 => PlantStage::Seedling,
            3 => PlantStage::YoungPlant,
            _ => PlantStage::FullGrown,
        }
    }

    /// The number of the stage, counted from zero.
    pub fn to_u32(&self) -> (n: u32)
        ensures
            n == self.number(),
            n <= 4,
            PlantStage::numbered(n as nat) == *self,
    {
        match self {
            PlantStage::Seed => 0,
            PlantStage::Sprout => 1,
            PlantStage::Seedling => 2,
            PlantStage::YoungPlant => 3,
            PlantStage::FullGrown => 4,
        }
    }

    /// The number of the last stage.
    pub fn max_stage() -> (n: u32)
        ensures
            n == PlantStage::FullGrown.number(),
            forall|s: PlantStage| s.number() <= n,
    {
        4
    }

    /// The pictogram of the stage.
    pub fn icon(&self) -> (s: &'static str)
        ensures
            s@ == self.spec_icon(),
    {
        match self {
            PlantStage::Seed => "🌱",
            PlantStage::Sprout => "🌿",
            PlantStage::Seedling => "🪴",
            PlantStage::YoungPlant => "🌸",
            PlantStage::FullGrown => "🌳",
        }
    }

    /// The name of the stage.
    pub fn name(&self) -> (s: &'static str)
        ensures
            s@ == self.spec_name(),
    {
        match self {
            PlantStage::Seed => "Seed",
            PlantStage::Sprout => "Sprout",
            PlantStage::Seedling => "Seedling",
            PlantStage::YoungPlant => "Young Plant",
            PlantStage::FullGrown => "Full Grown",
        }
    }

    /// The growth points at which the stage begins.
    pub fn threshold(&self) -> (points: u32)
        ensures
            points == self.first_point(),
    {
        match self {
            PlantStage::Seed => 0,
            PlantStage::Sprout => 2,
            PlantStage::Seedling => 5,
            PlantStage::YoungPlant => 8,
            PlantStage::FullGrown => 10,
        }
    }

    /// The stage that a plant with the given growth points is in.
    pub fn for_points(points: u32) -> (s: PlantStage)
        ensures
            s == PlantStage::at_points(points as nat),
            s.first_point() <= points,
            points < MAX_GROWTH ==> points < s.end_point(),
    {
        if points < 2 {
            PlantStage::Seed
        } else if points < 5 {
            PlantStage::Sprout
        } else if points < 8 {
            PlantStage::Seedling
        } else if points < 10 {
            PlantStage::YoungPlant
        } else {
            PlantStage::FullGrown
        }
    }
}

/// A plant: its growth points and the stage they put it in.
#[derive(Debug, Clone, Copy, PartialEq, Eq, Structural)]
pub struct Plant {
    pub stage: PlantStage,
    pub growth_points: u32,
}

impl Plant {
    /// The growth points are within the limit and the stage is theirs.
    pub open spec fn wf(self) -> bool {
        &&& self.growth_points <= MAX_GROWTH
        &&& self.stage == PlantStage::at_points(self.growth_points as nat)
    }

    /// A seed without growth points.
    pub open spec fn fresh() -> Plant {
        Plant { stage: PlantStage::Seed, growth_points: 0 }
    }

    /// The plant with the given growth points, cut off at the limit.
    pub open spec fn with_points(points: nat) -> Plant {
        let capped = if points < MAX_GROWTH {
            points
        } else {
            MAX_GROWTH as nat
        };
        Plant { stage: PlantStage::at_points(capped), growth_points: capped as u32 }
    }

    /// The plant one finished session later.
    pub open spec fn grown(self) -> Plant {
        Plant::with_points(self.growth_points as nat + 1)
    }

    /// The plant `sessions` finished sessions later.
    pub open spec fn grown_by(self, sessions: nat) -> Plant
        decreases sessions,
    {
        if sessions == 0 {
            self
        } else {
            self.grown_by((sessions - 1) as nat).grown()
        }
    }

    /// Whether the plant has all its growth points.
    pub open spec fn complete(self) -> bool {
        self.growth_points >= MAX_GROWTH
    }

    /// The sessions still needed to reach the next stage.
    pub open spec fn to_next_stage(self) -> nat {
        if self.complete() {
            0
        } else {
            (PlantStage::at_points(self.growth_points as nat).end_point()
                - self.growth_points) as nat
        }
    }

    /// How far the plant is through the band of its stage, in percent,
    /// rounded down.
    pub open spec fn band_progress(self) -> nat {
        if self.complete() {
            100
        } else {
            let stage = PlantStage::at_points(self.growth_points as nat);
            ((self.growth_points - stage.first_point()) * 100 / (stage.end_point()
                - stage.first_point())) as nat
        }
    }

    /// A seed without growth points.
    pub fn new() -> (p: Plant)
        ensures
            p == Plant::fresh(),
            p.wf(),
            !p.complete(),
    {
        Plant { stage: PlantStage::Seed, growth_points: 0 }
    }

    /// The plant of a snapshot, which stores a stage number beside the growth
    /// points. The points decide: they are cut off at the limit, and the
    /// stage is the one they belong to, whatever number came with them.
    pub fn from_stage(stage: u32, points: u32) -> (p: Plant)
        ensures
            p == Plant::with_points(points as nat),
            p.wf(),
            (points <= MAX_GROWTH && PlantStage::numbered(stage as nat) == PlantStage::at_points(
                points as nat,
            )) ==> p == (Plant {
                stage: PlantStage::numbered(stage as nat),
                growth_points: points,
            }),
    {
        let capped = if points < MAX_GROWTH {
            points
        } else {
            MAX_GROWTH
        };
        Plant { stage: PlantStage::for_points(capped), growth_points: capped }
    }

    /// Adds one growth point, up to the limit, and sets the stage that the
    /// points then belong to.
    pub fn add_growth(&mut self)
        ensures
            *final(self) == old(self).grown(),
            final(self).wf(),
            old(self).wf() && old(self).complete() ==> *final(self) == *old(self),
    {
        let points = if self.growth_points < MAX_GROWTH {
            self.growth_points + 1
        } else {
            MAX_GROWTH
        };
        self.growth_points = points;
        self.stage = PlantStage::for_points(points);
    }

    /// Whether the plant has all its growth points.
    pub fn is_complete(&self) -> (b: bool)
        ensures
            b == self.complete(),
    {
        self.growth_points >= MAX_GROWTH
    }

    /// How far the plant is through the band of its stage, in percent,
    /// rounded down; 100 once it is complete.
    pub fn progress(&self) -> (percent: u16)
        ensures
            percent == self.band_progress(),
            percent <= 100,
    {
        if self.growth_points >= MAX_GROWTH {
            return 100;
        }
        let stage = PlantStage::for_points(self.growth_points);
        let first = stage.threshold();
        let width: u32 = if first == 0 || first == 8 {
            2
        } else {
            3
        };
        let done: u32 = self.growth_points - first;
        assert(done < width);
        ((done * 100) / width) as u16
    }

    /// The sessions still needed to reach the next stage; none once the
    /// plant is complete.
    pub fn sessions_to_next_stage(&self) -> (n: usize)
        ensures
            n == self.to_next_stage(),
            self.complete() <==> n == 0,
    {
        if self.growth_points >= MAX_GROWTH {
            return 0;
        }
        let stage = PlantStage::for_points(self.growth_points);
        let next: u32 = if stage.threshold() == 0 {
            2
        } else if stage.threshold() == 2 {
            5
        } else if stage.threshold() == 5 {
            8
        } else {
            10
        };
        (next - self.growth_points) as usize
    }
}

/// The stage of a plant is decided by bands of growth points that follow one
/// another without gap or overlap: every number of points lies in the band
/// of exactly one stage, which is `at_points` of it.
pub proof fn lemma_stage_bands(points: nat, stage: PlantStage)
    ensures
        PlantStage::at_points(points) == stage <==> (stage.first_point() <= points && (points
            < stage.end_point() || stage == PlantStage::FullGrown)),
        stage != PlantStage::FullGrown ==> stage.first_point() < stage.end_point(),
        stage != PlantStage::FullGrown ==> stage.end_point() == PlantStage::numbered(
            stage.number() + 1,
        ).first_point(),
{
}

/// A new plant that is grown `sessions` times has `sessions` growth points,
/// up to the limit. So it is complete, and in the last stage, after exactly
/// `MAX_GROWTH` sessions, and stays as it is however many follow.
pub proof fn lemma_growth_saturates(sessions: nat)
    ensures
        Plant::fresh().grown_by(sessions) == Plant::with_points(sessions),
        Plant::fresh().grown_by(sessions).wf(),
        Plant::fresh().grown_by(sessions).complete() <==> sessions >= MAX_GROWTH,
        sessions >= MAX_GROWTH ==> Plant::fresh().grown_by(sessions) == Plant::fresh().grown_by(
            MAX_GROWTH as nat,
        ),
        sessions >= MAX_GROWTH ==> Plant::fresh().grown_by(sessions).stage
            == PlantStage::FullGrown,
    decreases sessions,
{
    if sessions > 0 {
        lemma_growth_saturates((sessions - 1) as nat);
    }
    if sessions > MAX_GROWTH {
        lemma_growth_saturates(MAX_GROWTH as nat);
    }
}

} // verus!
