//! Orbits shared by cohorts of enemies.
//!
//! Enemies arrive in waves. The members of one wave fly the same curve: an
//! ellipse around a pivot, entered from a start point off screen. A
//! [`FormationMaker`] hands the same [`Formation`] to each member of a
//! cohort and draws a new one when the cohort is full.
use crate::geometry::{trunc_div, Point, WinSize, ONE};
use crate::movement::BASE_SPEED;
use crate::rng::{gen_range, gen_ratio};
use rand::thread_rng;
use vstd::prelude::*;

verus! {

/// Number of enemies that share one formation.
pub const FORMATION_MEMBERS_MAX: u32 = 2;

/// How far beyond the window's edges a formation starts.
pub const START_MARGIN: i32 = 100 * ONE;

/// Bounds of the orbit's horizontal radius.
pub const RADIUS_X_MIN: i32 = 80 * ONE;

pub const RADIUS_X_MAX: i32 = 150 * ONE;

/// The orbit's vertical radius.
pub const RADIUS_Y: i32 = 100 * ONE;

/// The orbit of one enemy: it enters at `start` and circles `pivot` on an
/// ellipse of the given radii at the given speed. Its polar angle at the
/// start is that of `start` seen from `pivot`.
#[derive(Clone, Copy, Debug, PartialEq, Eq, Structural)]
pub struct Formation {
    pub start: Point,
    pub radius: Point,
    pub pivot: Point,
    pub speed: i32,
}

impl Formation {
    /// The formation that a set of draws stands for in a window: it starts
    /// beyond the right edge at height `start_y`. The side draw is taken
    /// along, and either side leads to the right edge.
    pub open spec fn assembled(
        win_size: WinSize,
        side: bool,
        start_y: i32,
        pivot: Point,
        radius_x: i32,
    ) -> Formation {
        Formation {
            start: Point { x: (win_size.half_w() + START_MARGIN) as i32, y: start_y },
            radius: Point { x: radius_x, y: RADIUS_Y },
            pivot,
            speed: BASE_SPEED,
        }
    }

    /// Whether the formation is one that can be drawn for the window: it
    /// starts beyond the right edge, no further than the margin above or
    /// below the window; its pivot lies in the middle half of the width and
    /// the upper-middle third of the height; its radii and speed are in
    /// their bounds.
    pub open spec fn placed_in(self, win_size: WinSize) -> bool {
        &&& self.start.x == win_size.half_w() + START_MARGIN
        &&& -(win_size.half_h() + START_MARGIN) <= self.start.y <= win_size.half_h() + START_MARGIN
        &&& -trunc_div(win_size.w as int, 4) <= self.pivot.x <= trunc_div(win_size.w as int, 4)
        &&& 0 <= self.pivot.y <= trunc_div(win_size.h as int, 3)
        &&& RADIUS_X_MIN <= self.radius.x <= RADIUS_X_MAX
        &&& self.radius.y == RADIUS_Y
        &&& self.speed == BASE_SPEED
    }

    /// Builds the formation that the given draws stand for.
    pub fn from_draws(
        win_size: &WinSize,
        side: bool,
        start_y: i32,
        pivot: Point,
        radius_x: i32,
    ) -> (formation: Formation)
        ensures
            formation == Formation::assembled(*win_size, side, start_y, pivot, radius_x),
            formation.start.x == win_size.half_w() + START_MARGIN,
    {
        let w_span: i32 = win_size.w / 2 + START_MARGIN;
        // Either outcome of the side draw enters from the right edge.
        let x: i32 = if side { w_span } else { w_span };
        Formation {
            start: Point { x, y: start_y },
            radius: Point { x: radius_x, y: RADIUS_Y },
            pivot,
            speed: BASE_SPEED,
        }
    }
}

/// Hands out formations, the same one to each member of a cohort.
pub struct FormationMaker {
    current_template: Option<Formation>,
    current_members: u32,
}

impl FormationMaker {
    /// The formation of the cohort that is being filled, if there is one.
    pub closed spec fn template(self) -> Option<Formation> {
        self.current_template
    }

    /// How many enemies have received the current formation.
    pub closed spec fn members(self) -> nat {
        self.current_members as nat
    }

    /// The count of members never passes the cap.
    pub open spec fn wf(self) -> bool {
        self.members() <= FORMATION_MEMBERS_MAX
    }

    /// Whether the next enemy joins the current cohort.
    pub open spec fn reuses(self) -> bool {
        self.template() is Some && self.members() < FORMATION_MEMBERS_MAX
    }

    /// What one call of [`FormationMaker::make`] may do: it takes the maker
    /// from `self` to `next` and hands out `formation`. A cohort with room
    /// takes the enemy in and hands out its formation once more. Otherwise
    /// a formation placed in the window becomes the new template, with one
    /// member.
    pub open spec fn steps_to(self, win_size: WinSize, next: FormationMaker, formation: Formation) -> bool {
        if self.reuses() {
            &&& Some(formation) == self.template()
            &&& next.template() == self.template()
            &&& next.members() == self.members() + 1
        } else {
            &&& formation.placed_in(win_size)
            &&& next.template() == Some(formation)
            &&& next.members() == 1
        }
    }

    /// The formation for the next enemy. While the current cohort has room
    /// the enemy joins it and gets its formation. Otherwise a new
    /// formation is drawn at random for the window and starts a cohort of
    /// one.
    pub fn make(&mut self, win_size: &WinSize) -> (formation: Formation)
        requires
            win_size.wf(),
        ensures
            old(self).steps_to(*win_size, *final(self), formation),
            final(self).wf(),
    {
        match self.current_template {
            Some(template) if self.current_members < FORMATION_MEMBERS_MAX => {
                self.current_members += 1;
                template
            },
            _ => {
                let mut rng = thread_rng();

                let h_span: i32 = win_size.h / 2 + START_MARGIN;
                let side = gen_ratio(&mut rng, 1, 2);
                let y = gen_range(&mut rng, -h_span, h_span + 1);

                let w_span: i32 = win_size.w / 4;
                let h_span: i32 = win_size.h / 3;
                let pivot = Point {
                    x: gen_range(&mut rng, -w_span, w_span + 1),
                    y: gen_range(&mut rng, 0, h_span + 1),
                };

                let radius_x = gen_range(&mut rng, RADIUS_X_MIN, RADIUS_X_MAX + 1);

                let formation = Formation::from_draws(win_size, side, y, pivot, radius_x);

                self.current_template = Some(formation);
                self.current_members = 1;
                formation
            },
        }
    }
}

impl Default for FormationMaker {
    /// A maker that has handed out nothing yet.
    fn default() -> (maker: FormationMaker)
        ensures
            maker.template() is None,
            maker.members() == 0,
            maker.wf(),
    {
        FormationMaker { current_template: None, current_members: 0 }
    }
}

/// Whether `makers` and `formations` record successive calls of
/// [`FormationMaker::make`] in one window: call `i` took the maker from
/// `makers[i]` to `makers[i + 1]` and handed out `formations[i]`.
pub open spec fn records_calls(
    win_size: WinSize,
    makers: Seq<FormationMaker>,
    formations: Seq<Formation>,
) -> bool {
    &&& makers.len() == formations.len() + 1
    &&& forall|i: int|
        0 <= i < formations.len() ==> makers[i].steps_to(
            win_size,
            makers[i + 1],
            #[trigger] formations[i],
        )
}

/// The calls that fill one cohort all hand out the same formation: when the
/// first of at most [`FORMATION_MEMBERS_MAX`] successive calls starts a
/// cohort, every one of them returns what the first returned, and the
/// maker then holds that formation with one member per call.
pub proof fn lemma_cohort_shares_formation(
    win_size: WinSize,
    makers: Seq<FormationMaker>,
    formations: Seq<Formation>,
)
    requires
        records_calls(win_size, makers, formations),
        !makers[0].reuses(),
        1 <= formations.len() <= FORMATION_MEMBERS_MAX,
    ensures
        forall|i: int| 0 <= i < formations.len() ==> #[trigger] formations[i] == formations[0],
        makers.last().template() == Some(formations[0]),
        makers.last().members() == formations.len(),
    decreases formations.len(),
{
    if formations.len() > 1 {
        let calls = formations.len() - 1;
        lemma_cohort_shares_formation(win_size, makers.take(calls + 1), formations.take(calls));
        assert(makers.take(calls + 1).last() == makers[calls]);
        assert(formations.take(calls)[0] == formations[0]);
        assert(makers[calls].steps_to(win_size, makers[calls + 1], formations[calls]));
        assert forall|i: int| 0 <= i < formations.len() implies #[trigger] formations[i] == formations[0] by {
            if i < calls {
                assert(formations.take(calls)[i] == formations[i]);
            }
        }
    } else {
        assert(makers[0].steps_to(win_size, makers[1], formations[0]));
    }
}

/// The call after a full cohort draws anew: once [`FORMATION_MEMBERS_MAX`]
/// calls have filled a cohort, the next call does not hand out its
/// formation again by rule. It returns a formation placed in the window,
/// which becomes the template of a new cohort of one. (The draw is free to
/// fall on the values of the old formation.)
pub proof fn lemma_full_cohort_draws_anew(
    win_size: WinSize,
    makers: Seq<FormationMaker>,
    formations: Seq<Formation>,
)
    requires
        records_calls(win_size, makers, formations),
        !makers[0].reuses(),
        formations.len() == FORMATION_MEMBERS_MAX + 1,
    ensures
        !makers[FORMATION_MEMBERS_MAX as int].reuses(),
        formations.last().placed_in(win_size),
        makers.last().template() == Some(formations.last()),
        makers.last().members() == 1,
{
    let cap = FORMATION_MEMBERS_MAX as int;
    lemma_cohort_shares_formation(win_size, makers.take(cap + 1), formations.take(cap));
    assert(makers.take(cap + 1).last() == makers[cap]);
    assert(makers[cap].steps_to(win_size, makers[cap + 1], formations[cap]));
}

} // verus!
