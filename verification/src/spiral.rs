//! Outward square spiral over the tile grid.

use vstd::prelude::*;
use crate::grid::{GridOffset, GridWindow};

verus! {

/// Hard limit on the number of offsets one walk reports.
pub const SPIRAL_STEP_CEILING: usize = 100_000;

/// Index of the first step of revolution `r`.
///
/// A revolution is one full turn right, up, left, down. Revolution `r` has
/// sides of `2r+1`, `2r+1`, `2r+2` and `2r+2` steps.
#[verifier::opaque]
pub open spec fn revolution_start(r: nat) -> nat {
    4 * r * r + 2 * r
}

/// Whether step `n` belongs to revolution `r`.
pub open spec fn in_revolution(n: nat, r: nat) -> bool {
    revolution_start(r) <= n < revolution_start(r + 1)
}

/// The revolution that step `n` belongs to.
pub open spec fn revolution_of(n: nat) -> nat {
    choose|r: nat| in_revolution(n, r)
}

/// Offset of the `k`-th step of revolution `r`, for `0 <= k < 8r + 6`.
///
/// The revolution starts in the corner `(-r, -r)`, runs right along the bottom
/// edge to `(r+1, -r)`, up the right edge to `(r+1, r+1)`, left along the top
/// edge to `(-r-1, r+1)` and down the left edge towards `(-r-1, -r-1)`, where
/// the next revolution starts.
pub open spec fn ring_offset(r: int, k: int) -> (int, int) {
    if k < 2 * r + 1 {
        (-r + k, -r)
    } else if k < 4 * r + 2 {
        (r + 1, -r + (k - (2 * r + 1)))
    } else if k < 6 * r + 4 {
        (r + 1 - (k - (4 * r + 2)), r + 1)
    } else {
        (-r - 1, r + 1 - (k - (6 * r + 4)))
    }
}

/// Offset that the walk reports at step `n`. It depends on nothing but `n`.
pub open spec fn spiral_offset(n: nat) -> (int, int) {
    let r = revolution_of(n);
    ring_offset(r as int, n - revolution_start(r))
}

/// Revolution `r` has `8r + 6` steps, and begins no earlier than step `r`.
pub proof fn lemma_revolution_start_step(r: nat)
    ensures
        revolution_start(r + 1) == revolution_start(r) + 8 * r + 6,
        r <= revolution_start(r),
{
    reveal(revolution_start);
    assert(4 * (r + 1) * (r + 1) + 2 * (r + 1) == 4 * r * r + 2 * r + 8 * r + 6) by (nonlinear_arith);
    assert(r <= 4 * r * r + 2 * r) by (nonlinear_arith);
}

/// A later revolution begins no earlier than an earlier one.
pub proof fn lemma_revolution_start_monotonic(a: nat, b: nat)
    requires
        a <= b,
    ensures
        revolution_start(a) <= revolution_start(b),
{
    reveal(revolution_start);
    assert(4 * a * a + 2 * a <= 4 * b * b + 2 * b) by (nonlinear_arith)
        requires
            a <= b,
    ;
}

/// A step belongs to exactly one revolution.
pub proof fn lemma_revolution_unique(n: nat, r: nat)
    requires
        in_revolution(n, r),
    ensures
        revolution_of(n) == r,
{
    let q = revolution_of(n);
    assert(in_revolution(n, q));
    if q < r {
        lemma_revolution_start_monotonic(q + 1, r);
    } else if r < q {
        lemma_revolution_start_monotonic(r + 1, q);
    }
}

/// Every step belongs to a revolution.
pub proof fn lemma_revolution_of(n: nat)
    ensures
        in_revolution(n, revolution_of(n)),
    decreases n,
{
    if n == 0 {
        reveal(revolution_start);
        assert(in_revolution(0, 0));
    } else {
        lemma_revolution_of((n - 1) as nat);
        let r = revolution_of((n - 1) as nat);
        lemma_revolution_start_step(r);
        lemma_revolution_start_step(r + 1);
        if n < revolution_start(r + 1) {
            assert(in_revolution(n, r));
        } else {
            assert(in_revolution(n, r + 1));
        }
    }
}

/// The block of offsets that the walk has covered when revolution `r`
/// begins: `2r + 1` columns and `2r` rows around the origin.
pub open spec fn covered_before(r: int, at: (int, int)) -> bool {
    -r <= at.0 <= r && -r + 1 <= at.1 <= r
}

/// Revolution `r` lays one layer around the block that was covered before
/// it, and visits no offset twice.
pub proof fn lemma_ring(r: int, k: int, other: int)
    requires
        0 <= r,
        0 <= k < 8 * r + 6,
        0 <= other < 8 * r + 6,
    ensures
        !covered_before(r, ring_offset(r, k)),
        covered_before(r + 1, ring_offset(r, k)),
        k != other ==> ring_offset(r, k) != ring_offset(r, other),
{
}

/// The walk never comes to an offset twice.
pub proof fn lemma_spiral_injective(n: nat, m: nat)
    requires
        n != m,
    ensures
        spiral_offset(n) != spiral_offset(m),
{
    lemma_revolution_of(n);
    lemma_revolution_of(m);
    let rn = revolution_of(n);
    let rm = revolution_of(m);
    let kn = n - revolution_start(rn);
    let km = m - revolution_start(rm);
    lemma_revolution_start_step(rn);
    lemma_revolution_start_step(rm);
    lemma_ring(rn as int, kn, kn);
    lemma_ring(rm as int, km, km);
    if rn == rm {
        lemma_ring(rn as int, kn, km);
    }
}

/// The walk comes to every offset of the grid.
pub proof fn lemma_spiral_reaches(i: int, j: int)
    ensures
        exists|n: nat| spiral_offset(n) == (i, j),
{
    // The offset lies on the layer that revolution `r` lays: `r + 1` is the
    // size of the smallest covered block that holds it.
    let a = if i >= -i {
        i
    } else {
        -i
    };
    let b = if j >= 1 - j {
        j
    } else {
        1 - j
    };
    let r = if a >= b {
        a - 1
    } else {
        b - 1
    };
    let k = if j == -r && -r <= i <= r {
        i + r
    } else if i == r + 1 && -r <= j <= r {
        2 * r + 1 + (j + r)
    } else if j == r + 1 {
        4 * r + 2 + (r + 1 - i)
    } else {
        6 * r + 4 + (r + 1 - j)
    };
    assert(0 <= r && 0 <= k < 8 * r + 6);
    assert(ring_offset(r, k) == (i, j));
    lemma_revolution_start_step(r as nat);
    let n = (revolution_start(r as nat) + k) as nat;
    lemma_revolution_unique(n, r as nat);
    assert(spiral_offset(n) == (i, j));
}

/// The walk goes outwards: a later step never belongs to an earlier
/// revolution, and every step of revolution `r` stays within `r + 1` tiles
/// of the origin.
pub proof fn lemma_nearest_first(n: nat, m: nat)
    requires
        n <= m,
    ensures
        revolution_of(n) <= revolution_of(m),
        covered_before(revolution_of(n) as int + 1, spiral_offset(n)),
{
    lemma_revolution_of(n);
    lemma_revolution_of(m);
    let rn = revolution_of(n);
    let rm = revolution_of(m);
    if rm < rn {
        lemma_revolution_start_monotonic(rm + 1, rn);
    }
    lemma_revolution_start_step(rn);
    let k = n - revolution_start(rn);
    lemma_ring(rn as int, k, k);
}

/// Whether no outcome recorded for revolution `r` reports an intersection.
pub open spec fn quiet(outcomes: Seq<bool>, r: nat) -> bool {
    forall|n: int|
        revolution_start(r) <= n < revolution_start(r + 1) && n < outcomes.len() ==> !#[trigger] outcomes[n]
}

/// Whether a walk with these recorded outcomes is over: two revolutions in a
/// row are complete without an intersection, or the step ceiling is reached.
pub open spec fn walk_ended(outcomes: Seq<bool>) -> bool {
    outcomes.len() >= SPIRAL_STEP_CEILING || exists|r: nat|
        revolution_start(r + 2) <= outcomes.len() && #[trigger] quiet(outcomes, r) && quiet(
            outcomes,
            r + 1,
        )
}

/// No walk is over before its first two revolutions are complete.
pub proof fn lemma_walk_goes_on(outcomes: Seq<bool>)
    requires
        outcomes.len() < 20,
    ensures
        !walk_ended(outcomes),
{
    assert(revolution_start(2) == 20) by {
        reveal(revolution_start);
    }
    assert forall|r: nat| !(revolution_start(r + 2) <= outcomes.len() && #[trigger] quiet(outcomes, r) && quiet(
        outcomes,
        r + 1,
    )) by {
        lemma_revolution_start_monotonic(2, r + 2);
    }
}

/// Direction of travel along one side of a revolution.
#[derive(Clone, Copy, Debug, PartialEq, Eq, Structural)]
enum Heading {
    Right,
    Up,
    Left,
    Down,
}

/// Where a walk stands: the step it has reached and the square it is on.
struct Cursor {
    step: usize,
    at: GridOffset,
    heading: Heading,
    seg_len: i64,
    seg_pass: i64,
    revolution: i64,
}

impl Cursor {
    /// The cursor stands where step `self.step` of the closed form puts it.
    spec fn on_track(&self) -> bool {
        let r = self.revolution as int;
        let k = self.step - revolution_start(r as nat);
        &&& 0 <= r
        &&& in_revolution(self.step as nat, r as nat)
        &&& self.at@ == ring_offset(r, k)
        &&& match self.heading {
            Heading::Right => self.seg_len == 2 * r + 1 && self.seg_pass == k,
            Heading::Up => self.seg_len == 2 * r + 1 && self.seg_pass == k - (2 * r + 1),
            Heading::Left => self.seg_len == 2 * r + 2 && self.seg_pass == k - (4 * r + 2),
            Heading::Down => self.seg_len == 2 * r + 2 && self.seg_pass == k - (6 * r + 4),
        }
        &&& 0 <= self.seg_pass < self.seg_len
    }

    fn start() -> (cursor: Cursor)
        ensures
            cursor.on_track(),
            cursor.step == 0,
            cursor.revolution == 0,
    {
        proof {
            reveal(revolution_start);
            lemma_revolution_start_step(0);
        }
        Cursor {
            step: 0,
            at: GridOffset { i: 0, j: 0 },
            heading: Heading::Right,
            seg_len: 1,
            seg_pass: 0,
            revolution: 0,
        }
    }

    /// Moves one step along the spiral. Returns whether that step completed a
    /// revolution.
    fn advance(&mut self) -> (completed: bool)
        requires
            old(self).on_track(),
            old(self).step < SPIRAL_STEP_CEILING,
        ensures
            final(self).on_track(),
            final(self).step == old(self).step + 1,
            completed <==> final(self).step == revolution_start((old(self).revolution + 1) as nat),
            final(self).revolution == old(self).revolution + if completed {
                1int
            } else {
                0int
            },
    {
        proof {
            lemma_revolution_start_step(self.revolution as nat);
            lemma_revolution_start_step((self.revolution + 1) as nat);
        }
        match self.heading {
            Heading::Right => {
                self.at.i = self.at.i + 1;
            },
            Heading::Up => {
                self.at.j = self.at.j + 1;
            },
            Heading::Left => {
                self.at.i = self.at.i - 1;
            },
            Heading::Down => {
                self.at.j = self.at.j - 1;
            },
        }
        self.seg_pass = self.seg_pass + 1;
        self.step = self.step + 1;
        let mut completed = false;
        if self.seg_pass == self.seg_len {
            self.seg_pass = 0;
            match self.heading {
                Heading::Right => {
                    self.heading = Heading::Up;
                },
                Heading::Up => {
                    self.heading = Heading::Left;
                    self.seg_len = self.seg_len + 1;
                },
                Heading::Left => {
                    self.heading = Heading::Down;
                },
                Heading::Down => {
                    self.heading = Heading::Right;
                    self.seg_len = self.seg_len + 1;
                    self.revolution = self.revolution + 1;
                    completed = true;
                },
            }
        }
        completed
    }
}

/// A spiral walk in progress.
///
/// The walk offers one offset at a time. The caller reports whether the tile
/// at that offset intersects its viewport, and the walk moves on. Its view is
/// the sequence of outcomes reported so far.
pub struct SpiralWalk {
    cursor: Cursor,
    any_intersect: bool,
    prev_quiet: bool,
    finished: bool,
    outcomes: Ghost<Seq<bool>>,
}

impl View for SpiralWalk {
    type V = Seq<bool>;

    closed spec fn view(&self) -> Seq<bool> {
        self.outcomes@
    }
}

/// The flags of a walk in revolution `r` say of the recorded outcomes what
/// their names promise.
spec fn flags_agree(o: Seq<bool>, r: nat, any_intersect: bool, prev_quiet: bool, finished: bool) -> bool {
    &&& any_intersect <==> exists|n: int| revolution_start(r) <= n < o.len() && #[trigger] o[n]
    &&& prev_quiet <==> r >= 1 && quiet(o, (r - 1) as nat)
    &&& forall|q: nat| q + 2 < r ==> !(#[trigger] quiet(o, q) && quiet(o, q + 1))
    &&& r >= 2 && quiet(o, (r - 2) as nat) && quiet(o, (r - 1) as nat) ==> finished && o.len()
        == revolution_start(r)
    &&& finished <==> o.len() >= SPIRAL_STEP_CEILING || (r >= 2 && o.len() == revolution_start(r)
        && quiet(o, (r - 2) as nat) && quiet(o, (r - 1) as nat))
}

/// Outcomes of completed revolutions are not touched by a further report.
proof fn lemma_quiet_stable(o: Seq<bool>, x: bool, q: nat)
    requires
        revolution_start(q + 1) <= o.len(),
    ensures
        quiet(o.push(x), q) == quiet(o, q),
{
    let p = o.push(x);
    if quiet(p, q) {
        assert forall|n: int|
            revolution_start(q) <= n < revolution_start(q + 1) && n < o.len() implies !#[trigger] o[n] by {
            assert(p[n] == o[n]);
        }
    }
    if quiet(o, q) {
        assert forall|n: int|
            revolution_start(q) <= n < revolution_start(q + 1) && n < p.len() implies !#[trigger] p[n] by {
            assert(p[n] == o[n]);
        }
    }
}

/// One report within a revolution keeps the flags in agreement.
proof fn lemma_flags_within(o: Seq<bool>, r: nat, any_intersect: bool, prev_quiet: bool, x: bool)
    requires
        flags_agree(o, r, any_intersect, prev_quiet, false),
        in_revolution(o.len(), r),
        o.len() + 1 < revolution_start(r + 1),
    ensures
        flags_agree(
            o.push(x),
            r,
            any_intersect || x,
            prev_quiet,
            o.len() + 1 >= SPIRAL_STEP_CEILING,
        ),
{
    let p = o.push(x);
    assert forall|q: nat| q < r implies quiet(p, q) == quiet(o, q) by {
        lemma_revolution_start_monotonic(q + 1, r);
        lemma_quiet_stable(o, x, q);
    }
    if any_intersect {
        let n = choose|n: int| revolution_start(r) <= n < o.len() && #[trigger] o[n];
        assert(p[n]);
    }
    if x {
        assert(p[o.len() as int]);
    }
    if exists|n: int| revolution_start(r) <= n < p.len() && #[trigger] p[n] {
        let n = choose|n: int| revolution_start(r) <= n < p.len() && #[trigger] p[n];
        if n < o.len() {
            assert(o[n]);
        }
    }
}

/// The report that completes revolution `r` keeps the flags in agreement.
proof fn lemma_flags_completed(o: Seq<bool>, r: nat, any_intersect: bool, prev_quiet: bool, x: bool)
    requires
        flags_agree(o, r, any_intersect, prev_quiet, false),
        in_revolution(o.len(), r),
        o.len() + 1 == revolution_start(r + 1),
    ensures
        ({
            let quiet_now = !(any_intersect || x);
            flags_agree(
                o.push(x),
                r + 1,
                false,
                quiet_now,
                (quiet_now && prev_quiet) || o.len() + 1 >= SPIRAL_STEP_CEILING,
            )
        }),
{
    let p = o.push(x);
    lemma_revolution_start_step(r + 1);
    assert forall|q: nat| q < r implies quiet(p, q) == quiet(o, q) by {
        lemma_revolution_start_monotonic(q + 1, r);
        lemma_quiet_stable(o, x, q);
    }
    assert(quiet(p, r) <==> !(any_intersect || x)) by {
        if any_intersect {
            let n = choose|n: int| revolution_start(r) <= n < o.len() && #[trigger] o[n];
            assert(p[n]);
        }
        if x {
            assert(p[o.len() as int]);
        }
        if !(any_intersect || x) {
            assert forall|n: int|
                revolution_start(r) <= n < revolution_start(r + 1) && n < p.len() implies !#[trigger] p[n] by {
                if n < o.len() {
                    assert(p[n] == o[n]);
                }
            }
        }
    }
    assert forall|q: nat| q + 2 < r + 1 implies !(#[trigger] quiet(p, q) && quiet(p, q + 1)) by {
        if q + 2 < r {
            assert(!(quiet(o, q) && quiet(o, q + 1)));
        } else {
            assert(q + 2 == r);
            assert(!(quiet(o, (r - 2) as nat) && quiet(o, (r - 1) as nat)));
        }
    }
}

impl SpiralWalk {
    /// Well-formedness: the private cursor and flags agree with the outcomes.
    pub closed spec fn wf(&self) -> bool {
        &&& self.cursor.step == self.outcomes@.len()
        &&& self.cursor.step <= SPIRAL_STEP_CEILING
        &&& self.cursor.on_track()
        &&& flags_agree(
            self.outcomes@,
            self.cursor.revolution as nat,
            self.any_intersect,
            self.prev_quiet,
            self.finished,
        )
    }

    /// A walk that stands at the origin and has no outcome recorded.
    pub fn new() -> (walk: SpiralWalk)
        ensures
            walk.wf(),
            walk@ == Seq::<bool>::empty(),
    {
        SpiralWalk {
            cursor: Cursor::start(),
            any_intersect: false,
            prev_quiet: false,
            finished: false,
            outcomes: Ghost(Seq::empty()),
        }
    }

    proof fn lemma_finished_iff_ended(&self)
        requires
            self.wf(),
        ensures
            self.finished == walk_ended(self@),
            self.cursor.at@ == spiral_offset(self@.len()),
    {
        let o = self.outcomes@;
        let r = self.cursor.revolution as nat;
        lemma_revolution_unique(self.cursor.step as nat, r);
        if walk_ended(o) && !self.finished {
            let q = choose|q: nat|
                revolution_start(q + 2) <= o.len() && #[trigger] quiet(o, q) && quiet(o, q + 1);
            if q + 2 > r {
                lemma_revolution_start_monotonic(r + 1, q + 2);
            }
            if q + 2 == r {
                assert(quiet(o, (r - 2) as nat));
                assert(quiet(o, (r - 1) as nat));
            }
        }
        if self.finished && self.cursor.step < SPIRAL_STEP_CEILING {
            let q = (r - 2) as nat;
            assert(quiet(o, q) && quiet(o, q + 1));
        }
    }

    /// Number of outcomes reported so far.
    pub fn steps(&self) -> (n: usize)
        requires
            self.wf(),
        ensures
            n == self@.len(),
    {
        self.cursor.step
    }

    /// Whether the walk is over.
    pub fn is_finished(&self) -> (ended: bool)
        requires
            self.wf(),
        ensures
            ended == walk_ended(self@),
    {
        proof {
            self.lemma_finished_iff_ended();
        }
        self.finished
    }

    /// The offset whose outcome the walk waits for, or `None` when it is over.
    pub fn current(&self) -> (next: Option<GridOffset>)
        requires
            self.wf(),
        ensures
            walk_ended(self@) <==> next is None,
            next matches Some(at) ==> at@ == spiral_offset(self@.len()),
    {
        proof {
            self.lemma_finished_iff_ended();
        }
        if self.finished {
            None
        } else {
            Some(self.cursor.at)
        }
    }

    /// Records whether the current offset intersects and moves to the next
    /// one. A walk that is over stays as it is.
    pub fn report(&mut self, intersected: bool)
        requires
            old(self).wf(),
        ensures
            final(self).wf(),
            final(self)@ == if walk_ended(old(self)@) {
                old(self)@
            } else {
                old(self)@.push(intersected)
            },
    {
        proof {
            self.lemma_finished_iff_ended();
        }
        if self.finished {
            return ;
        }
        let ghost before = self.outcomes@;
        let ghost r = self.cursor.revolution as nat;
        let ghost was_any = self.any_intersect;
        let ghost was_quiet = self.prev_quiet;
        self.outcomes = Ghost(before.push(intersected));
        if intersected {
            self.any_intersect = true;
        }
        let completed = self.cursor.advance();
        if completed {
            let quiet_now = !self.any_intersect;
            if quiet_now && self.prev_quiet {
                self.finished = true;
            }
            self.prev_quiet = quiet_now;
            self.any_intersect = false;
        }
        if self.cursor.step >= SPIRAL_STEP_CEILING {
            self.finished = true;
        }
        proof {
            if completed {
                lemma_flags_completed(before, r, was_any, was_quiet, intersected);
            } else {
                lemma_flags_within(before, r, was_any, was_quiet, intersected);
            }
        }
    }
}


/// The outcomes of the first `n` steps when the tile at `(i, j)` intersects
/// exactly where `hit(i, j)` holds.
pub open spec fn outcomes_of(hit: spec_fn(int, int) -> bool, n: nat) -> Seq<bool> {
    Seq::new(n, |k: int| hit(spiral_offset(k as nat).0, spiral_offset(k as nat).1))
}

/// Whether a walk under `hit` reports step `n` at all.
pub open spec fn visited(hit: spec_fn(int, int) -> bool, n: nat) -> bool {
    !walk_ended(outcomes_of(hit, n))
}

/// The intersecting offsets among the first `n` steps of a walk under `hit`,
/// in the order of the walk.
pub open spec fn hits_upto(hit: spec_fn(int, int) -> bool, n: nat) -> Seq<(int, int)>
    decreases n,
{
    if n == 0 {
        Seq::empty()
    } else {
        let m = (n - 1) as nat;
        let at = spiral_offset(m);
        if visited(hit, m) && hit(at.0, at.1) {
            hits_upto(hit, m).push(at)
        } else {
            hits_upto(hit, m)
        }
    }
}

/// All intersecting offsets of a complete walk under `hit`, nearest first.
pub open spec fn spiral_hits(hit: spec_fn(int, int) -> bool) -> Seq<(int, int)> {
    hits_upto(hit, SPIRAL_STEP_CEILING as nat)
}

/// The offsets of a sequence of grid positions.
pub open spec fn offsets_of(tiles: Seq<GridOffset>) -> Seq<(int, int)> {
    tiles.map_values(|at: GridOffset| at@)
}

/// Once a walk is over it stays over, whatever is appended.
pub proof fn lemma_ended_is_final(hit: spec_fn(int, int) -> bool, a: nat, b: nat)
    requires
        a <= b,
        walk_ended(outcomes_of(hit, a)),
    ensures
        walk_ended(outcomes_of(hit, b)),
{
    let oa = outcomes_of(hit, a);
    let ob = outcomes_of(hit, b);
    if a < SPIRAL_STEP_CEILING {
        let r = choose|r: nat|
            revolution_start(r + 2) <= oa.len() && #[trigger] quiet(oa, r) && quiet(oa, r + 1);
        lemma_revolution_start_monotonic(r + 1, r + 2);
        assert(quiet(ob, r)) by {
            assert forall|n: int|
                revolution_start(r) <= n < revolution_start(r + 1) && n < ob.len() implies !#[trigger] ob[n] by {
                assert(ob[n] == oa[n]);
            }
        }
        assert(quiet(ob, r + 1)) by {
            assert forall|n: int|
                revolution_start(r + 1) <= n < revolution_start(r + 2) && n < ob.len() implies !#[trigger] ob[n] by {
                assert(ob[n] == oa[n]);
            }
        }
    }
}

/// Steps that the walk does not report add no hits.
proof fn lemma_hits_settled(hit: spec_fn(int, int) -> bool, a: nat, b: nat)
    requires
        a <= b,
        walk_ended(outcomes_of(hit, a)),
    ensures
        hits_upto(hit, b) == hits_upto(hit, a),
    decreases b,
{
    if a < b {
        let m = (b - 1) as nat;
        lemma_ended_is_final(hit, a, m);
        lemma_hits_settled(hit, a, m);
    }
}

/// Every offset that a walk collects intersects.
pub proof fn lemma_hits_intersect(hit: spec_fn(int, int) -> bool, n: nat)
    ensures
        forall|k: int|
            0 <= k < hits_upto(hit, n).len() ==> hit(
                (#[trigger] hits_upto(hit, n)[k]).0,
                hits_upto(hit, n)[k].1,
            ),
    decreases n,
{
    if n > 0 {
        let m = (n - 1) as nat;
        lemma_hits_intersect(hit, m);
        let at = spiral_offset(m);
        assert forall|k: int| 0 <= k < hits_upto(hit, n).len() implies hit(
            (#[trigger] hits_upto(hit, n)[k]).0,
            hits_upto(hit, n)[k].1,
        ) by {
            if k < hits_upto(hit, m).len() {
                assert(hits_upto(hit, n)[k] == hits_upto(hit, m)[k]);
            } else {
                assert(hits_upto(hit, n)[k] == at);
            }
        }
    }
}

/// The offsets that a walk collects are offsets of earlier steps, and no two
/// of them are the same.
pub proof fn lemma_hits_distinct(hit: spec_fn(int, int) -> bool, n: nat)
    ensures
        forall|k: int|
            0 <= k < hits_upto(hit, n).len() ==> exists|m: nat|
                m < n && #[trigger] spiral_offset(m) == #[trigger] hits_upto(hit, n)[k],
        forall|a: int, b: int|
            0 <= a < b < hits_upto(hit, n).len() ==> #[trigger] hits_upto(hit, n)[a] != #[trigger] hits_upto(
                hit,
                n,
            )[b],
    decreases n,
{
    if n > 0 {
        let m = (n - 1) as nat;
        let before = hits_upto(hit, m);
        let now = hits_upto(hit, n);
        let at = spiral_offset(m);
        lemma_hits_distinct(hit, m);
        assert forall|k: int| 0 <= k < now.len() implies exists|q: nat|
            q < n && #[trigger] spiral_offset(q) == #[trigger] now[k] by {
            if k < before.len() {
                assert(now[k] == before[k]);
                let q = choose|q: nat| q < m && #[trigger] spiral_offset(q) == before[k];
                assert(q < n && spiral_offset(q) == now[k]);
            } else {
                assert(now[k] == at);
                assert(m < n && spiral_offset(m) == now[k]);
            }
        }
        assert forall|a: int, b: int| 0 <= a < b < now.len() implies #[trigger] now[a] != #[trigger] now[b] by {
            assert(now[a] == before[a]);
            if b < before.len() {
                assert(now[b] == before[b]);
            } else {
                assert(now[b] == at);
                let q = choose|q: nat| q < m && #[trigger] spiral_offset(q) == before[a];
                lemma_spiral_injective(q, m);
            }
        }
    }
}

/// Walks the whole spiral over a window and returns the offsets inside it,
/// nearest first.
pub fn spiral_walk(window: &GridWindow) -> (hits: Vec<GridOffset>)
    ensures
        offsets_of(hits@) == spiral_hits(|i: int, j: int| window.covers(i, j)),
{
    let ghost hit = |i: int, j: int| window.covers(i, j);
    let mut walk = SpiralWalk::new();
    let mut hits: Vec<GridOffset> = Vec::new();
    proof {
        assert(walk@ =~= outcomes_of(hit, 0));
        assert(offsets_of(hits@) =~= hits_upto(hit, 0));
    }
    loop
        invariant
            walk.wf(),
            walk@.len() <= SPIRAL_STEP_CEILING,
            walk@ == outcomes_of(hit, walk@.len()),
            offsets_of(hits@) == hits_upto(hit, walk@.len()),
            hit == (|i: int, j: int| window.covers(i, j)),
        ensures
            walk_ended(walk@),
            walk@.len() <= SPIRAL_STEP_CEILING,
            walk@ == outcomes_of(hit, walk@.len()),
            offsets_of(hits@) == hits_upto(hit, walk@.len()),
        decreases SPIRAL_STEP_CEILING - walk@.len(),
    {
        let ghost n = walk@.len();
        let ghost seen = hits@;
        match walk.current() {
            None => {
                break ;
            },
            Some(at) => {
                let inside = window.contains(at);
                if inside {
                    hits.push(at);
                }
                walk.report(inside);
                proof {
                    assert(inside == hit(spiral_offset(n).0, spiral_offset(n).1));
                    assert(walk@ =~= outcomes_of(hit, n + 1));
                    assert(visited(hit, n));
                    if inside {
                        assert(offsets_of(hits@) =~= offsets_of(seen).push(at@));
                    }
                }
            },
        }
    }
    proof {
        lemma_hits_settled(hit, walk@.len(), SPIRAL_STEP_CEILING as nat);
    }
    hits
}

/// The walk opens with the origin and the eight squares around it, counter-
/// clockwise from the right: the first eight offsets are fixed, whatever the
/// caller reports.
pub proof fn lemma_spiral_opening()
    ensures
        spiral_offset(0) == (0int, 0int),
        spiral_offset(1) == (1int, 0int),
        spiral_offset(2) == (1int, 1int),
        spiral_offset(3) == (0int, 1int),
        spiral_offset(4) == (-1int, 1int),
        spiral_offset(5) == (-1int, 0int),
        spiral_offset(6) == (-1int, -1int),
        spiral_offset(7) == (0int, -1int),
{
    reveal(revolution_start);
    lemma_revolution_unique(0, 0);
    lemma_revolution_unique(1, 0);
    lemma_revolution_unique(2, 0);
    lemma_revolution_unique(3, 0);
    lemma_revolution_unique(4, 0);
    lemma_revolution_unique(5, 0);
    lemma_revolution_unique(6, 1);
    lemma_revolution_unique(7, 1);
}

/// A walk that never meets an intersection is over after exactly two
/// revolutions, that is after twenty steps, far below the step ceiling.
pub proof fn lemma_quiet_walk_halts(walk: SpiralWalk)
    requires
        walk.wf(),
        forall|n: int| 0 <= n < walk@.len() ==> !walk@[n],
    ensures
        revolution_start(2) == 20,
        walk@.len() <= 20 < SPIRAL_STEP_CEILING,
        walk_ended(walk@) <==> walk@.len() == 20,
{
    let o = walk@;
    let r = walk.cursor.revolution as nat;
    assert(revolution_start(2) == 20) by {
        reveal(revolution_start);
    }
    walk.lemma_finished_iff_ended();
    assert forall|q: nat| quiet(o, q) by {}
    if r >= 3 {
        assert(quiet(o, 0) && quiet(o, 1));
    }
    if r >= 2 {
        assert(quiet(o, (r - 2) as nat) && quiet(o, (r - 1) as nat));
        assert(r == 2);
    } else {
        lemma_revolution_start_monotonic(r + 1, 2);
    }
}

} // verus!
