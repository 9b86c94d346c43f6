//! The cave-exploration engine: its configuration, actions, responses and
//! events, the game state, and the capability contract that the guarded
//! boundary container consumes.

use vstd::prelude::*;
use vstd::pervasive::VecAdditionalExecFns;
use vstd::string::StringSliceAdditionalSpecFns;
use crate::json::{append_bytes, dec_of, join_br, join_msgs, u8_dec};
use crate::rng::{rand20, rand3, rand4, rand_upto};

verus! {

/// The kind of execution environment hosting the engine.
#[derive(Clone, Copy, Debug, PartialEq, Eq, Structural)]
pub enum InterfaceType {
    PC,
    Android,
}

/// The engine needs no configuration parameters, but the boundary still
/// decodes one, so the type exists.
#[derive(Debug)]
pub struct Config {}

/// A lifecycle notification handed to the engine by its host.
#[derive(Clone, Copy, Debug, PartialEq, Eq, Structural)]
pub enum Event {
    Create,
    SaveInstanceState,
    RestoreInstanceState,
    Stop,
}

/// An `Action` is a user command that the engine executes.
#[derive(Clone, Debug, PartialEq, Eq)]
pub enum Action {
    Move(u8),
    Shoot(Vec<u8>),
    ReStart,
    Instructions,
    Quit,
}

/// The mathematical value of an [`Action`]: the same choices, with the
/// shot path as a sequence.
pub enum ActionView {
    Move(u8),
    Shoot(Seq<u8>),
    ReStart,
    Instructions,
    Quit,
}

impl View for Action {
    type V = ActionView;

    open spec fn view(&self) -> ActionView {
        match self {
            Action::Move(c) => ActionView::Move(*c),
            Action::Shoot(p) => ActionView::Shoot(p@),
            Action::ReStart => ActionView::ReStart,
            Action::Instructions => ActionView::Instructions,
            Action::Quit => ActionView::Quit,
        }
    }
}

/// A `Response` is what the engine reports back to its host after an
/// action or an event: whether the host should shut down, the messages of
/// the turn joined into one markup string, and the tunnels out of the
/// player's room.
#[derive(Clone, Debug, PartialEq, Eq)]
pub struct Response {
    pub shutdown_required: bool,
    pub msgs: Vec<u8>,
    pub tunnels: Vec<u8>,
}

impl Response {
    /// A response is well formed when it lists exactly the three tunnels
    /// out of a room.
    pub open spec fn wf(&self) -> bool {
        self.tunnels@.len() == 3
    }

    /// Whether the host should shut the application down.
    pub fn shutdown_required(&self) -> (r: bool)
        ensures
            r == self.shutdown_required,
    {
        self.shutdown_required
    }

    /// A field-for-field copy.
    pub fn duplicate(&self) -> (r: Response)
        ensures
            r.shutdown_required == self.shutdown_required,
            r.msgs@ == self.msgs@,
            r.tunnels@ == self.tunnels@,
            r.wf() == self.wf(),
    {
        Response {
            shutdown_required: self.shutdown_required,
            msgs: copy_rooms(&self.msgs),
            tunnels: copy_rooms(&self.tunnels),
        }
    }
}

impl Default for Response {
    fn default() -> (r: Self)
        ensures
            !r.shutdown_required,
            r.msgs@ == Seq::<u8>::empty(),
            r.tunnels@ == seq![0u8, 0u8, 0u8],
            r.wf(),
    {
        let mut tunnels: Vec<u8> = Vec::new();
        tunnels.push(0);
        tunnels.push(0);
        tunnels.push(0);
        proof {
            assert(tunnels@ =~= seq![0u8, 0u8, 0u8]);
        }
        Response { shutdown_required: false, msgs: Vec::new(), tunnels }
    }
}

/// The cave: a dodecahedron, room `r` (numbered from 1) has the tunnels
/// `cave_map()[3*(r-1) + k]` for `k` in `0..3`.
pub open spec fn cave_map() -> Seq<u8> {
    seq![
        2u8, 5u8, 8u8, 1u8, 3u8, 10u8, 2u8, 4u8, 12u8, 3u8, 5u8, 14u8, 1u8, 4u8, 6u8,
        5u8, 7u8, 15u8, 6u8, 8u8, 17u8, 1u8, 7u8, 9u8, 8u8, 10u8, 18u8, 2u8, 9u8, 11u8,
        10u8, 12u8, 19u8, 3u8, 11u8, 13u8, 12u8, 14u8, 20u8, 4u8, 13u8, 15u8, 6u8, 14u8, 16u8,
        15u8, 17u8, 20u8, 7u8, 16u8, 18u8, 9u8, 17u8, 19u8, 11u8, 18u8, 20u8, 13u8, 16u8, 19u8,
    ]
}

/// The tunnel in direction `k` out of room `room`.
pub open spec fn spec_tunnel(room: u8, k: int) -> u8 {
    cave_map()[3 * (room - 1) + k]
}

/// `x` is one tunnel away from `room`.
pub open spec fn spec_adjacent(room: u8, x: u8) -> bool {
    exists|k: int| 0 <= k < 3 && #[trigger] spec_tunnel(room, k) == x
}

/// Every tunnel of the cave leads to a room numbered 1 to 20.
pub proof fn lemma_cave_in_range()
    ensures
        cave_map().len() == 60,
        forall|i: int| 0 <= i < 60 ==> 1 <= #[trigger] cave_map()[i] <= 20,
{
    assert(forall|i: int| 0 <= i < 60 ==> 1 <= #[trigger] cave_map()[i] <= 20) by {
        assert(cave_map().len() == 60);
    }
}

/// No two of the six occupants (player, wumpus, two pits, two bats) share
/// a room.
pub open spec fn distinct_rooms(l: Seq<u8>) -> bool {
    forall|i: int, j: int| 0 <= i < l.len() && 0 <= j < l.len() && i != j ==> l[i] != l[j]
}

/// The warning for the hazard that occupant `j` of the location list is:
/// the wumpus, a pit, or a bat.
pub open spec fn warn_msg(j: int) -> Seq<u8> {
    if j == 1 {
        "I SMELL A WUMPUS!".spec_bytes()
    } else if j == 2 || j == 3 {
        "I FEEL A DRAFT".spec_bytes()
    } else {
        "BATS NEARBY!".spec_bytes()
    }
}

/// The warning, if any, that the tunnel in direction `k` out of the
/// player's room gives about occupant `j`. Only the first two directions
/// are inspected, as the original program did.
pub open spec fn warn_part(l: Seq<u8>, j: int, k: int) -> Seq<Seq<u8>> {
    if spec_tunnel(l[0], k) == l[j] {
        seq![warn_msg(j)]
    } else {
        Seq::empty()
    }
}

/// The warnings given for the hazards before occupant `j`.
pub open spec fn warns_upto(l: Seq<u8>, j: int) -> Seq<Seq<u8>>
    decreases j,
{
    if j <= 1 {
        Seq::empty()
    } else {
        warns_upto(l, j - 1) + warn_part(l, j - 1, 0) + warn_part(l, j - 1, 1)
    }
}

/// The message naming the player's room.
pub open spec fn room_msg(n: u8) -> Seq<u8> {
    "YOU ARE IN ROOM ".spec_bytes() + dec_of(n)
}

/// The message listing the three tunnels out of room `n`.
pub open spec fn tunnels_msg(n: u8) -> Seq<u8> {
    "TUNNELS LEAD TO ".spec_bytes() + dec_of(spec_tunnel(n, 0)) + ", ".spec_bytes() + dec_of(
        spec_tunnel(n, 1),
    ) + ", ".spec_bytes() + dec_of(spec_tunnel(n, 2))
}

/// The closing block of every turn's report: the hazard warnings and the
/// player's location while the game is on, a taunt once it has been won
/// or lost.
pub open spec fn turn_report(f: int, l: Seq<u8>) -> Seq<Seq<u8>> {
    if f == 0 {
        warns_upto(l, 5) + seq![room_msg(l[0]), tunnels_msg(l[0])]
    } else if f < 0 {
        seq!["HA HA HA - YOU LOSE!".spec_bytes()]
    } else {
        seq!["HEE HEE HEE - THE WUMPUS'LL GETCHA NEXT TIME!!".spec_bytes()]
    }
}

/// A message that walking to a room can say.
pub open spec fn is_move_msg(m: Seq<u8>) -> bool {
    ||| m == "NOT POSSIBLE -".spec_bytes()
    ||| m == "...OOPS! BUMPED A WUMPUS!".spec_bytes()
    ||| m == "TSK TSK TSK- WUMPUS GOT YOU!".spec_bytes()
    ||| m == "YYYIIIIEEEE . . . FELL IN PIT".spec_bytes()
    ||| m == "ZAP--SUPER BAT SNATCH! ELSEWHEREVILLE FOR YOU!".spec_bytes()
}

/// A message that an arrow's flight can say.
pub open spec fn is_shot_msg(m: Seq<u8>) -> bool {
    ||| m == "ARROWS AREN'T THAT CROOKED".spec_bytes()
    ||| m == "AHA! YOU GOT THE WUMPUS!".spec_bytes()
    ||| m == "OUCH! ARROW GOT YOU!".spec_bytes()
    ||| m == "MISSED".spec_bytes()
    ||| m == "TSK TSK TSK- WUMPUS GOT YOU!".spec_bytes()
}

/// The rules of the game, as shown to the player on request.
pub open spec fn instructions_text() -> Seq<u8> {
    " WELCOME TO 'HUNT THE WUMPUS'<br/>
THE WUMPUS LIVES IN A CAVE OF 20 ROOMS. EACH ROOM
HAS 3 TUNNELS LEADING TO OTHER ROOMS. (LOOK AT A
DODECAHEDRON TO SEE HOW THIS WORKS-IF YOU DON'T KNOW
WHAT A DODECAHEDRON IS, ASK SOMEONE)<br/>
<br/>
HAZARDS:<br/>
BOTTOMLESS PITS - TWO ROOMS HAVE BOTTOMLESS PITS IN THEM
IF YOU GO THERE, YOU FALL INTO THE PIT (& LOSE!)<br/>
SUPER BATS - TWO OTHER ROOMS HAVE SUPER BATS. IF YOU
GO THERE, A BAT GRABS YOU AND TAKES YOU TO SOME OTHER
ROOM AT RANDOM. (WHICH MIGHT BE TROUBLESOME)<br/>
<br/>
WUMPUS:<br/>
THE WUMPUS IS NOT BOTHERED BY THE HAZARDS (HE HAS SUCKER
FEET AND IS TOO BIG FOR A BAT TO LIFT). USUALLY
HE IS ASLEEP. TWO THINGS WAKE HIM UP: YOUR ENTERING
HIS ROOM OR YOUR SHOOTING AN ARROW.
IF THE WUMPUS WAKES, HE MOVES (P=.75) ONE ROOM
OR STAYS STILL (P=.25). AFTER THAT, IF HE IS WHERE YOU
ARE, HE EATS YOU UP (& YOU LOSE!)<br/>
<br/>
YOU:<br/>
EACH TURN YOU MAY MOVE OR SHOOT A CROOKED ARROW<br/>
MOVING: YOU CAN GO ONE ROOM (THRU ONE TUNNEL)<br/>
ARROWS: YOU HAVE 5 ARROWS. YOU LOSE WHEN YOU RUN OUT.
EACH ARROW CAN GO FROM 1 TO 5 ROOMS. YOU AIM BY TELLING
THE COMPUTER THE ROOM#S YOU WANT THE ARROW TO GO TO.
IF THE ARROW CAN'T GO THAT WAY (IE NO TUNNEL) IT MOVES
AT RAMDOM TO THE NEXT ROOM.
IF THE ARROW HITS THE WUMPUS, YOU WIN.
IF THE ARROW HITS YOU, YOU LOSE.<br/>
<br/>
WARNINGS:<br/>
WHEN YOU ARE ONE ROOM AWAY FROM WUMPUS OR HAZARD,
THE COMPUTER SAYS:<br/>
WUMPUS- 'I SMELL A WUMPUS'<br/>
BAT - 'BATS NEARBY'<br/>
PIT - 'I FEEL A DRAFT'<br/>".spec_bytes()
}

/// Pushing one message neither adds nor hides any other message.
proof fn lemma_contains_push(s: Seq<Seq<u8>>, x: Seq<u8>, y: Seq<u8>)
    requires
        x != y,
    ensures
        s.push(x).contains(y) == s.contains(y),
{
    if s.contains(y) {
        let i = choose|i: int| 0 <= i < s.len() && s[i] == y;
        assert(s.push(x)[i] == y);
    }
    if s.push(x).contains(y) {
        let i = choose|i: int| 0 <= i < s.push(x).len() && s.push(x)[i] == y;
        assert(s[i] == y);
    }
}

/// The crooked-shot refusal reads differently from every other message
/// an arrow can produce: the texts have different lengths.
proof fn lemma_shot_msgs_distinct()
    ensures
        "ARROWS AREN'T THAT CROOKED".spec_bytes() != "AHA! YOU GOT THE WUMPUS!".spec_bytes(),
        "ARROWS AREN'T THAT CROOKED".spec_bytes() != "OUCH! ARROW GOT YOU!".spec_bytes(),
        "ARROWS AREN'T THAT CROOKED".spec_bytes() != "MISSED".spec_bytes(),
        "ARROWS AREN'T THAT CROOKED".spec_bytes() != "TSK TSK TSK- WUMPUS GOT YOU!".spec_bytes(),
{
    reveal_strlit("ARROWS AREN'T THAT CROOKED");
    reveal_strlit("AHA! YOU GOT THE WUMPUS!");
    reveal_strlit("OUCH! ARROW GOT YOU!");
    reveal_strlit("MISSED");
    reveal_strlit("TSK TSK TSK- WUMPUS GOT YOU!");
    assert(vstd::utf8::is_ascii_chars("ARROWS AREN'T THAT CROOKED"@));
    assert(vstd::utf8::is_ascii_chars("AHA! YOU GOT THE WUMPUS!"@));
    assert(vstd::utf8::is_ascii_chars("OUCH! ARROW GOT YOU!"@));
    assert(vstd::utf8::is_ascii_chars("MISSED"@));
    assert(vstd::utf8::is_ascii_chars("TSK TSK TSK- WUMPUS GOT YOU!"@));
    vstd::utf8::is_ascii_chars_encode_utf8("ARROWS AREN'T THAT CROOKED"@);
    vstd::utf8::is_ascii_chars_encode_utf8("AHA! YOU GOT THE WUMPUS!"@);
    vstd::utf8::is_ascii_chars_encode_utf8("OUCH! ARROW GOT YOU!"@);
    vstd::utf8::is_ascii_chars_encode_utf8("MISSED"@);
    vstd::utf8::is_ascii_chars_encode_utf8("TSK TSK TSK- WUMPUS GOT YOU!"@);
    assert("ARROWS AREN'T THAT CROOKED".spec_bytes().len() == 26);
    assert("AHA! YOU GOT THE WUMPUS!".spec_bytes().len() == 24);
    assert("OUCH! ARROW GOT YOU!".spec_bytes().len() == 20);
    assert("MISSED".spec_bytes().len() == 6);
    assert("TSK TSK TSK- WUMPUS GOT YOU!".spec_bytes().len() == 28);
}

/// An exact copy of a room list.
fn copy_rooms(v: &Vec<u8>) -> (r: Vec<u8>)
    ensures
        r@ == v@,
{
    let mut out: Vec<u8> = Vec::new();
    let mut i: usize = 0;
    while i < v.len()
        invariant
            i <= v@.len(),
            out@ == v@.subrange(0, i as int),
        decreases v@.len() - i,
    {
        out.push(v[i]);
        proof {
            assert(v@.subrange(0, i + 1 as int) =~= v@.subrange(0, i as int).push(v@[i as int]));
        }
        i = i + 1;
    }
    proof {
        assert(v@.subrange(0, v@.len() as int) =~= v@);
    }
    out
}

/// The tunnel table of the cave, row by row.
#[verifier::rlimit(100)]
#[verifier::spinoff_prover]
fn build_cave() -> (r: Vec<u8>)
    ensures
        r@ == cave_map(),
{
    let mut s: Vec<u8> = Vec::new();
    s.push(2); s.push(5); s.push(8);
    s.push(1); s.push(3); s.push(10);
    s.push(2); s.push(4); s.push(12);
    s.push(3); s.push(5); s.push(14);
    s.push(1); s.push(4); s.push(6);
    s.push(5); s.push(7); s.push(15);
    s.push(6); s.push(8); s.push(17);
    s.push(1); s.push(7); s.push(9);
    s.push(8); s.push(10); s.push(18);
    s.push(2); s.push(9); s.push(11);
    s.push(10); s.push(12); s.push(19);
    s.push(3); s.push(11); s.push(13);
    s.push(12); s.push(14); s.push(20);
    s.push(4); s.push(13); s.push(15);
    s.push(6); s.push(14); s.push(16);
    s.push(15); s.push(17); s.push(20);
    s.push(7); s.push(16); s.push(18);
    s.push(9); s.push(17); s.push(19);
    s.push(11); s.push(18); s.push(20);
    s.push(13); s.push(16); s.push(19);
    proof {
        assert(s@ =~= cave_map());
    }
    s
}

/// The mutable game state.
#[derive(Debug)]
pub struct Data {
    /// The cave's tunnel table, three entries per room.
    pub s: Vec<u8>,
    /// Current locations: player, wumpus, two pits, two bats.
    pub l: Vec<u8>,
    /// The locations the game started with, for a restart.
    pub m: Vec<u8>,
    /// Scratch room while an arrow flies, and the player's room between
    /// shots.
    pub ll: u8,
    /// Arrows left.
    pub a: i8,
    /// Turn outcome flag: 0 still playing, 1 won, -1 lost.
    pub f: i8,
    /// The messages of the current turn.
    pub msgs: Vec<Vec<u8>>,
    /// The tunnels out of the player's room, as last reported.
    pub tunnels: Vec<u8>,
}

impl Data {
    pub open spec fn wf(&self) -> bool {
        &&& self.s@ == cave_map()
        &&& self.l@.len() == 6
        &&& self.m@.len() == 6
        &&& (forall|i: int| 0 <= i < 6 ==> 1 <= #[trigger] self.l@[i] <= 20)
        &&& self.l@[4] != self.l@[5]
        &&& self.tunnels@.len() == 3
        &&& -1 <= self.f <= 1
    }

    /// The tunnel in direction `k` out of `room`.
    fn tunnel(&self, room: u8, k: usize) -> (r: u8)
        requires
            self.wf(),
            1 <= room <= 20,
            k < 3,
        ensures
            r == spec_tunnel(room, k as int),
            1 <= r <= 20,
    {
        proof {
            lemma_cave_in_range();
        }
        self.s[3 * ((room - 1) as usize) + k]
    }

    /// Set up a fresh game: the cave, a greeting, and freshly drawn
    /// locations.
    pub fn new() -> (r: Data)
        ensures
            r.wf(),
            distinct_rooms(r.l@),
            r.m@ == r.l@,
            r.ll == r.l@[0],
            r.f == 0,
            r.a == 5,
            r.msgs.deep_view() == seq!["HUNT THE WUMPUS".spec_bytes()],
            r.tunnels@ == seq![0u8, 0u8, 0u8],
    {
        let s = build_cave();
        let mut msgs: Vec<Vec<u8>> = Vec::new();
        msgs.push(vstd::slice::slice_to_vec("HUNT THE WUMPUS".as_bytes()));
        let mut l: Vec<u8> = Vec::new();
        l.push(1); l.push(2); l.push(3);
        l.push(4); l.push(5); l.push(6);
        let m = copy_rooms(&l);
        let mut tunnels: Vec<u8> = Vec::new();
        tunnels.push(0); tunnels.push(0); tunnels.push(0);
        let mut d = Data { s, l, m, ll: 1, a: 0, f: 0, msgs, tunnels };
        proof {
            assert(d.msgs.deep_view() =~~= seq!["HUNT THE WUMPUS".spec_bytes()]);
            assert(d.tunnels@ =~= seq![0u8, 0u8, 0u8]);
            assert(d.wf());
        }
        d.renew();
        d
    }

    /// Draw the six starting rooms — player, wumpus, two pits, two bats —
    /// all distinct, by drawing without replacement from the twenty rooms,
    /// and restock the quiver.
    pub fn renew(&mut self)
        requires
            old(self).wf(),
        ensures
            final(self).wf(),
            distinct_rooms(final(self).l@),
            final(self).m@ == final(self).l@,
            final(self).ll == final(self).l@[0],
            final(self).f == 0,
            final(self).a == 5,
            final(self).s == old(self).s,
            final(self).msgs == old(self).msgs,
            final(self).tunnels == old(self).tunnels,
    {
        let mut pool: Vec<u8> = Vec::new();
        let mut r: u8 = 1;
        while r <= 20
            invariant
                1 <= r <= 21,
                pool@.len() == r - 1,
                forall|i: int| 0 <= i < pool@.len() ==> #[trigger] pool@[i] == i + 1,
            decreases 21 - r,
        {
            pool.push(r);
            r = r + 1;
        }
        let mut picked: Vec<u8> = Vec::new();
        let mut t: usize = 0;
        while t < 6
            invariant
                t <= 6,
                picked@.len() == t as int,
                pool@.len() == 20 - t,
                forall|i: int| 0 <= i < pool@.len() ==> 1 <= #[trigger] pool@[i] <= 20,
                forall|i: int| 0 <= i < picked@.len() ==> 1 <= #[trigger] picked@[i] <= 20,
                distinct_rooms(pool@),
                distinct_rooms(picked@),
                forall|i: int, j: int|
                    0 <= i < pool@.len() && 0 <= j < picked@.len() ==> pool@[i] != picked@[j],
            decreases 6 - t,
        {
            let ix = (rand_upto(pool.len() as u8) - 1) as usize;
            let ghost oldpool = pool@;
            let ghost oldpicked = picked@;
            let v = pool.remove(ix);
            picked.push(v);
            proof {
                assert forall|i: int| 0 <= i < pool@.len() implies 1 <= #[trigger] pool@[i]
                    <= 20 by {
                    if i < ix {
                        assert(pool@[i] == oldpool[i]);
                    } else {
                        assert(pool@[i] == oldpool[i + 1]);
                    }
                }
                assert forall|i: int, j: int|
                    0 <= i < pool@.len() && 0 <= j < pool@.len() && i != j implies pool@[i]
                    != pool@[j] by {
                    let oi = if i < ix {
                        i
                    } else {
                        i + 1
                    };
                    let oj = if j < ix {
                        j
                    } else {
                        j + 1
                    };
                    assert(pool@[i] == oldpool[oi]);
                    assert(pool@[j] == oldpool[oj]);
                }
                assert forall|i: int, j: int|
                    0 <= i < pool@.len() && 0 <= j < picked@.len() implies pool@[i]
                    != picked@[j] by {
                    let oi = if i < ix {
                        i
                    } else {
                        i + 1
                    };
                    assert(pool@[i] == oldpool[oi]);
                    if j < picked@.len() - 1 {
                        assert(picked@[j] == oldpicked[j]);
                    } else {
                        assert(picked@[j] == oldpool[ix as int]);
                    }
                }
            }
            t = t + 1;
        }
        self.l = picked;
        self.m = copy_rooms(&self.l);
        self.ll = self.l[0];
        self.f = 0;
        self.a = 5;
    }

    /// Append one message to the current turn.
    pub fn say(&mut self, msg: &[u8])
        ensures
            final(self).msgs.deep_view() == old(self).msgs.deep_view().push(msg@),
            final(self).s == old(self).s,
            final(self).l == old(self).l,
            final(self).m == old(self).m,
            final(self).ll == old(self).ll,
            final(self).a == old(self).a,
            final(self).f == old(self).f,
            final(self).tunnels == old(self).tunnels,
            final(self).wf() == old(self).wf(),
    {
        self.msgs.push(vstd::slice::slice_to_vec(msg));
        proof {
            assert(self.msgs.deep_view() =~~= old(self).msgs.deep_view().push(msg@));
        }
    }

    /// Say the warning for occupant `j`.
    fn say_warn(&mut self, j: usize)
        requires
            1 <= j <= 4,
        ensures
            final(self).msgs.deep_view() == old(self).msgs.deep_view().push(warn_msg(j as int)),
            final(self).s == old(self).s,
            final(self).l == old(self).l,
            final(self).m == old(self).m,
            final(self).ll == old(self).ll,
            final(self).a == old(self).a,
            final(self).f == old(self).f,
            final(self).tunnels == old(self).tunnels,
            final(self).wf() == old(self).wf(),
    {
        if j == 1 {
            self.say("I SMELL A WUMPUS!".as_bytes());
        } else if j == 2 || j == 3 {
            self.say("I FEEL A DRAFT".as_bytes());
        } else {
            self.say("BATS NEARBY!".as_bytes());
        }
    }

    /// Report the hazards one tunnel away, the player's room, and the
    /// tunnels out of it. Deterministic: the exact messages are stated.
    pub fn print_warnings(&mut self)
        requires
            old(self).wf(),
        ensures
            final(self).wf(),
            final(self).msgs.deep_view() == old(self).msgs.deep_view() + warns_upto(
                old(self).l@,
                5,
            ) + seq![room_msg(old(self).l@[0]), tunnels_msg(old(self).l@[0])],
            final(self).tunnels@ == seq![
                spec_tunnel(old(self).l@[0], 0),
                spec_tunnel(old(self).l@[0], 1),
                spec_tunnel(old(self).l@[0], 2),
            ],
            final(self).s == old(self).s,
            final(self).l == old(self).l,
            final(self).m == old(self).m,
            final(self).ll == old(self).ll,
            final(self).a == old(self).a,
            final(self).f == old(self).f,
    {
        let ghost l0 = self.l@;
        let ghost base = self.msgs.deep_view();
        let room = self.l[0];
        let mut j: usize = 1;
        while j < 5
            invariant
                old(self).wf(),
                1 <= j <= 5,
                self.wf(),
                l0 == self.l@,
                room == l0[0],
                self.msgs.deep_view() == base + warns_upto(l0, j as int),
                self.s == old(self).s,
                self.l == old(self).l,
                self.m == old(self).m,
                self.ll == old(self).ll,
                self.a == old(self).a,
                self.f == old(self).f,
                self.tunnels == old(self).tunnels,
            decreases 5 - j,
        {
            let ghost before = self.msgs.deep_view();
            if self.tunnel(room, 0) == self.l[j] {
                self.say_warn(j);
            }
            proof {
                assert(self.msgs.deep_view() =~~= before + warn_part(l0, j as int, 0));
            }
            let ghost mid = self.msgs.deep_view();
            if self.tunnel(room, 1) == self.l[j] {
                self.say_warn(j);
            }
            proof {
                assert(self.msgs.deep_view() =~~= mid + warn_part(l0, j as int, 1));
                assert(self.msgs.deep_view() =~~= base + warns_upto(l0, j + 1 as int));
            }
            j = j + 1;
        }
        let mut rm: Vec<u8> = Vec::new();
        append_bytes(&mut rm, "YOU ARE IN ROOM ".as_bytes());
        let digits = u8_dec(room);
        append_bytes(&mut rm, digits.as_slice());
        proof {
            assert(rm@ == room_msg(room));
        }
        self.say(rm.as_slice());
        let t0 = self.tunnel(room, 0);
        let t1 = self.tunnel(room, 1);
        let t2 = self.tunnel(room, 2);
        let mut tm: Vec<u8> = Vec::new();
        append_bytes(&mut tm, "TUNNELS LEAD TO ".as_bytes());
        let d0 = u8_dec(t0);
        append_bytes(&mut tm, d0.as_slice());
        append_bytes(&mut tm, ", ".as_bytes());
        let d1 = u8_dec(t1);
        append_bytes(&mut tm, d1.as_slice());
        append_bytes(&mut tm, ", ".as_bytes());
        let d2 = u8_dec(t2);
        append_bytes(&mut tm, d2.as_slice());
        proof {
            assert(tm@ == tunnels_msg(room));
        }
        self.say(tm.as_slice());
        let mut tv: Vec<u8> = Vec::new();
        tv.push(t0);
        tv.push(t1);
        tv.push(t2);
        self.tunnels = tv;
        proof {
            assert(self.tunnels@ =~= seq![
                spec_tunnel(l0[0], 0),
                spec_tunnel(l0[0], 1),
                spec_tunnel(l0[0], 2),
            ]);
            assert(self.msgs.deep_view() =~~= base + warns_upto(l0, 5) + seq![
                room_msg(l0[0]),
                tunnels_msg(l0[0]),
            ]);
        }
    }

    /// Say the rules of the game.
    pub fn show_instructions(&mut self)
        ensures
            final(self).msgs.deep_view() == old(self).msgs.deep_view().push(instructions_text()),
            final(self).s == old(self).s,
            final(self).l == old(self).l,
            final(self).m == old(self).m,
            final(self).ll == old(self).ll,
            final(self).a == old(self).a,
            final(self).f == old(self).f,
            final(self).tunnels == old(self).tunnels,
            final(self).wf() == old(self).wf(),
    {
        self.say(
            " WELCOME TO 'HUNT THE WUMPUS'<br/>
THE WUMPUS LIVES IN A CAVE OF 20 ROOMS. EACH ROOM
HAS 3 TUNNELS LEADING TO OTHER ROOMS. (LOOK AT A
DODECAHEDRON TO SEE HOW THIS WORKS-IF YOU DON'T KNOW
WHAT A DODECAHEDRON IS, ASK SOMEONE)<br/>
<br/>
HAZARDS:<br/>
BOTTOMLESS PITS - TWO ROOMS HAVE BOTTOMLESS PITS IN THEM
IF YOU GO THERE, YOU FALL INTO THE PIT (& LOSE!)<br/>
SUPER BATS - TWO OTHER ROOMS HAVE SUPER BATS. IF YOU
GO THERE, A BAT GRABS YOU AND TAKES YOU TO SOME OTHER
ROOM AT RANDOM. (WHICH MIGHT BE TROUBLESOME)<br/>
<br/>
WUMPUS:<br/>
THE WUMPUS IS NOT BOTHERED BY THE HAZARDS (HE HAS SUCKER
FEET AND IS TOO BIG FOR A BAT TO LIFT). USUALLY
HE IS ASLEEP. TWO THINGS WAKE HIM UP: YOUR ENTERING
HIS ROOM OR YOUR SHOOTING AN ARROW.
IF THE WUMPUS WAKES, HE MOVES (P=.75) ONE ROOM
OR STAYS STILL (P=.25). AFTER THAT, IF HE IS WHERE YOU
ARE, HE EATS YOU UP (& YOU LOSE!)<br/>
<br/>
YOU:<br/>
EACH TURN YOU MAY MOVE OR SHOOT A CROOKED ARROW<br/>
MOVING: YOU CAN GO ONE ROOM (THRU ONE TUNNEL)<br/>
ARROWS: YOU HAVE 5 ARROWS. YOU LOSE WHEN YOU RUN OUT.
EACH ARROW CAN GO FROM 1 TO 5 ROOMS. YOU AIM BY TELLING
THE COMPUTER THE ROOM#S YOU WANT THE ARROW TO GO TO.
IF THE ARROW CAN'T GO THAT WAY (IE NO TUNNEL) IT MOVES
AT RAMDOM TO THE NEXT ROOM.
IF THE ARROW HITS THE WUMPUS, YOU WIN.
IF THE ARROW HITS YOU, YOU LOSE.<br/>
<br/>
WARNINGS:<br/>
WHEN YOU ARE ONE ROOM AWAY FROM WUMPUS OR HAZARD,
THE COMPUTER SAYS:<br/>
WUMPUS- 'I SMELL A WUMPUS'<br/>
BAT - 'BATS NEARBY'<br/>
PIT - 'I FEEL A DRAFT'<br/>".as_bytes(),
        );
    }

    /// Build the turn's response: hazard warnings when the game is still
    /// on, taunts on a win or a loss, and the tunnels last reported.
    pub fn create_response(&mut self) -> (r: Response)
        requires
            old(self).wf(),
        ensures
            final(self).wf(),
            !r.shutdown_required,
            r.wf(),
            r.msgs@ == join_br(final(self).msgs.deep_view()),
            r.tunnels@ == final(self).tunnels@,
            final(self).s == old(self).s,
            final(self).l == old(self).l,
            final(self).m == old(self).m,
            final(self).ll == old(self).ll,
            final(self).a == old(self).a,
            final(self).f == old(self).f,
            old(self).f == 0 ==> final(self).msgs.deep_view() == old(self).msgs.deep_view()
                + warns_upto(old(self).l@, 5) + seq![
                room_msg(old(self).l@[0]),
                tunnels_msg(old(self).l@[0]),
            ] && final(self).tunnels@ == seq![
                spec_tunnel(old(self).l@[0], 0),
                spec_tunnel(old(self).l@[0], 1),
                spec_tunnel(old(self).l@[0], 2),
            ],
            old(self).f < 0 ==> final(self).msgs.deep_view() == old(self).msgs.deep_view().push(
                "HA HA HA - YOU LOSE!".spec_bytes(),
            ) && final(self).tunnels == old(self).tunnels,
            old(self).f > 0 ==> final(self).msgs.deep_view() == old(self).msgs.deep_view().push(
                "HEE HEE HEE - THE WUMPUS'LL GETCHA NEXT TIME!!".spec_bytes(),
            ) && final(self).tunnels == old(self).tunnels,
    {
        if self.f == 0 {
            self.print_warnings();
        } else if self.f < 0 {
            self.say("HA HA HA - YOU LOSE!".as_bytes());
        } else {
            self.say("HEE HEE HEE - THE WUMPUS'LL GETCHA NEXT TIME!!".as_bytes());
        }
        let msgs = join_msgs(&self.msgs);
        let tunnels = copy_rooms(&self.tunnels);
        Response { shutdown_required: false, msgs, tunnels }
    }

    /// Move the wumpus: it stays put one time in four, otherwise it walks
    /// one tunnel; if it lands on the player, the game is lost.
    pub fn move_wumpus(&mut self)
        requires
            old(self).wf(),
        ensures
            final(self).wf(),
            final(self).l@[1] == old(self).l@[1] || spec_adjacent(
                old(self).l@[1],
                final(self).l@[1],
            ),
            final(self).l@ == old(self).l@.update(1, final(self).l@[1]),
            final(self).s == old(self).s,
            final(self).m == old(self).m,
            final(self).ll == old(self).ll,
            final(self).a == old(self).a,
            final(self).tunnels == old(self).tunnels,
            final(self).l@[1] == final(self).l@[0] ==> final(self).f == -1 && final(self).msgs.deep_view() == old(self).msgs.deep_view().push(
                "TSK TSK TSK- WUMPUS GOT YOU!".spec_bytes(),
            ),
            final(self).l@[1] != final(self).l@[0] ==> final(self).f == old(self).f && final(self).msgs == old(self).msgs,
    {
        let k = rand4();
        if k != 4 {
            let w = self.l[1];
            let nw = self.tunnel(w, (k - 1) as usize);
            self.l.set(1, nw);
        }
        proof {
            assert(self.l@ =~= old(self).l@.update(1, self.l@[1]));
        }
        if self.l[1] == self.l[0] {
            self.say("TSK TSK TSK- WUMPUS GOT YOU!".as_bytes());
            self.f = -1;
        }
    }

    /// See whether the arrow's room holds the wumpus (a win) or the
    /// player (a loss).
    pub fn check_arrow(&mut self, p: &Vec<u8>, k: usize)
        requires
            old(self).wf(),
            k < p@.len(),
        ensures
            final(self).wf(),
            final(self).ll == p@[k as int],
            final(self).s == old(self).s,
            final(self).l == old(self).l,
            final(self).m == old(self).m,
            final(self).a == old(self).a,
            final(self).tunnels == old(self).tunnels,
            p@[k as int] == old(self).l@[1] ==> final(self).f == 1 && final(self).msgs.deep_view()
                == old(self).msgs.deep_view().push("AHA! YOU GOT THE WUMPUS!".spec_bytes()),
            p@[k as int] != old(self).l@[1] && p@[k as int] == old(self).l@[0] ==> final(self).f
                == -1 && final(self).msgs.deep_view() == old(self).msgs.deep_view().push(
                "OUCH! ARROW GOT YOU!".spec_bytes(),
            ),
            p@[k as int] != old(self).l@[1] && p@[k as int] != old(self).l@[0] ==> final(self).f
                == old(self).f && final(self).msgs == old(self).msgs,
    {
        self.ll = p[k];
        if self.ll == self.l[1] {
            self.say("AHA! YOU GOT THE WUMPUS!".as_bytes());
            self.f = 1;
            return;
        }
        if self.ll == self.l[0] {
            self.say("OUCH! ARROW GOT YOU!".as_bytes());
            self.f = -1;
        }
    }

    /// A uniform room that holds no bat.
    fn rand_room_no_bat(&self) -> (r: u8)
        requires
            self.wf(),
        ensures
            1 <= r <= 20,
            r != self.l@[4],
            r != self.l@[5],
    {
        let b4 = self.l[4];
        let b5 = self.l[5];
        let lo = if b4 < b5 { b4 } else { b5 };
        let hi = if b4 < b5 { b5 } else { b4 };
        let mut x = rand_upto(18);
        if x >= lo {
            x = x + 1;
        }
        if x >= hi {
            x = x + 1;
        }
        x
    }

    /// Walk the player to room `l`. An illegal target (no tunnel there) is
    /// refused with a message; a legal one is entered and its hazards take
    /// effect: a bumped wumpus moves, a pit loses the game, and a bat
    /// carries the player to a random batless room.
    pub fn move_to(&mut self, l: u8)
        requires
            old(self).wf(),
        ensures
            final(self).wf(),
            -1 <= final(self).f <= 0,
            final(self).s == old(self).s,
            final(self).m == old(self).m,
            final(self).a == old(self).a,
            final(self).ll == old(self).ll,
            final(self).tunnels == old(self).tunnels,
            forall|i: int| 2 <= i < 6 ==> final(self).l@[i] == old(self).l@[i],
            old(self).msgs.deep_view().is_prefix_of(final(self).msgs.deep_view()),
            forall|i: int|
                old(self).msgs.deep_view().len() <= i < final(self).msgs.deep_view().len()
                    ==> is_move_msg(#[trigger] final(self).msgs.deep_view()[i]),
            spec_adjacent(old(self).l@[0], l) && final(self).f == 0
                ==> final(self).l@[0] != final(self).l@[1]
                && final(self).l@[0] != final(self).l@[2]
                && final(self).l@[0] != final(self).l@[3]
                && final(self).l@[0] != final(self).l@[4]
                && final(self).l@[0] != final(self).l@[5],
            spec_adjacent(old(self).l@[0], l) && l != old(self).l@[4] && l != old(self).l@[5]
                ==> final(self).l@[0] == l,
            spec_adjacent(old(self).l@[0], l) && final(self).f == -1
                ==> final(self).msgs.deep_view().len() > 0
                && (final(self).msgs.deep_view().last()
                    == "YYYIIIIEEEE . . . FELL IN PIT".spec_bytes()
                || final(self).msgs.deep_view().last()
                    == "TSK TSK TSK- WUMPUS GOT YOU!".spec_bytes()),
            !spec_adjacent(old(self).l@[0], l) ==> final(self).f == 0 && final(self).l == old(
                self,
            ).l && (if l != old(self).l@[0] {
                final(self).msgs.deep_view() == old(self).msgs.deep_view().push(
                    "NOT POSSIBLE -".spec_bytes(),
                )
            } else {
                final(self).msgs == old(self).msgs
            }),
    {
        let mut lx = l;
        self.f = 0;
        let room = self.l[0];
        let ok = self.tunnel(room, 0) == lx || self.tunnel(room, 1) == lx || self.tunnel(room, 2)
            == lx;
        proof {
            assert(ok == spec_adjacent(room, lx));
        }
        if !ok {
            if lx != self.l[0] {
                self.say("NOT POSSIBLE -".as_bytes());
            }
            return;
        }
        let mut bat_free = false;
        loop
            invariant_except_break
                self.f == 0,
            invariant
                self.wf(),
                1 <= lx <= 20,
                bat_free ==> lx != self.l@[4] && lx != self.l@[5],
                !bat_free ==> lx == l,
                bat_free ==> l == self.l@[4] || l == self.l@[5],
                self.s == old(self).s,
                self.m == old(self).m,
                self.a == old(self).a,
                self.ll == old(self).ll,
                self.tunnels == old(self).tunnels,
                forall|i: int| 2 <= i < 6 ==> self.l@[i] == old(self).l@[i],
                old(self).msgs.deep_view().is_prefix_of(self.msgs.deep_view()),
                forall|i: int|
                    old(self).msgs.deep_view().len() <= i < self.msgs.deep_view().len()
                        ==> is_move_msg(#[trigger] self.msgs.deep_view()[i]),
            ensures
                self.wf(),
                -1 <= self.f <= 0,
                self.s == old(self).s,
                self.m == old(self).m,
                self.a == old(self).a,
                self.ll == old(self).ll,
                self.tunnels == old(self).tunnels,
                forall|i: int| 2 <= i < 6 ==> self.l@[i] == old(self).l@[i],
                old(self).msgs.deep_view().is_prefix_of(self.msgs.deep_view()),
                self.f == 0 ==> self.l@[0] != self.l@[1] && self.l@[0] != self.l@[2]
                    && self.l@[0] != self.l@[3] && self.l@[0] != self.l@[4] && self.l@[0]
                    != self.l@[5],
                l != old(self).l@[4] && l != old(self).l@[5] ==> self.l@[0] == l,
                self.f == -1 ==> self.msgs.deep_view().len() > 0 && (self.msgs.deep_view().last()
                    == "YYYIIIIEEEE . . . FELL IN PIT".spec_bytes() || self.msgs.deep_view().last()
                    == "TSK TSK TSK- WUMPUS GOT YOU!".spec_bytes()),
            decreases (if bat_free { 0int } else { 1int }),
        {
            self.l.set(0, lx);
            if lx == self.l[1] {
                self.say("...OOPS! BUMPED A WUMPUS!".as_bytes());
                self.move_wumpus();
            }
            if self.f != 0 {
                break;
            }
            if lx == self.l[2] || lx == self.l[3] {
                self.say("YYYIIIIEEEE . . . FELL IN PIT".as_bytes());
                self.f = -1;
                break;
            }
            if lx != self.l[4] && lx != self.l[5] {
                break;
            }
            self.say("ZAP--SUPER BAT SNATCH! ELSEWHEREVILLE FOR YOU!".as_bytes());
            lx = self.rand_room_no_bat();
            bat_free = true;
        }
    }

    /// Shoot a crooked arrow along the rooms of `p`. The arrow follows a
    /// tunnel when one leads to the named room and careens at random when
    /// none does; it may strike the wumpus (a win) or the player (a loss);
    /// a miss wakes the wumpus and spends an arrow, and the last arrow
    /// spent loses the game. A room named outside the cave sends the arrow
    /// to a random room.
    pub fn shoot_arrow(&mut self, p: Vec<u8>)
        requires
            old(self).wf(),
        ensures
            final(self).wf(),
            final(self).s == old(self).s,
            final(self).m == old(self).m,
            final(self).tunnels == old(self).tunnels,
            old(self).a - 1 <= final(self).a <= old(self).a,
            forall|i: int|
                (0 <= i < 6 && i != 1) ==> final(self).l@[i] == old(self).l@[i],
            old(self).msgs.deep_view().is_prefix_of(final(self).msgs.deep_view()),
            old(self).f != 1 && final(self).f == 1 ==> final(self).msgs.deep_view().len() > 0
                && final(self).msgs.deep_view().last() == "AHA! YOU GOT THE WUMPUS!".spec_bytes()
                && final(self).ll == final(self).l@[1],
            final(self).a < old(self).a ==> final(self).msgs.deep_view().contains(
                "MISSED".spec_bytes(),
            ),
            final(self).a < old(self).a && final(self).a <= 0 ==> final(self).f == -1,
            final(self).l@[1] == old(self).l@[1] || spec_adjacent(
                old(self).l@[1],
                final(self).l@[1],
            ),
            !old(self).msgs.deep_view().contains("ARROWS AREN'T THAT CROOKED".spec_bytes())
                && final(self).msgs.deep_view().contains(
                "ARROWS AREN'T THAT CROOKED".spec_bytes(),
            ) ==> final(self).f == old(self).f && final(self).a == old(self).a
                && final(self).msgs.deep_view() == old(self).msgs.deep_view().push(
                "ARROWS AREN'T THAT CROOKED".spec_bytes(),
            ),
            forall|i: int|
                old(self).msgs.deep_view().len() <= i < final(self).msgs.deep_view().len()
                    ==> is_shot_msg(#[trigger] final(self).msgs.deep_view()[i]),
            old(self).f == 0 ==> ({
                ||| (final(self).msgs.deep_view() == old(self).msgs.deep_view().push(
                    "ARROWS AREN'T THAT CROOKED".spec_bytes(),
                ) && final(self).f == 0 && final(self).a == old(self).a)
                ||| final(self).f == 1
                ||| final(self).f == -1
                ||| ((final(self).a < old(self).a || old(self).a == i8::MIN)
                    && final(self).msgs.deep_view().contains("MISSED".spec_bytes()))
            }),
    {
        self.ll = self.l[0];
        let mut k: usize = 0;
        while k < p.len()
            invariant
                self.wf(),
                k <= p@.len(),
                self.s == old(self).s,
                self.l == old(self).l,
                self.m == old(self).m,
                self.a == old(self).a,
                self.f == old(self).f,
                self.tunnels == old(self).tunnels,
                self.msgs == old(self).msgs,
            decreases p@.len() - k,
        {
            let target = p[k];
            if 1 <= self.ll && self.ll <= 20 {
                let from = self.ll;
                let arrow_tunnel = self.tunnel(from, 0) == target || self.tunnel(from, 1)
                    == target || self.tunnel(from, 2) == target;
                if !arrow_tunnel {
                    self.ll = self.tunnel(from, (rand3() - 1) as usize);
                }
            } else {
                self.ll = rand20();
            }
            if k > 1 && p[k - 2] == p[k] {
                self.say("ARROWS AREN'T THAT CROOKED".as_bytes());
                return;
            }
            self.check_arrow(&p, k);
            if self.f != 0 {
                proof {
                    lemma_shot_msgs_distinct();
                    lemma_contains_push(
                        old(self).msgs.deep_view(),
                        "AHA! YOU GOT THE WUMPUS!".spec_bytes(),
                        "ARROWS AREN'T THAT CROOKED".spec_bytes(),
                    );
                    lemma_contains_push(
                        old(self).msgs.deep_view(),
                        "OUCH! ARROW GOT YOU!".spec_bytes(),
                        "ARROWS AREN'T THAT CROOKED".spec_bytes(),
                    );
                }
                return;
            }
            k = k + 1;
        }
        self.say("MISSED".as_bytes());
        let ghost missed_at = self.msgs.deep_view().len() - 1;
        proof {
            assert(self.msgs.deep_view()[missed_at] == "MISSED".spec_bytes());
        }
        self.ll = self.l[1];
        self.move_wumpus();
        proof {
            assert(self.msgs.deep_view()[missed_at] == "MISSED".spec_bytes());
            assert(self.msgs.deep_view().contains("MISSED".spec_bytes()));
            lemma_shot_msgs_distinct();
            lemma_contains_push(
                old(self).msgs.deep_view(),
                "MISSED".spec_bytes(),
                "ARROWS AREN'T THAT CROOKED".spec_bytes(),
            );
            lemma_contains_push(
                old(self).msgs.deep_view().push("MISSED".spec_bytes()),
                "TSK TSK TSK- WUMPUS GOT YOU!".spec_bytes(),
                "ARROWS AREN'T THAT CROOKED".spec_bytes(),
            );
        }
        if self.a > i8::MIN {
            self.a = self.a - 1;
        }
        if self.a <= 0 {
            self.f = -1;
            return;
        }
    }
}

/// The starting view, for the given kind of host.
pub open spec fn initial_page(it: InterfaceType) -> Seq<u8> {
    "<!DOCTYPE html><html><head><title>HUNT THE WUMPUS</title></head><body><h1>HUNT THE WUMPUS</h1><p>A cave of twenty rooms, two pits, two super bats and one wumpus awaits".spec_bytes()
        + (if it is PC {
        " on this computer"
    } else {
        " on this device"
    }).spec_bytes() + ".</p></body></html>".spec_bytes()
}

/// The capability set an engine offers its boundary: a starting view,
/// actions, and lifecycle events. The boundary consumes it; `Engine`
/// provides it.
pub trait EngineApi: Sized {
    /// The engine's own well-formedness, kept by every operation.
    spec fn wf(&self) -> bool;

    /// The starting view this engine produces.
    spec fn view_page(&self) -> Seq<u8>;

    /// How executing the action `a` relates the engine after the call
    /// (`post`) and the reported response `r` to the engine before it.
    spec fn execute_rel(&self, a: ActionView, post: Self, r: Response) -> bool;

    /// How taking note of the event `ev` relates the engine after the
    /// call and the reported response to the engine before it.
    spec fn handle_event_rel(&self, ev: Event, post: Self, r: Response) -> bool;

    /// The starting view: never empty, and exactly this engine's own.
    fn initial_html(&mut self) -> (r: Vec<u8>)
        requires
            old(self).wf(),
        ensures
            final(self).wf(),
            r@.len() > 0,
            r@ == old(self).view_page(),
    ;

    /// Execute one user action and report the turn's outcome.
    fn execute(&mut self, action: Action) -> (r: Response)
        requires
            old(self).wf(),
        ensures
            final(self).wf(),
            r.wf(),
            old(self).execute_rel(action@, *final(self), r),
    ;

    /// Take note of one lifecycle event and report the outcome.
    fn handle_event(&mut self, event: &Event) -> (r: Response)
        requires
            old(self).wf(),
        ensures
            final(self).wf(),
            r.wf(),
            old(self).handle_event_rel(*event, *final(self), r),
    ;
}

/// The engine: the game state bound to the kind of host it serves.
#[derive(Debug)]
pub struct Engine {
    pub interface_type: InterfaceType,
    pub data: Data,
}

impl Config {
    /// Decode a configuration. The engine needs no parameters, so every
    /// payload is accepted, as the original engine accepted every one.
    pub fn from_json(_json_str: &str) -> (r: Config) {
        Config {  }
    }
}

impl Engine {
    pub open spec fn wf(&self) -> bool {
        self.data.wf()
    }

    /// A fresh engine for the given kind of host.
    pub fn new(_config: &Config, interface_type: InterfaceType) -> (r: Engine)
        ensures
            r.wf(),
            r.interface_type == interface_type,
            r.data.f == 0,
            r.data.a == 5,
            distinct_rooms(r.data.l@),
            r.data.m@ == r.data.l@,
            r.data.ll == r.data.l@[0],
            r.data.msgs.deep_view() == seq!["HUNT THE WUMPUS".spec_bytes()],
    {
        Engine { interface_type, data: Data::new() }
    }

    /// The kind of host this engine serves.
    pub fn get_interface_type(&self) -> (r: InterfaceType)
        ensures
            r == self.interface_type,
    {
        self.interface_type
    }
}

impl EngineApi for Engine {
    open spec fn wf(&self) -> bool {
        Engine::wf(self)
    }

    open spec fn view_page(&self) -> Seq<u8> {
        initial_page(self.interface_type)
    }

    open spec fn execute_rel(&self, a: ActionView, post: Engine, r: Response) -> bool {
        &&& post.interface_type == self.interface_type
        &&& (a is Quit ==> r.shutdown_required && r.msgs@.len() == 0 && r.tunnels@ == seq![
            0u8,
            0u8,
            0u8,
        ] && post.data.msgs@.len() == 0 && post.data.l == self.data.l && post.data.m
            == self.data.m && post.data.a == self.data.a && post.data.f == self.data.f
            && post.data.s == self.data.s && post.data.ll == self.data.ll && post.data.tunnels
            == self.data.tunnels)
        &&& (!(a is Quit) ==> !r.shutdown_required && r.msgs@ == join_br(
            post.data.msgs.deep_view(),
        ) && r.tunnels@ == post.data.tunnels@)
        &&& (a is ReStart ==> post.data.a == 5 && post.data.f == 0 && distinct_rooms(post.data.l@)
            && post.data.msgs.deep_view() == turn_report(0, post.data.l@))
        &&& (a is Instructions ==> post.data.msgs.deep_view() == seq![instructions_text()]
            + turn_report(self.data.f as int, self.data.l@))
        &&& (a matches ActionView::Move(c) ==> ({
            &&& (!spec_adjacent(self.data.l@[0], c) && c != self.data.l@[0]
                ==> post.data.msgs.deep_view() == seq!["NOT POSSIBLE -".spec_bytes()] + warns_upto(
                self.data.l@,
                5,
            ) + seq![room_msg(self.data.l@[0]), tunnels_msg(self.data.l@[0])] && post.data.l
                == self.data.l)
            &&& (spec_adjacent(self.data.l@[0], c) ==> -1 <= post.data.f <= 0)
            &&& (spec_adjacent(self.data.l@[0], c) && c != self.data.l@[4] && c != self.data.l@[5]
                ==> post.data.l@[0] == c)
            &&& (spec_adjacent(self.data.l@[0], c) && post.data.f == 0 ==> post.data.l@[0]
                != post.data.l@[1] && post.data.l@[0] != post.data.l@[2] && post.data.l@[0]
                != post.data.l@[3] && post.data.l@[0] != post.data.l@[4] && post.data.l@[0]
                != post.data.l@[5])
            &&& (spec_adjacent(self.data.l@[0], c) && post.data.f == -1
                ==> post.data.msgs.deep_view().contains(
                "YYYIIIIEEEE . . . FELL IN PIT".spec_bytes(),
            ) || post.data.msgs.deep_view().contains("TSK TSK TSK- WUMPUS GOT YOU!".spec_bytes()))
            &&& exists|k: int|
                0 <= k <= post.data.msgs.deep_view().len() && (forall|i: int|
                    0 <= i < k ==> is_move_msg(#[trigger] post.data.msgs.deep_view()[i]))
                    && post.data.msgs.deep_view().subrange(
                    k,
                    post.data.msgs.deep_view().len() as int,
                ) == turn_report(post.data.f as int, post.data.l@)
        }))
        &&& (a is Shoot ==> {
            &&& self.data.a - 1 <= post.data.a <= self.data.a
            &&& exists|k: int|
                0 <= k <= post.data.msgs.deep_view().len() && (forall|i: int|
                    0 <= i < k ==> is_shot_msg(#[trigger] post.data.msgs.deep_view()[i]))
                    && post.data.msgs.deep_view().subrange(
                    k,
                    post.data.msgs.deep_view().len() as int,
                ) == turn_report(post.data.f as int, post.data.l@)
            &&& (self.data.f != 1 && post.data.f == 1 ==> post.data.msgs.deep_view().contains(
                "AHA! YOU GOT THE WUMPUS!".spec_bytes(),
            ) && post.data.ll == post.data.l@[1])
            &&& (post.data.a < self.data.a ==> post.data.msgs.deep_view().contains(
                "MISSED".spec_bytes(),
            ))
            &&& (post.data.a < self.data.a && post.data.a <= 0 ==> post.data.f == -1)
        })
    }

    open spec fn handle_event_rel(&self, ev: Event, post: Engine, r: Response) -> bool {
        &&& post == *self
        &&& !r.shutdown_required
        &&& r.msgs@.len() == 0
        &&& r.tunnels@ == seq![0u8, 0u8, 0u8]
    }

    fn initial_html(&mut self) -> (r: Vec<u8>)
        ensures
            *final(self) == *old(self),
    {
        let mut page: Vec<u8> = Vec::new();
        append_bytes(
            &mut page,
            "<!DOCTYPE html><html><head><title>HUNT THE WUMPUS</title></head><body><h1>HUNT THE WUMPUS</h1><p>A cave of twenty rooms, two pits, two super bats and one wumpus awaits".as_bytes(),
        );
        if self.interface_type == InterfaceType::PC {
            append_bytes(&mut page, " on this computer".as_bytes());
        } else {
            append_bytes(&mut page, " on this device".as_bytes());
        }
        append_bytes(&mut page, ".</p></body></html>".as_bytes());
        proof {
            reveal_strlit(".</p></body></html>");
            let cs = ".</p></body></html>"@;
            assert(vstd::utf8::encode_utf8(cs) == vstd::utf8::encode_scalar(cs[0] as u32)
                + vstd::utf8::encode_utf8(cs.drop_first()));
            assert(vstd::utf8::encode_scalar(cs[0] as u32).len() >= 1);
        }
        page
    }

    fn execute(&mut self, action: Action) -> (r: Response) {
        self.data.msgs.clear();
        match action {
            Action::Instructions => {
                self.data.show_instructions();
                let ghost mid = self.data;
                let r = self.data.create_response();
                proof {
                    let middv = mid.msgs.deep_view();
                    let dv = self.data.msgs.deep_view();
                    assert(middv =~~= seq![instructions_text()]);
                    assert(dv =~~= seq![instructions_text()] + turn_report(
                        old(self).data.f as int,
                        old(self).data.l@,
                    ));
                }
                r
            },
            Action::Move(cave) => {
                self.data.move_to(cave);
                let ghost mid = self.data;
                let r = self.data.create_response();
                proof {
                    let middv = mid.msgs.deep_view();
                    let dv = self.data.msgs.deep_view();
                    assert(forall|i: int| 0 <= i < middv.len() ==> dv[i] == middv[i]);
                    let k = middv.len() as int;
                    assert(forall|i: int| 0 <= i < k ==> is_move_msg(#[trigger] dv[i]));
                    assert(dv.subrange(k, dv.len() as int) =~~= turn_report(
                        self.data.f as int,
                        self.data.l@,
                    ));
                    if !spec_adjacent(old(self).data.l@[0], cave) && cave != old(self).data.l@[0] {
                        assert(middv =~~= seq!["NOT POSSIBLE -".spec_bytes()]);
                        assert(dv =~~= seq!["NOT POSSIBLE -".spec_bytes()] + warns_upto(
                            old(self).data.l@,
                            5,
                        ) + seq![
                            room_msg(old(self).data.l@[0]),
                            tunnels_msg(old(self).data.l@[0]),
                        ]);
                    }
                    if mid.f == -1 {
                        // The loss message of the move survives the
                        // response building, which only appends after it.
                        let i = middv.len() - 1;
                        assert(dv[i] == middv[i]);
                        if middv.last() == "YYYIIIIEEEE . . . FELL IN PIT".spec_bytes() {
                            assert(dv.contains("YYYIIIIEEEE . . . FELL IN PIT".spec_bytes()));
                        } else {
                            assert(dv.contains("TSK TSK TSK- WUMPUS GOT YOU!".spec_bytes()));
                        }
                    }
                }
                r
            },
            Action::Shoot(path) => {
                let ghost pre_f = self.data.f;
                let ghost pre_a = self.data.a;
                self.data.shoot_arrow(path);
                let ghost mid = self.data;
                let r = self.data.create_response();
                proof {
                    let middv = mid.msgs.deep_view();
                    let dv = self.data.msgs.deep_view();
                    // The shot's messages survive the response building.
                    assert(forall|i: int| 0 <= i < middv.len() ==> dv[i] == middv[i]);
                    if pre_f != 1 && mid.f == 1 {
                        let i = middv.len() - 1;
                        assert(dv[i] == "AHA! YOU GOT THE WUMPUS!".spec_bytes());
                        assert(dv.contains("AHA! YOU GOT THE WUMPUS!".spec_bytes()));
                    }
                    if mid.a < pre_a {
                        let j = choose|j: int|
                            0 <= j < middv.len() && middv[j] == "MISSED".spec_bytes();
                        assert(dv[j] == "MISSED".spec_bytes());
                        assert(dv.contains("MISSED".spec_bytes()));
                    }
                    let k = middv.len() as int;
                    assert(forall|i: int| 0 <= i < k ==> is_shot_msg(#[trigger] dv[i]));
                    assert(dv.subrange(k, dv.len() as int) =~~= turn_report(
                        self.data.f as int,
                        self.data.l@,
                    ));
                }
                r
            },
            Action::ReStart => {
                self.data.renew();
                let r = self.data.create_response();
                r
            },
            Action::Quit => {
                let mut r = Response::default();
                r.shutdown_required = true;
                r
            },
        }
    }

    fn handle_event(&mut self, event: &Event) -> (r: Response) {
        match event {
            Event::Create => Response::default(),
            Event::SaveInstanceState => Response::default(),
            _ => Response::default(),
        }
    }
}

} // verus!
