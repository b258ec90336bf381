//! The 7-bag randomizer: every kind is dealt once from a bag before the bag
//! is refilled, with a queue of upcoming pieces for preview.
use vstd::prelude::*;
use std::collections::VecDeque;
use crate::shapes::Shape;

verus! {

/// Number of piece kinds.
pub const NUM_SHAPES: usize = 7;

/// Number of upcoming pieces shown ahead.
pub const NUM_PREVIEWS: usize = 6;

/// The bag of kinds not yet drawn and the queue of upcoming pieces.
pub struct RandomBag {
    remaining: Vec<Shape>,
    upcoming: VecDeque<Shape>,
}

/// The state of a `RandomBag` as sequences.
pub ghost struct BagView {
    /// Kinds still in the bag.
    pub remaining: Seq<Shape>,
    /// Upcoming pieces, the next one first.
    pub upcoming: Seq<Shape>,
}

/// The seven kinds, in the order a full bag holds them.
pub open spec fn all_shapes() -> Seq<Shape> {
    seq![Shape::I, Shape::O, Shape::J, Shape::L, Shape::S, Shape::Z, Shape::T]
}

impl BagView {
    /// A full bag and no upcoming pieces.
    pub open spec fn initial() -> BagView {
        BagView { remaining: all_shapes(), upcoming: seq![] }
    }

    /// The bag is never empty between draws.
    pub open spec fn drawable(self) -> bool {
        1 <= self.remaining.len() <= NUM_SHAPES
    }

    /// Between deals the queue shows exactly `NUM_PREVIEWS` pieces.
    pub open spec fn wf(self) -> bool {
        self.drawable() && self.upcoming.len() == NUM_PREVIEWS
    }

    /// The state after drawing with random byte `byte`: the kind at index
    /// `byte % remaining.len()` leaves the bag for the tail of the queue, and
    /// an emptied bag is refilled with all seven kinds.
    pub open spec fn filled(self, byte: u8) -> BagView {
        let i = byte as int % self.remaining.len() as int;
        let rest = self.remaining.remove(i);
        BagView {
            remaining: if rest.len() == 0 {
                all_shapes()
            } else {
                rest
            },
            upcoming: self.upcoming.push(self.remaining[i]),
        }
    }

    /// The state after one draw for each byte of `bytes`, in order.
    pub open spec fn filled_all(self, bytes: Seq<u8>) -> BagView
        decreases bytes.len(),
    {
        if bytes.len() == 0 {
            self
        } else {
            self.filled_all(bytes.drop_last()).filled(bytes.last())
        }
    }

    /// Dealing one piece with random byte `byte`: one draw, then the head of
    /// the queue leaves it. Gives the new state and the piece dealt.
    pub open spec fn taken(self, byte: u8) -> (BagView, Shape) {
        let f = self.filled(byte);
        (BagView { remaining: f.remaining, upcoming: f.upcoming.drop_first() }, f.upcoming[0])
    }

    /// The pieces dealt by one deal per byte of `bytes`, in order.
    pub open spec fn dealt(self, bytes: Seq<u8>) -> Seq<Shape>
        decreases bytes.len(),
    {
        if bytes.len() == 0 {
            seq![]
        } else {
            let (next, s) = self.taken(bytes[0]);
            seq![s] + next.dealt(bytes.drop_first())
        }
    }
}

impl View for RandomBag {
    type V = BagView;

    closed spec fn view(&self) -> BagView {
        BagView { remaining: self.remaining@, upcoming: self.upcoming@ }
    }
}

/// The error type of the entropy source, carried through opaquely.
#[verifier::external_type_specification]
#[verifier::external_body]
pub struct ExRandomError(getrandom::Error);

/// Relies on `getrandom::getrandom`, which fills an `n`-byte buffer from the
/// system's entropy source or reports why it could not. Nothing is known of
/// the bytes.
#[verifier::external_body]
fn random_bytes(n: usize) -> (r: Result<Vec<u8>, getrandom::Error>) {
    let mut buf: Vec<u8> = vec![0; n];
    match getrandom::getrandom(&mut buf) {
        Ok(()) => Ok(buf),
        Err(e) => Err(e),
    }
}

/// A vector of the seven kinds.
fn all_shapes_vec() -> (r: Vec<Shape>)
    ensures
        r@ == all_shapes(),
{
    let r = vec![Shape::I, Shape::O, Shape::J, Shape::L, Shape::S, Shape::Z, Shape::T];
    assert(r@ =~= all_shapes());
    r
}

impl RandomBag {
    pub open spec fn wf(&self) -> bool {
        self@.wf()
    }

    /// A full bag with `NUM_PREVIEWS` pieces already drawn into the queue.
    pub fn new() -> (r: RandomBag)
        ensures
            r.wf(),
            r@.upcoming.len() == NUM_PREVIEWS,
            exists|bytes: Seq<u8>|
                bytes.len() == NUM_PREVIEWS && r@ == BagView::initial().filled_all(bytes),
    {
        let mut result = RandomBag { remaining: all_shapes_vec(), upcoming: VecDeque::new() };
        let ghost mut bytes: Seq<u8> = seq![];
        assert(result@ == BagView::initial().filled_all(bytes));
        while result.upcoming.len() < NUM_PREVIEWS
            invariant
                result@.drawable(),
                bytes.len() == result@.upcoming.len() <= NUM_PREVIEWS,
                result@ == BagView::initial().filled_all(bytes),
            decreases NUM_PREVIEWS - result@.upcoming.len(),
        {
            let ghost before = result@;
            result.fill_upcoming();
            proof {
                let b = choose|b: u8| result@ == before.filled(b);
                assert(bytes.push(b).drop_last() =~= bytes);
                bytes = bytes.push(b);
            }
        }
        result
    }

    /// The upcoming pieces, the next one first.
    pub fn previews(&self) -> (r: Vec<Shape>)
        ensures
            r@ == self@.upcoming,
    {
        let mut r: Vec<Shape> = Vec::new();
        let mut i: usize = 0;
        while i < self.upcoming.len()
            invariant
                i <= self.upcoming@.len(),
                r@ == self.upcoming@.take(i as int),
            decreases self.upcoming@.len() - i,
        {
            r.push(self.upcoming[i]);
            i = i + 1;
            assert(r@ =~= self.upcoming@.take(i as int));
        }
        assert(self.upcoming@.take(i as int) =~= self.upcoming@);
        r
    }

    /// Deals the next piece, drawing one more kind from the bag into the queue.
    pub fn take_next(&mut self) -> (r: Shape)
        requires
            old(self).wf(),
        ensures
            final(self).wf(),
            r == old(self)@.upcoming[0],
            exists|byte: u8| (final(self)@, r) == old(self)@.taken(byte),
    {
        let byte = Self::draw_byte();
        self.take_next_with(byte)
    }

    /// Deals the next piece, drawing into the queue the kind that `byte` selects.
    pub fn take_next_with(&mut self, byte: u8) -> (r: Shape)
        requires
            old(self).wf(),
        ensures
            final(self).wf(),
            r == old(self)@.upcoming[0],
            (final(self)@, r) == old(self)@.taken(byte),
    {
        self.fill_upcoming_with(byte);
        self.upcoming.pop_front().unwrap()
    }

    /// A random byte; zero where the entropy source fails.
    fn draw_byte() -> u8 {
        match random_bytes(1) {
            Ok(b) => if b.len() > 0 {
                b[0]
            } else {
                0
            },
            Err(_) => 0,
        }
    }

    /// Up to `n` random bytes; none where the entropy source fails.
    pub(crate) fn draw_bytes(n: usize) -> Vec<u8> {
        match random_bytes(n) {
            Ok(b) => b,
            Err(_) => Vec::new(),
        }
    }

    /// Draws a random kind from the bag into the queue.
    fn fill_upcoming(&mut self)
        requires
            old(self)@.drawable(),
        ensures
            final(self)@.drawable(),
            exists|byte: u8| final(self)@ == old(self)@.filled(byte),
    {
        let byte = Self::draw_byte();
        self.fill_upcoming_with(byte);
    }

    /// Draws into the queue the kind of the bag that `byte` selects: the one at
    /// index `byte % remaining.len()`. An emptied bag is refilled.
    fn fill_upcoming_with(&mut self, byte: u8)
        requires
            old(self)@.drawable(),
        ensures
            final(self)@.drawable(),
            final(self)@ == old(self)@.filled(byte),
    {
        let idx = (byte as usize) % self.remaining.len();
        let s = self.remaining.remove(idx);
        self.upcoming.push_back(s);
        if self.remaining.len() == 0 {
            self.remaining = all_shapes_vec();
        }
    }
}

/// How a bag state came about: `drawn` holds every kind drawn into the queue
/// so far and `dealt` of them have left it. Until seven are drawn they are
/// distinct and the bag holds exactly the others; from then on the first seven
/// drawn are the seven kinds.
spec fn drawn_from(v: BagView, drawn: Seq<Shape>, dealt: int) -> bool {
    &&& 0 <= dealt <= drawn.len()
    &&& v.upcoming == drawn.subrange(dealt, drawn.len() as int)
    &&& v.drawable()
    &&& if drawn.len() < NUM_SHAPES {
        &&& drawn.no_duplicates()
        &&& v.remaining.no_duplicates()
        &&& v.remaining.len() + drawn.len() == NUM_SHAPES
        &&& forall|s: Shape| #[trigger] v.remaining.contains(s) <==> !drawn.contains(s)
    } else {
        &&& drawn.take(NUM_SHAPES as int).no_duplicates()
        &&& forall|s: Shape| #[trigger] drawn.take(NUM_SHAPES as int).contains(s)
    }
}

/// The kinds are distinct.
proof fn lemma_all_shapes_distinct()
    ensures
        all_shapes().no_duplicates(),
        forall|s: Shape| #[trigger] all_shapes().contains(s),
{
    assert forall|s: Shape| #[trigger] all_shapes().contains(s) by {
        match s {
            Shape::I => assert(all_shapes()[0] == s),
            Shape::O => assert(all_shapes()[1] == s),
            Shape::J => assert(all_shapes()[2] == s),
            Shape::L => assert(all_shapes()[3] == s),
            Shape::S => assert(all_shapes()[4] == s),
            Shape::Z => assert(all_shapes()[5] == s),
            Shape::T => assert(all_shapes()[6] == s),
        }
    }
}

/// One draw extends the history by the kind drawn.
proof fn lemma_fill_keeps_history(v: BagView, drawn: Seq<Shape>, dealt: int, byte: u8)
    requires
        drawn_from(v, drawn, dealt),
    ensures
        drawn_from(
            v.filled(byte),
            drawn.push(v.remaining[byte as int % v.remaining.len() as int]),
            dealt,
        ),
{
    let i = byte as int % v.remaining.len() as int;
    let s = v.remaining[i];
    let rest = v.remaining.remove(i);
    let d2 = drawn.push(s);
    let f = v.filled(byte);
    assert(f.upcoming =~= d2.subrange(dealt, d2.len() as int));
    lemma_all_shapes_distinct();
    if drawn.len() < NUM_SHAPES {
        assert(v.remaining.contains(s));
        assert(!drawn.contains(s));
        assert forall|x: Shape| #[trigger] rest.contains(x) <==> (v.remaining.contains(x) && x != s) by {
            if rest.contains(x) {
                let j = choose|j: int| 0 <= j < rest.len() && rest[j] == x;
                if j < i {
                    assert(v.remaining[j] == x);
                } else {
                    assert(v.remaining[j + 1] == x);
                }
            }
            if v.remaining.contains(x) && x != s {
                let j = choose|j: int| 0 <= j < v.remaining.len() && v.remaining[j] == x;
                if j < i {
                    assert(rest[j] == x);
                } else {
                    assert(rest[j - 1] == x);
                }
            }
        }
        assert forall|x: Shape| #[trigger] d2.contains(x) <==> (drawn.contains(x) || x == s) by {
            if d2.contains(x) {
                let j = choose|j: int| 0 <= j < d2.len() && d2[j] == x;
                if j < drawn.len() {
                    assert(drawn[j] == x);
                }
            }
            if drawn.contains(x) {
                let j = choose|j: int| 0 <= j < drawn.len() && drawn[j] == x;
                assert(d2[j] == x);
            }
            assert(d2[drawn.len() as int] == s);
        }
        assert(d2.no_duplicates()) by {
            assert forall|a: int, b: int| 0 <= a < d2.len() && 0 <= b < d2.len() && a != b implies d2[a]
                != d2[b] by {
                if a < drawn.len() && b < drawn.len() {
                } else if a < drawn.len() {
                    assert(drawn.contains(d2[a]));
                } else if b < drawn.len() {
                    assert(drawn.contains(d2[b]));
                }
            }
        }
        assert(rest.no_duplicates()) by {
            assert forall|a: int, b: int| 0 <= a < rest.len() && 0 <= b < rest.len() && a != b implies rest[a]
                != rest[b] by {
                let a1 = if a < i { a } else { a + 1 };
                let b1 = if b < i { b } else { b + 1 };
                assert(rest[a] == v.remaining[a1]);
                assert(rest[b] == v.remaining[b1]);
            }
        }
        if d2.len() == NUM_SHAPES {
            assert(d2.take(NUM_SHAPES as int) =~= d2);
            assert forall|x: Shape| #[trigger] d2.take(NUM_SHAPES as int).contains(x) by {
                if !d2.contains(x) {
                    assert(v.remaining.contains(x));
                    assert(rest.contains(x));
                }
            }
        }
    } else {
        assert(d2.take(NUM_SHAPES as int) =~= drawn.take(NUM_SHAPES as int));
    }
}

/// Dealing from a state with a known history: the pieces dealt are the next
/// ones of the history in the order drawn, and the history only grows.
proof fn lemma_deal_follows_history(
    v: BagView,
    drawn: Seq<Shape>,
    dealt: int,
    bytes: Seq<u8>,
) -> (d2: Seq<Shape>)
    requires
        drawn_from(v, drawn, dealt),
    ensures
        d2.len() == drawn.len() + bytes.len(),
        d2.take(drawn.len() as int) == drawn,
        v.dealt(bytes) == d2.subrange(dealt, dealt + bytes.len()),
        d2.len() >= NUM_SHAPES ==> d2.take(NUM_SHAPES as int).no_duplicates() && forall|s: Shape|
            #[trigger] d2.take(NUM_SHAPES as int).contains(s),
    decreases bytes.len(),
{
    if bytes.len() == 0 {
        assert(drawn.take(drawn.len() as int) =~= drawn);
        assert(v.dealt(bytes) =~= drawn.subrange(dealt, dealt));
        drawn
    } else {
        let b = bytes[0];
        let s = v.remaining[b as int % v.remaining.len() as int];
        let d1 = drawn.push(s);
        lemma_fill_keeps_history(v, drawn, dealt, b);
        let f = v.filled(b);
        let (next, out) = v.taken(b);
        assert(out == d1[dealt]);
        assert(next.upcoming =~= d1.subrange(dealt + 1, d1.len() as int));
        assert(drawn_from(next, d1, dealt + 1)) by {
            if d1.len() >= NUM_SHAPES {
            }
        }
        let d2 = lemma_deal_follows_history(next, d1, dealt + 1, bytes.drop_first());
        assert(d2[dealt] == d1[dealt]) by {
            assert(d2.take(d1.len() as int)[dealt] == d1[dealt]);
        }
        assert(v.dealt(bytes) =~= d2.subrange(dealt, dealt + bytes.len()));
        assert(d2.take(drawn.len() as int) =~= drawn) by {
            assert forall|j: int| 0 <= j < drawn.len() implies d2[j] == drawn[j] by {
                assert(d2.take(d1.len() as int)[j] == d1[j]);
            }
        }
        if d1.len() >= NUM_SHAPES {
            assert(d2.take(NUM_SHAPES as int) =~= d1.take(NUM_SHAPES as int)) by {
                assert forall|j: int| 0 <= j < NUM_SHAPES implies d2[j] == d1[j] by {
                    assert(d2.take(d1.len() as int)[j] == d1[j]);
                }
            }
        }
        d2
    }
}

/// The history of a bag filled from full.
proof fn lemma_filled_history(bytes: Seq<u8>) -> (drawn: Seq<Shape>)
    requires
        bytes.len() <= NUM_SHAPES,
    ensures
        drawn.len() == bytes.len(),
        drawn_from(BagView::initial().filled_all(bytes), drawn, 0),
    decreases bytes.len(),
{
    lemma_all_shapes_distinct();
    if bytes.len() == 0 {
        let d: Seq<Shape> = seq![];
        assert(BagView::initial().upcoming =~= d.subrange(0, 0));
        assert forall|s: Shape| #[trigger] all_shapes().contains(s) <==> !d.contains(s) by {}
        d
    } else {
        let d = lemma_filled_history(bytes.drop_last());
        let v = BagView::initial().filled_all(bytes.drop_last());
        lemma_fill_keeps_history(v, d, 0, bytes.last());
        d.push(v.remaining[bytes.last() as int % v.remaining.len() as int])
    }
}

/// A fresh bag deals each of the seven kinds exactly once in its first seven
/// pieces, whatever random bytes it draws.
pub proof fn lemma_fresh_bag_deals_each_kind_once(fill_bytes: Seq<u8>, take_bytes: Seq<u8>)
    requires
        fill_bytes.len() == NUM_PREVIEWS,
        take_bytes.len() == NUM_SHAPES,
    ensures
        ({
            let dealt = BagView::initial().filled_all(fill_bytes).dealt(take_bytes);
            &&& dealt.len() == NUM_SHAPES
            &&& dealt.no_duplicates()
            &&& forall|s: Shape| #[trigger] dealt.contains(s)
        }),
{
    let d = lemma_filled_history(fill_bytes);
    let d2 = lemma_deal_follows_history(
        BagView::initial().filled_all(fill_bytes),
        d,
        0,
        take_bytes,
    );
    assert(d2.subrange(0, NUM_SHAPES as int) =~= d2.take(NUM_SHAPES as int));
}

} // verus!
