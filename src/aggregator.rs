//! Gathering the lines of one search depth into a batch, and deciding when
//! a batch is worth handing on.

use vstd::prelude::*;

use crate::payload::BestMovePayload;

verus! {

/// The least depth at which a batch is handed on, unless configured.
pub const MIN_DEPTH: usize = 10;

/// The least time between two hand-overs, in milliseconds, unless
/// configured.
pub const DEBOUNCE_MS: u64 = 300;

/// Whether every line of the batch is present.
pub open spec fn is_full(s: Seq<Option<BestMovePayload>>) -> bool {
    forall|i: int| 0 <= i < s.len() ==> (#[trigger] s[i]) is Some
}

/// Whether every line of a full batch has the depth of the first.
pub open spec fn same_depth(s: Seq<Option<BestMovePayload>>) -> bool {
    forall|i: int| 0 <= i < s.len() ==> (#[trigger] s[i])->0.depth == s[0]->0.depth
}

/// Whether enough time has passed since the last hand-over, if any.
pub open spec fn rested(last: Option<u64>, now: u64, debounce: u64) -> bool {
    match last {
        Some(t) => t <= now && now - t > debounce,
        None => true,
    }
}

/// Whether a full batch is handed on: one depth throughout, at least
/// `min_depth`, and enough time since the last hand-over.
pub open spec fn worth_emitting(
    s: Seq<Option<BestMovePayload>>,
    now: u64,
    last: Option<u64>,
    min_depth: usize,
    debounce: u64,
) -> bool {
    &&& same_depth(s)
    &&& s[0]->0.depth >= min_depth
    &&& rested(last, now, debounce)
}

/// The lines of a full batch, in the order of their multipv index.
pub open spec fn lines_of(s: Seq<Option<BestMovePayload>>) -> Seq<BestMovePayload> {
    s.map_values(|o: Option<BestMovePayload>| o->0)
}

pub open spec fn all_empty(s: Seq<Option<BestMovePayload>>, n: nat) -> bool {
    s.len() == n && forall|i: int| 0 <= i < s.len() ==> (#[trigger] s[i]) is None
}

/// What taking the line `p` at time `now` does: `a0` is the aggregator
/// before, `a1` after, and `r` what is handed on.
pub open spec fn inserted(
    a0: Aggregator,
    p: BestMovePayload,
    now_ms: u64,
    a1: Aggregator,
    r: Option<Vec<BestMovePayload>>,
) -> bool {
    &&& a1.min_depth() == a0.min_depth()
    &&& a1.debounce_ms() == a0.debounce_ms()
    &&& a1.slots().len() == a0.slots().len()
    &&& !(1 <= p.multipv <= a0.slots().len()) ==> {
        &&& r is None
        &&& a1.slots() == a0.slots()
        &&& a1.last_emit() == a0.last_emit()
    }
    &&& 1 <= p.multipv <= a0.slots().len() ==> {
        let s = a0.slots().update(p.multipv - 1, Some(p));
        if is_full(s) {
            let pass = worth_emitting(
                s,
                now_ms,
                a0.last_emit(),
                a0.min_depth(),
                a0.debounce_ms(),
            );
            &&& all_empty(a1.slots(), s.len())
            &&& pass ==> r is Some && r->0@ == lines_of(s) && a1.last_emit()
                == Some(now_ms)
            &&& !pass ==> r is None && a1.last_emit() == a0.last_emit()
        } else {
            &&& r is None
            &&& a1.slots() == s
            &&& a1.last_emit() == a0.last_emit()
        }
    }
}

/// The latest line of each multipv index of the depth being reported,
/// and the time of the last hand-over.
pub struct Aggregator {
    slots: Vec<Option<BestMovePayload>>,
    min_depth: usize,
    debounce_ms: u64,
    last_emit: Option<u64>,
}

fn empty_slots(n: usize) -> (r: Vec<Option<BestMovePayload>>)
    ensures
        all_empty(r@, n as nat),
{
    let mut r: Vec<Option<BestMovePayload>> = Vec::new();
    let mut i: usize = 0;
    while i < n
        invariant
            i <= n,
            all_empty(r@, i as nat),
        decreases n - i,
    {
        r.push(None);
        i = i + 1;
    }
    r
}

impl Aggregator {
    /// The batch: slot `i` holds the line of multipv index `i + 1`.
    pub closed spec fn slots(&self) -> Seq<Option<BestMovePayload>> {
        self.slots@
    }

    pub closed spec fn min_depth(&self) -> usize {
        self.min_depth
    }

    pub closed spec fn debounce_ms(&self) -> u64 {
        self.debounce_ms
    }

    /// When the last batch was handed on, if one was.
    pub closed spec fn last_emit(&self) -> Option<u64> {
        self.last_emit
    }

    /// An empty batch of `lines` lines.
    pub fn new(lines: usize, min_depth: usize, debounce_ms: u64) -> (r: Aggregator)
        ensures
            all_empty(r.slots(), lines as nat),
            r.min_depth() == min_depth,
            r.debounce_ms() == debounce_ms,
            r.last_emit() is None,
    {
        Aggregator { slots: empty_slots(lines), min_depth, debounce_ms, last_emit: None }
    }

    /// The number of lines a full batch has.
    pub fn line_count(&self) -> (r: usize)
        ensures
            r == self.slots().len(),
    {
        self.slots.len()
    }

    /// Whether no line is held.
    pub fn is_empty(&self) -> (r: bool)
        ensures
            r == all_empty(self.slots(), self.slots().len()),
    {
        let mut i: usize = 0;
        while i < self.slots.len()
            invariant
                i <= self.slots@.len(),
                forall|k: int| 0 <= k < i ==> (#[trigger] self.slots@[k]) is None,
            decreases self.slots@.len() - i,
        {
            if self.slots[i].is_some() {
                return false;
            }
            i = i + 1;
        }
        true
    }

    /// Takes one line, observed at time `now_ms`. It replaces the line of
    /// its multipv index; one whose index is outside the batch is dropped.
    /// Once the batch is full it is emptied, and its lines are returned in
    /// multipv order where the batch is worth handing on.
    pub fn insert(&mut self, p: BestMovePayload, now_ms: u64) -> (r: Option<Vec<BestMovePayload>>)
        ensures
            inserted(*old(self), p, now_ms, *final(self), r),
    {
        let n = self.slots.len();
        if p.multipv < 1 || p.multipv > n {
            return None;
        }
        let idx = p.multipv - 1;
        self.slots.set(idx, Some(p));
        let ghost s = self.slots@;
        let mut i: usize = 0;
        while i < n
            invariant
                n == self.slots@.len(),
                n == old(self).slots@.len(),
                1 <= p.multipv <= n,
                s == old(self).slots@.update(p.multipv - 1, Some(p)),
                s == self.slots@,
                self.min_depth == old(self).min_depth,
                self.debounce_ms == old(self).debounce_ms,
                self.last_emit == old(self).last_emit,
                i <= n,
                forall|k: int| 0 <= k < i ==> (#[trigger] s[k]) is Some,
            decreases n - i,
        {
            if self.slots[i].is_none() {
                return None;
            }
            i = i + 1;
        }
        let mut full = empty_slots(n);
        std::mem::swap(&mut self.slots, &mut full);
        let depth = match &full[0] {
            Some(x) => x.depth,
            None => 0,
        };
        let mut same = true;
        let mut i: usize = 0;
        while i < n
            invariant
                n == full@.len(),
                s == full@,
                self.min_depth == old(self).min_depth,
                self.debounce_ms == old(self).debounce_ms,
                self.last_emit == old(self).last_emit,
                all_empty(self.slots@, n as nat),
                is_full(s),
                depth == s[0]->0.depth,
                i <= n,
                same == forall|k: int| 0 <= k < i ==> (#[trigger] s[k])->0.depth == depth,
            decreases n - i,
        {
            let d = match &full[i] {
                Some(x) => x.depth,
                None => 0,
            };
            same = same && d == depth;
            i = i + 1;
        }
        let rested = match self.last_emit {
            Some(t) => t <= now_ms && now_ms - t > self.debounce_ms,
            None => true,
        };
        if !(same && depth >= self.min_depth && rested) {
            return None;
        }
        let mut out: Vec<BestMovePayload> = Vec::new();
        let mut i: usize = 0;
        while i < n
            invariant
                n == s.len(),
                is_full(s),
                i <= n,
                self.min_depth == old(self).min_depth,
                self.debounce_ms == old(self).debounce_ms,
                self.last_emit == old(self).last_emit,
                all_empty(self.slots@, n as nat),
                full@ == s.skip(i as int),
                out@ == lines_of(s).take(i as int),
            decreases n - i,
        {
            let x = full.remove(0);
            assert(x == s[i as int]);
            match x {
                Some(v) => {
                    proof {
                        assert(s.skip(i as int).skip(1) =~= s.skip(i + 1));
                        assert(out@.push(v) =~= lines_of(s).take(i + 1));
                    }
                    out.push(v);
                },
                None => {
                    assert(false);
                },
            }
            i = i + 1;
        }
        assert(lines_of(s).take(n as int) =~= lines_of(s));
        self.last_emit = Some(now_ms);
        Some(out)
    }
}

} // verus!
