//! Slugs: random handles, and the allocation of a free one.

use crate::settings::RecordSettings;
use rand::distributions::DistString;
use vstd::prelude::*;

verus! {

/// An ASCII letter or digit.
pub open spec fn is_alphanumeric(c: char) -> bool {
    ('A' <= c <= 'Z') || ('a' <= c <= 'z') || ('0' <= c <= '9')
}

/// Relies on rand's `Alphanumeric` distribution and `DistString::sample_string`:
/// `len` characters, each drawn from `A-Z`, `a-z` and `0-9`.
#[verifier::external_body]
fn sample_alphanumeric(len: usize) -> (r: String)
    ensures
        r@.len() == len,
        forall|i: int| 0 <= i < r@.len() ==> is_alphanumeric(#[trigger] r@[i]),
{
    rand::distributions::Alphanumeric.sample_string(&mut rand::thread_rng(), len)
}

/// A random alphanumeric slug of `length` characters.
pub fn slug(length: u8) -> (r: String)
    ensures
        r@.len() == length,
        forall|i: int| 0 <= i < r@.len() ==> is_alphanumeric(#[trigger] r@[i]),
{
    sample_alphanumeric(length as usize)
}

/// How many slugs may be drawn before allocation gives up.
pub const MAX_DRAWS: u8 = 2;

/// What the allocation of a slug asks for next.
#[derive(Debug, Clone, PartialEq, Eq)]
pub enum SlugStep {
    /// Ask the store whether this slug is taken, and report it to
    /// [`SlugAllocator::taken`].
    Probe(String),
    /// Draw a random slug of this length (see [`slug`]), and hand it to
    /// [`SlugAllocator::drawn`].
    Draw(u8),
    /// The slug to use.
    Done(String),
    /// Every drawn slug was taken.
    Failed,
}

/// What the allocation of a slug asks for next, as values.
pub enum StepView {
    Probe(Seq<char>),
    Draw(u8),
    Done(Seq<char>),
    Failed,
}

impl View for SlugStep {
    type V = StepView;

    open spec fn view(&self) -> StepView {
        match self {
            SlugStep::Probe(s) => StepView::Probe(s@),
            SlugStep::Draw(n) => StepView::Draw(*n),
            SlugStep::Done(s) => StepView::Done(s@),
            SlugStep::Failed => StepView::Failed,
        }
    }
}

/// The state of one slug allocation. The caller's slug is taken when it is
/// not empty and free; otherwise random slugs are drawn, at most
/// [`MAX_DRAWS`] of them, and the first free one is taken.
#[derive(Debug)]
pub struct SlugAllocator {
    length: u8,
    draws: u8,
    probing: Option<String>,
    preferred: bool,
}

/// How many store probes and draws an allocation in state `v` may still ask
/// for.
pub open spec fn budget_of(v: AllocatorView) -> nat {
    let left = (MAX_DRAWS - v.draws) as nat;
    if v.probing is Some {
        1 + 2 * left
    } else {
        2 * left
    }
}

/// The state after the drawn slug `c` is handed over in state `v`.
pub open spec fn after_drawn(v: AllocatorView, c: Seq<char>) -> AllocatorView {
    AllocatorView { draws: (v.draws + 1) as u8, probing: Some(c), ..v }
}

/// The state after a probe is answered in state `v`.
pub open spec fn after_taken(v: AllocatorView) -> AllocatorView {
    AllocatorView { probing: None, preferred: false, ..v }
}

/// The next step after the store answers, in state `v`, whether the probed
/// slug is taken: that slug when it is free, else another draw while draws
/// are left, else failure.
pub open spec fn taken_step(v: AllocatorView, exists: bool) -> StepView {
    if !exists {
        StepView::Done(v.probing->0)
    } else if v.draws < MAX_DRAWS {
        StepView::Draw(v.length)
    } else {
        StepView::Failed
    }
}

/// Where an allocation in state `v` at step `s` ends when the store holds the
/// slugs of `store` and the draws yield `draws` in turn; it ends for every
/// store and every supply of draws.
pub open spec fn run(
    v: AllocatorView,
    s: StepView,
    store: Set<Seq<char>>,
    draws: Seq<Seq<char>>,
) -> StepView
    decreases budget_of(v),
{
    match s {
        StepView::Probe(c) => if v.probing == Some(c) && v.draws <= MAX_DRAWS {
            run(after_taken(v), taken_step(v, store.contains(c)), store, draws)
        } else {
            s
        },
        StepView::Draw(n) => if v.probing is None && v.draws < MAX_DRAWS && draws.len() > 0 {
            run(after_drawn(v, draws[0]), StepView::Probe(draws[0]), store, draws.drop_first())
        } else {
            s
        },
        _ => s,
    }
}

/// The state of a slug allocation, as values.
pub struct AllocatorView {
    pub length: u8,
    pub draws: u8,
    pub probing: Option<Seq<char>>,
    pub preferred: bool,
}

impl View for SlugAllocator {
    type V = AllocatorView;

    closed spec fn view(&self) -> AllocatorView {
        AllocatorView {
            length: self.length,
            draws: self.draws,
            probing: match self.probing {
                Some(s) => Some(s@),
                None => None,
            },
            preferred: self.preferred,
        }
    }
}

impl SlugAllocator {
    /// A sound state: the caller's slug is only ever the first one probed.
    #[verifier::type_invariant]
    spec fn wf(&self) -> bool {
        &&& self.draws <= MAX_DRAWS
        &&& self.preferred ==> self.draws == 0 && self.probing is Some
    }

    /// How many store probes and draws this allocation may still ask for.
    pub open spec fn budget(&self) -> nat {
        budget_of(self@)
    }

    /// Whether the allocation waits for a store probe.
    pub open spec fn awaits_probe(&self) -> bool {
        self@.probing is Some
    }

    /// Start allocating: the caller's slug where it is given and not empty,
    /// else a drawn one of `max(configured, desired)` characters.
    pub fn start(custom: Option<&String>, desired: Option<u8>, configured: u8) -> (r: (
        SlugAllocator,
        SlugStep,
    ))
        ensures
            r.0@.length == if desired is Some && desired->0 > configured {
                desired->0
            } else {
                configured
            },
            r.0@.draws == 0,
            r.0.budget() <= 2 * MAX_DRAWS + 1,
            match custom {
                Some(s) if s@.len() > 0 => {
                    &&& r.1 matches SlugStep::Probe(p) && p@ == s@
                    &&& r.0@.probing == Some(s@)
                    &&& r.0@.preferred
                },
                _ => {
                    &&& r.1 == SlugStep::Draw(r.0@.length)
                    &&& r.0@.probing is None
                    &&& !r.0@.preferred
                },
            },
    {
        let wanted: u8 = match desired {
            Some(d) => d,
            None => 0,
        };
        let length: u8 = if wanted > configured {
            wanted
        } else {
            configured
        };
        match custom {
            Some(s) if !s.as_str().is_empty() => {
                let a = SlugAllocator {
                    length,
                    draws: 0,
                    probing: Some(s.clone()),
                    preferred: true,
                };
                (a, SlugStep::Probe(s.clone()))
            },
            _ => {
                let a = SlugAllocator { length, draws: 0, probing: None, preferred: false };
                (a, SlugStep::Draw(length))
            },
        }
    }
}

impl SlugAllocator {
    /// Whether the allocation waits for a store probe.
    pub fn expects_probe(&self) -> (r: bool)
        ensures
            r == self.awaits_probe(),
    {
        self.probing.is_some()
    }

    /// Whether the allocation waits for a drawn slug, and may draw one.
    pub fn expects_draw(&self) -> (r: bool)
        ensures
            r == (!self.awaits_probe() && self@.draws < MAX_DRAWS),
    {
        self.probing.is_none() && self.draws < MAX_DRAWS
    }

    /// Hand over the random slug that a [`SlugStep::Draw`] asked for.
    pub fn drawn(&mut self, candidate: String) -> (r: SlugStep)
        requires
            !old(self).awaits_probe(),
            old(self)@.draws < MAX_DRAWS,
        ensures
            final(self)@ == after_drawn(old(self)@, candidate@),
            r@ == StepView::Probe(candidate@),
            final(self).awaits_probe(),
            final(self).budget() < old(self).budget(),
    {
        proof {
            use_type_invariant(&*self);
        }
        self.draws = self.draws + 1;
        let step = SlugStep::Probe(candidate.clone());
        self.probing = Some(candidate);
        step
    }

    /// Report whether the slug that a [`SlugStep::Probe`] asked about is taken.
    pub fn taken(&mut self, exists: bool) -> (r: SlugStep)
        requires
            old(self).awaits_probe(),
        ensures
            final(self)@ == after_taken(old(self)@),
            r@ == taken_step(old(self)@, exists),
            !exists ==> (r matches SlugStep::Done(s) && old(self)@.probing == Some(s@)),
            exists && old(self)@.draws < MAX_DRAWS ==> {
                &&& r == SlugStep::Draw(old(self)@.length)
                &&& final(self)@.draws < MAX_DRAWS
                &&& final(self).budget() < old(self).budget()
            },
            exists && old(self)@.draws >= MAX_DRAWS ==> r == SlugStep::Failed,
    {
        proof {
            use_type_invariant(&*self);
        }
        self.preferred = false;
        let candidate = match &self.probing {
            Some(c) => Some(c.clone()),
            None => None,
        };
        self.probing = None;
        match candidate {
            Some(c) => {
                if !exists {
                    SlugStep::Done(c)
                } else {
                    if self.draws < MAX_DRAWS {
                        SlugStep::Draw(self.length)
                    } else {
                        SlugStep::Failed
                    }
                }
            },
            None => SlugStep::Failed,
        }
    }
}

impl RecordSettings {
    /// Start allocating the slug of a new record, with `configured` the
    /// configured slug length.
    pub fn slug(&self, configured: u8) -> (r: (SlugAllocator, SlugStep))
        ensures
            r.0@.draws == 0,
            r.0@.length == if self@.slug_length is Some && self@.slug_length->0 > configured {
                self@.slug_length->0
            } else {
                configured
            },
            r.0.budget() <= 2 * MAX_DRAWS + 1,
            match self@.custom_slug {
                Some(s) if s.len() > 0 => {
                    &&& r.1 matches SlugStep::Probe(p) && p@ == s
                    &&& r.0@.probing == Some(s)
                    &&& r.0@.preferred
                },
                _ => {
                    &&& r.1 == SlugStep::Draw(r.0@.length)
                    &&& r.0@.probing is None
                    &&& !r.0@.preferred
                },
            },
    {
        SlugAllocator::start(self.custom_slug(), self.slug_length(), configured)
    }
}

/// Against a store that holds every slug of one character but `z`, an
/// allocation of one-character slugs, whose custom slug is absent, empty or
/// taken, ends with `z` when one of its first two draws is `z`, and fails
/// otherwise: it never draws a third time.
pub proof fn lemma_crowded_store(
    v: AllocatorView,
    first: StepView,
    store: Set<Seq<char>>,
    draws: Seq<Seq<char>>,
)
    requires
        v.length == 1,
        v.draws == 0,
        (v.probing is None && !v.preferred && first == StepView::Draw(1))
            || (v.probing is Some && v.preferred && first == StepView::Probe(v.probing->0)
            && store.contains(v.probing->0)),
        draws.len() >= 2,
        draws[0].len() == 1,
        draws[1].len() == 1,
        forall|s: Seq<char>| s.len() == 1 ==> (store.contains(s) <==> s != seq!['z']),
    ensures
        run(v, first, store, draws) == if draws[0] == seq!['z'] || draws[1] == seq!['z'] {
            StepView::Done(seq!['z'])
        } else {
            StepView::Failed
        },
{
    let w = if v.probing is Some {
        after_taken(v)
    } else {
        v
    };
    assert(run(v, first, store, draws) == run(w, StepView::Draw(1), store, draws));
    let w1 = after_drawn(w, draws[0]);
    let rest = draws.drop_first();
    let u1 = after_taken(w1);
    assert(run(w, StepView::Draw(1), store, draws) == run(
        w1,
        StepView::Probe(draws[0]),
        store,
        rest,
    ));
    assert(run(w1, StepView::Probe(draws[0]), store, rest) == run(
        u1,
        taken_step(w1, store.contains(draws[0])),
        store,
        rest,
    ));
    if draws[0] != seq!['z'] {
        assert(rest[0] == draws[1]);
        let w2 = after_drawn(u1, rest[0]);
        assert(run(u1, StepView::Draw(1), store, rest) == run(
            w2,
            StepView::Probe(rest[0]),
            store,
            rest.drop_first(),
        ));
        assert(run(w2, StepView::Probe(rest[0]), store, rest.drop_first()) == run(
            after_taken(w2),
            taken_step(w2, store.contains(rest[0])),
            store,
            rest.drop_first(),
        ));
    }
}

} // verus!
