//! The hook pipeline.
//!
//! A hook (a fairing) takes part in some of three checkpoints: ignition,
//! liftoff and shutdown. Hooks are kept in the order in which they were
//! attached. A singleton hook replaces the hooks of its identity that are
//! attached already, and takes its place at the end.
//!
//! The pipeline keeps each hook's description and payload. It decides which
//! hook is to run next; running one is the caller's work.

use crate::pairs::{lemma_pairs_below, pairs_below, pairs_in_row};
use crate::state::Value;
use vstd::prelude::*;

verus! {

/// The checkpoints that a hook takes part in, and whether it is a singleton.
#[derive(Clone, Copy, Debug, PartialEq, Eq, Structural)]
pub struct Kind {
    pub ignite: bool,
    pub liftoff: bool,
    pub shutdown: bool,
    pub singleton: bool,
}

/// The description of a hook: its name, its kind, and the identity that a
/// singleton is replaced by.
pub struct Info {
    pub name: String,
    pub kind: Kind,
    pub identity: u64,
}

/// What a description is.
pub struct InfoView {
    pub name: Seq<char>,
    pub kind: Kind,
    pub identity: u64,
}

impl View for Info {
    type V = InfoView;

    open spec fn view(&self) -> InfoView {
        InfoView { name: self.name@, kind: self.kind, identity: self.identity }
    }
}

impl Clone for Info {
    fn clone(&self) -> (r: Info)
        ensures
            r@ == self@,
    {
        Info { name: self.name.clone(), kind: self.kind, identity: self.identity }
    }
}

/// The views of a sequence of descriptions.
pub open spec fn info_views(s: Seq<Info>) -> Seq<InfoView> {
    s.map_values(|x: Info| x@)
}

/// An attached hook: its description, whether it was handed out to run at
/// ignition, and its payload.
pub struct HookView {
    pub info: InfoView,
    pub ran: bool,
    pub hook: Value,
}

impl HookView {
    /// The hook takes part in ignition and was not handed out yet.
    pub open spec fn pending(self) -> bool {
        self.info.kind.ignite && !self.ran
    }
}

/// `hooks` without the hooks of identity `identity`.
pub open spec fn without(hooks: Seq<HookView>, identity: u64) -> Seq<HookView>
    decreases hooks.len(),
{
    if hooks.len() == 0 {
        hooks
    } else if hooks.last().info.identity == identity {
        without(hooks.drop_last(), identity)
    } else {
        without(hooks.drop_last(), identity).push(hooks.last())
    }
}

/// `hooks` after `hook` is attached: it is put at the end, and if it is a
/// singleton the hooks of its identity that were there are taken out.
pub open spec fn attached(hooks: Seq<HookView>, hook: HookView) -> Seq<HookView> {
    if hook.info.kind.singleton {
        without(hooks, hook.info.identity).push(hook)
    } else {
        hooks.push(hook)
    }
}

/// The first place at or after `from` of a hook that is pending, or the
/// number of hooks if there is none.
pub open spec fn first_pending(hooks: Seq<HookView>, from: int) -> int
    decreases hooks.len() - from,
{
    if from < 0 || from >= hooks.len() {
        hooks.len() as int
    } else if hooks[from].pending() {
        from
    } else {
        first_pending(hooks, from + 1)
    }
}

/// The place of the hook that is to run next at ignition: the first one
/// that takes part in ignition and was not handed out yet.
pub open spec fn next_pending(hooks: Seq<HookView>) -> Option<int> {
    let at = first_pending(hooks, 0);
    if at < hooks.len() {
        Some(at)
    } else {
        None
    }
}

/// `hooks` after the hook at `at` is handed out.
pub open spec fn handed_out(hooks: Seq<HookView>, at: int) -> Seq<HookView> {
    hooks.update(at, HookView { ran: true, ..hooks[at] })
}

/// The places at which `marks` holds `true`, rising.
pub open spec fn places(marks: Seq<bool>) -> Seq<int>
    decreases marks.len(),
{
    if marks.len() == 0 {
        Seq::empty()
    } else if marks.last() {
        places(marks.drop_last()).push(marks.len() - 1)
    } else {
        places(marks.drop_last())
    }
}

/// For each hook, whether it takes part in liftoff.
pub open spec fn liftoff_marks(hooks: Seq<HookView>) -> Seq<bool> {
    hooks.map_values(|h: HookView| h.info.kind.liftoff)
}

/// For each hook, whether it takes part in shutdown.
pub open spec fn shutdown_marks(hooks: Seq<HookView>) -> Seq<bool> {
    hooks.map_values(|h: HookView| h.info.kind.shutdown)
}

/// For each hook, whether it has the identity `identity`.
pub open spec fn identity_marks(hooks: Seq<HookView>, identity: u64) -> Seq<bool> {
    hooks.map_values(|h: HookView| h.info.identity == identity)
}

/// The first place at or after `from` of a hook of identity `identity`, or
/// the number of hooks if there is none.
pub open spec fn first_of(hooks: Seq<HookView>, identity: u64, from: int) -> int
    decreases hooks.len() - from,
{
    if from < 0 || from >= hooks.len() {
        hooks.len() as int
    } else if hooks[from].info.identity == identity {
        from
    } else {
        first_of(hooks, identity, from + 1)
    }
}

/// Two hooks conflict when neither is a singleton, both have the same name,
/// and they declare different checkpoints.
pub open spec fn conflicting(a: InfoView, b: InfoView) -> bool {
    &&& !a.kind.singleton
    &&& !b.kind.singleton
    &&& a.name == b.name
    &&& a.kind != b.kind
}

/// Whether the hooks at `i` and `j` conflict.
pub open spec fn hooks_hit(hooks: Seq<HookView>) -> spec_fn(int, int) -> bool {
    |i: int, j: int| conflicting(hooks[i].info, hooks[j].info)
}

/// Every pair of conflicting hooks, the earlier one first: by the place of
/// the earlier hook, then by that of the later one.
pub open spec fn conflicts(hooks: Seq<HookView>) -> Seq<(InfoView, InfoView)> {
    pairs_below(hooks_hit(hooks), hooks.len() as int, hooks.len() as int).map_values(
        |p: (int, int)| (hooks[p.0].info, hooks[p.1].info),
    )
}

/// The views of a sequence of pairs of descriptions.
pub open spec fn info_pair_views(s: Seq<(Info, Info)>) -> Seq<(InfoView, InfoView)> {
    s.map_values(|p: (Info, Info)| (p.0@, p.1@))
}

/// The numbers of `s`, as integers.
pub open spec fn as_ints(s: Seq<usize>) -> Seq<int> {
    s.map_values(|x: usize| x as int)
}

/// The places of `marks` lie inside `marks`, rise, and are the places at
/// which `marks` holds `true`.
pub proof fn lemma_places(marks: Seq<bool>)
    ensures
        forall|j: int| 0 <= j < places(marks).len() ==> 0 <= #[trigger] places(marks)[j]
            < marks.len() && marks[places(marks)[j]],
        forall|i: int, j: int|
            0 <= i < j < places(marks).len() ==> places(marks)[i] < places(marks)[j],
        forall|i: int| 0 <= i < marks.len() && marks[i] ==> #[trigger] places(marks).contains(i),
    decreases marks.len(),
{
    if marks.len() > 0 {
        let rest = marks.drop_last();
        lemma_places(rest);
        let all = places(marks);
        assert forall|i: int| 0 <= i < marks.len() && marks[i] implies #[trigger] all.contains(
            i,
        ) by {
            if i < rest.len() {
                assert(rest[i]);
                assert(places(rest).contains(i));
                let k = choose|k: int| 0 <= k < places(rest).len() && places(rest)[k] == i;
                assert(all[k] == i);
            } else {
                assert(all[all.len() - 1] == i);
            }
        }
    }
}

/// Before the place that `first_pending` finds nothing is pending, and the
/// hook at that place, if there is one, is.
pub proof fn lemma_first_pending(hooks: Seq<HookView>, from: int)
    requires
        0 <= from <= hooks.len(),
    ensures
        from <= first_pending(hooks, from) <= hooks.len(),
        forall|i: int| from <= i < first_pending(hooks, from) ==> !(#[trigger] hooks[i]).pending(),
        first_pending(hooks, from) < hooks.len() ==> hooks[first_pending(hooks, from)].pending(),
    decreases hooks.len() - from,
{
    if from < hooks.len() && !hooks[from].pending() {
        lemma_first_pending(hooks, from + 1);
    }
}

struct Hook {
    info: Info,
    ran: bool,
    hook: Value,
}

impl View for Hook {
    type V = HookView;

    closed spec fn view(&self) -> HookView {
        HookView { info: self.info@, ran: self.ran, hook: self.hook }
    }
}

spec fn hook_views(s: Seq<Hook>) -> Seq<HookView> {
    s.map_values(|x: Hook| x@)
}

/// The hooks of an instance, in the order of attachment.
pub struct Fairings {
    all: Vec<Hook>,
    attempted: Vec<Info>,
}

impl Fairings {
    /// The attached hooks.
    pub closed spec fn hooks(&self) -> Seq<HookView> {
        hook_views(self.all@)
    }

    /// The descriptions of the hooks that were handed out to run at
    /// ignition, in that order.
    pub closed spec fn attempted(&self) -> Seq<InfoView> {
        info_views(self.attempted@)
    }

    /// A pipeline without hooks.
    pub fn new() -> (r: Fairings)
        ensures
            r.hooks() == Seq::<HookView>::empty(),
            r.attempted() == Seq::<InfoView>::empty(),
    {
        let r = Fairings { all: Vec::new(), attempted: Vec::new() };
        assert(r.hooks() =~= Seq::<HookView>::empty());
        assert(r.attempted() =~= Seq::<InfoView>::empty());
        r
    }

    /// Attaches a hook with description `info` and payload `hook`.
    pub fn add(&mut self, info: Info, hook: Value)
        ensures
            final(self).hooks() == attached(
                old(self).hooks(),
                HookView { info: info@, ran: false, hook },
            ),
            final(self).attempted() == old(self).attempted(),
    {
        let ghost before = self.hooks();
        let identity = info.identity;
        if info.kind.singleton {
            let mut all: Vec<Hook> = Vec::new();
            core::mem::swap(&mut self.all, &mut all);
            let mut kept: Vec<Hook> = Vec::new();
            let ghost given = all@;
            for h in it: all
                invariant
                    it.seq() == given,
                    hook_views(kept@) == without(
                        hook_views(given.subrange(0, it.index() as int)),
                        identity,
                    ),
            {
                proof {
                    let at = it.index() as int;
                    let next = hook_views(given.subrange(0, at + 1));
                    assert(next.drop_last() =~= hook_views(given.subrange(0, at)));
                    assert(next.last() == h@);
                    assert(hook_views(kept@.push(h)) =~= hook_views(kept@).push(h@));
                }
                if h.info.identity != identity {
                    kept.push(h);
                }
            }
            assert(given.subrange(0, given.len() as int) =~= given);
            self.all = kept;
        }
        let ghost kept = self.all@;
        let ghost last = Hook { info, ran: false, hook };
        self.all.push(Hook { info, ran: false, hook });
        assert(hook_views(kept.push(last)) =~= hook_views(kept).push(last@));
    }

    /// Gives up the pipeline for the descriptions of the hooks that were
    /// handed out to run at ignition.
    pub fn into_attempts(self) -> (r: Vec<Info>)
        ensures
            info_views(r@) == self.attempted(),
    {
        self.attempted
    }

    /// The number of hooks.
    pub fn len(&self) -> (r: usize)
        ensures
            r == self.hooks().len(),
    {
        self.all.len()
    }

    /// The description of the hook at `at`.
    pub fn info(&self, at: usize) -> (r: &Info)
        requires
            at < self.hooks().len(),
        ensures
            r@ == self.hooks()[at as int].info,
    {
        &self.all[at].info
    }

    /// The payload of the hook at `at`.
    pub fn payload(&self, at: usize) -> (r: &Value)
        requires
            at < self.hooks().len(),
        ensures
            *r == self.hooks()[at as int].hook,
    {
        &self.all[at].hook
    }

    /// Whether the hook at `at` was handed out to run at ignition.
    pub fn ran(&self, at: usize) -> (r: bool)
        requires
            at < self.hooks().len(),
        ensures
            r == self.hooks()[at as int].ran,
    {
        self.all[at].ran
    }

    /// The descriptions of the hooks that were handed out to run at
    /// ignition, in that order.
    pub fn attempts(&self) -> (r: &Vec<Info>)
        ensures
            info_views(r@) == self.attempted(),
    {
        &self.attempted
    }

    /// The place of the hook that is to run next at ignition, if there is
    /// one.
    pub fn next_ignite(&self) -> (r: Option<usize>)
        ensures
            match r {
                Some(at) => next_pending(self.hooks()) == Some(at as int),
                None => next_pending(self.hooks()) is None,
            },
    {
        let mut i: usize = 0;
        while i < self.all.len()
            invariant
                i <= self.all@.len(),
                first_pending(self.hooks(), 0) == first_pending(self.hooks(), i as int),
            decreases self.all.len() - i,
        {
            if self.all[i].info.kind.ignite && !self.all[i].ran {
                return Some(i);
            }
            i = i + 1;
        }
        None
    }

    /// Hands out the hook that is to run next at ignition: marks it and
    /// adds its description to the hooks attempted. Without such a hook
    /// nothing changes.
    pub fn hand_out(&mut self) -> (r: Option<usize>)
        ensures
            match next_pending(old(self).hooks()) {
                Some(at) => {
                    &&& r matches Some(place)
                    &&& place == at
                    &&& final(self).hooks() == handed_out(old(self).hooks(), at)
                    &&& final(self).attempted() == old(self).attempted().push(
                        old(self).hooks()[at].info,
                    )
                },
                None => {
                    &&& r is None
                    &&& final(self).hooks() == old(self).hooks()
                    &&& final(self).attempted() == old(self).attempted()
                },
            },
    {
        match self.next_ignite() {
            None => None,
            Some(at) => {
                proof {
                    lemma_first_pending(self.hooks(), 0);
                }
                let ghost before = self.all@;
                let ghost log = self.attempted@;
                let Hook { info, ran: _, hook } = self.all.remove(at);
                let noted = info.clone();
                self.all.insert(at, Hook { info, ran: true, hook });
                self.attempted.push(noted);
                assert(hook_views(self.all@) =~= handed_out(hook_views(before), at as int));
                assert(info_views(self.attempted@) =~= info_views(log).push(
                    hook_views(before)[at as int].info,
                ));
                Some(at)
            },
        }
    }

    /// The payloads of the hooks of identity `identity`, in the order of
    /// attachment.
    pub fn payloads(&self, identity: u64) -> (r: Vec<&Value>)
        ensures
            r@.len() == places(identity_marks(self.hooks(), identity)).len(),
            forall|k: int|
                0 <= k < r@.len() ==> *(#[trigger] r@[k]) == self.hooks()[places(
                    identity_marks(self.hooks(), identity),
                )[k]].hook,
    {
        let found = self.filter(identity);
        let ghost marks = identity_marks(self.hooks(), identity);
        proof {
            lemma_places(marks);
        }
        let mut out: Vec<&Value> = Vec::new();
        let mut k: usize = 0;
        while k < found.len()
            invariant
                k <= found@.len(),
                as_ints(found@) == places(marks),
                marks.len() == self.hooks().len(),
                forall|j: int| 0 <= j < places(marks).len() ==> 0 <= #[trigger] places(marks)[j]
                    < marks.len(),
                out@.len() == k,
                forall|j: int|
                    0 <= j < k ==> *(#[trigger] out@[j]) == self.hooks()[places(marks)[j]].hook,
            decreases found.len() - k,
        {
            assert(as_ints(found@)[k as int] == found@[k as int]);
            out.push(self.payload(found[k]));
            k = k + 1;
        }
        out
    }

    /// The place of the first hook of identity `identity`, if there is one.
    pub fn find(&self, identity: u64) -> (r: Option<usize>)
        ensures
            match r {
                Some(at) => at == first_of(self.hooks(), identity, 0) && at < self.hooks().len(),
                None => first_of(self.hooks(), identity, 0) == self.hooks().len(),
            },
    {
        let mut i: usize = 0;
        while i < self.all.len()
            invariant
                i <= self.all@.len(),
                first_of(self.hooks(), identity, 0) == first_of(self.hooks(), identity, i as int),
            decreases self.all.len() - i,
        {
            if self.all[i].info.identity == identity {
                return Some(i);
            }
            i = i + 1;
        }
        None
    }

    /// The payload of the first hook of identity `identity`, to be changed
    /// in place.
    pub fn first_mut(&mut self, identity: u64) -> (r: Option<&mut Value>)
        ensures
            final(self).attempted() == old(self).attempted(),
            match r {
                Some(v) => {
                    let at = first_of(old(self).hooks(), identity, 0);
                    &&& at < old(self).hooks().len()
                    &&& *v == old(self).hooks()[at].hook
                    &&& final(self).hooks() == old(self).hooks().update(
                        at,
                        HookView { hook: *final(v), ..old(self).hooks()[at] },
                    )
                },
                None => {
                    &&& first_of(old(self).hooks(), identity, 0) == old(self).hooks().len()
                    &&& final(self).hooks() == old(self).hooks()
                },
            },
    {
        let mut i: usize = 0;
        let n = self.all.len();
        while i < n
            invariant
                i <= n == self.all@.len(),
                self.all@ == old(self).all@,
                self.attempted@ == old(self).attempted@,
                first_of(self.hooks(), identity, 0) == first_of(self.hooks(), identity, i as int),
            decreases n - i,
        {
            if self.all[i].info.identity == identity {
                let ghost before = self.all@;
                let v = &mut self.all[i].hook;
                proof {
                    let after = before.update(
                        i as int,
                        Hook { hook: *final(v), ..before[i as int] },
                    );
                    assert(hook_views(after) =~= hook_views(before).update(
                        i as int,
                        HookView { hook: *final(v), ..hook_views(before)[i as int] },
                    ));
                }
                return Some(v);
            }
            i = i + 1;
        }
        None
    }

    /// The payload of the hook at `at`, to be changed in place.
    pub fn payload_mut(&mut self, at: usize) -> (r: &mut Value)
        requires
            at < old(self).hooks().len(),
        ensures
            *r == old(self).hooks()[at as int].hook,
            final(self).attempted() == old(self).attempted(),
            final(self).hooks() == old(self).hooks().update(
                at as int,
                HookView { hook: *final(r), ..old(self).hooks()[at as int] },
            ),
    {
        let ghost before = self.all@;
        let v = &mut self.all[at].hook;
        proof {
            let after = before.update(at as int, Hook { hook: *final(v), ..before[at as int] });
            assert(hook_views(after) =~= hook_views(before).update(
                at as int,
                HookView { hook: *final(v), ..hook_views(before)[at as int] },
            ));
        }
        v
    }

    /// The payload of the hook of identity `identity` with the number `nth`
    /// among the hooks of that identity, counted from 0, to be changed in
    /// place.
    pub fn nth_mut(&mut self, identity: u64, nth: usize) -> (r: Option<&mut Value>)
        ensures
            final(self).attempted() == old(self).attempted(),
            match r {
                Some(v) => {
                    let found = places(identity_marks(old(self).hooks(), identity));
                    &&& nth < found.len()
                    &&& 0 <= found[nth as int] < old(self).hooks().len()
                    &&& *v == old(self).hooks()[found[nth as int]].hook
                    &&& final(self).hooks() == old(self).hooks().update(
                        found[nth as int],
                        HookView { hook: *final(v), ..old(self).hooks()[found[nth as int]] },
                    )
                },
                None => {
                    &&& nth >= places(identity_marks(old(self).hooks(), identity)).len()
                    &&& final(self).hooks() == old(self).hooks()
                },
            },
    {
        let found = self.filter(identity);
        proof {
            lemma_places(identity_marks(self.hooks(), identity));
        }
        if nth < found.len() {
            let at = found[nth];
            assert(as_ints(found@)[nth as int] == at);
            Some(self.payload_mut(at))
        } else {
            None
        }
    }

    /// The places of the hooks that take part in liftoff, rising.
    pub fn liftoff(&self) -> (r: Vec<usize>)
        ensures
            as_ints(r@) == places(liftoff_marks(self.hooks())),
    {
        let ghost marks = liftoff_marks(self.hooks());
        let mut out: Vec<usize> = Vec::new();
        let mut i: usize = 0;
        while i < self.all.len()
            invariant
                i <= self.all@.len(),
                marks == liftoff_marks(self.hooks()),
                as_ints(out@) == places(marks.subrange(0, i as int)),
            decreases self.all.len() - i,
        {
            proof {
                let next = marks.subrange(0, i + 1);
                assert(next.drop_last() =~= marks.subrange(0, i as int));
                assert(as_ints(out@.push(i)) =~= as_ints(out@).push(i as int));
            }
            if self.all[i].info.kind.liftoff {
                out.push(i);
            }
            i = i + 1;
        }
        assert(marks.subrange(0, i as int) =~= marks);
        out
    }

    /// The places of the hooks that take part in shutdown, rising.
    pub fn shutdown(&self) -> (r: Vec<usize>)
        ensures
            as_ints(r@) == places(shutdown_marks(self.hooks())),
    {
        let ghost marks = shutdown_marks(self.hooks());
        let mut out: Vec<usize> = Vec::new();
        let mut i: usize = 0;
        while i < self.all.len()
            invariant
                i <= self.all@.len(),
                marks == shutdown_marks(self.hooks()),
                as_ints(out@) == places(marks.subrange(0, i as int)),
            decreases self.all.len() - i,
        {
            proof {
                let next = marks.subrange(0, i + 1);
                assert(next.drop_last() =~= marks.subrange(0, i as int));
                assert(as_ints(out@.push(i)) =~= as_ints(out@).push(i as int));
            }
            if self.all[i].info.kind.shutdown {
                out.push(i);
            }
            i = i + 1;
        }
        assert(marks.subrange(0, i as int) =~= marks);
        out
    }

    /// The places of the hooks of identity `identity`, rising.
    pub fn filter(&self, identity: u64) -> (r: Vec<usize>)
        ensures
            as_ints(r@) == places(identity_marks(self.hooks(), identity)),
    {
        let ghost marks = identity_marks(self.hooks(), identity);
        let mut out: Vec<usize> = Vec::new();
        let mut i: usize = 0;
        while i < self.all.len()
            invariant
                i <= self.all@.len(),
                marks == identity_marks(self.hooks(), identity),
                as_ints(out@) == places(marks.subrange(0, i as int)),
            decreases self.all.len() - i,
        {
            proof {
                let next = marks.subrange(0, i + 1);
                assert(next.drop_last() =~= marks.subrange(0, i as int));
                assert(as_ints(out@.push(i)) =~= as_ints(out@).push(i as int));
            }
            if self.all[i].info.identity == identity {
                out.push(i);
            }
            i = i + 1;
        }
        assert(marks.subrange(0, i as int) =~= marks);
        out
    }

    /// Every pair of conflicting hooks.
    pub fn audit(&self) -> (r: Result<(), Vec<(Info, Info)>>)
        ensures
            r is Ok <==> conflicts(self.hooks()).len() == 0,
            r matches Err(pairs) ==> info_pair_views(pairs@) == conflicts(self.hooks()),
    {
        let ghost hooks = self.hooks();
        let ghost hit = hooks_hit(hooks);
        let n = self.all.len();
        let mut found: Vec<(Info, Info)> = Vec::new();
        let mut i: usize = 0;
        while i < n
            invariant
                i <= n == self.all@.len(),
                hooks == self.hooks(),
                hit == hooks_hit(hooks),
                found@.len() == pairs_below(hit, i as int, n as int).len(),
                forall|k: int|
                    0 <= k < found@.len() ==> ({
                        let p = pairs_below(hit, i as int, n as int)[k];
                        (#[trigger] found@[k]).0@ == hooks[p.0].info && found@[k].1@
                            == hooks[p.1].info
                    }),
            decreases n - i,
        {
            let ghost head = pairs_below(hit, i as int, n as int);
            let mut j: usize = i + 1;
            while j < n
                invariant
                    i < j <= n == self.all@.len(),
                    hooks == self.hooks(),
                    hit == hooks_hit(hooks),
                    head == pairs_below(hit, i as int, n as int),
                    found@.len() == (head + pairs_in_row(hit, i as int, j as int)).len(),
                    forall|k: int|
                        0 <= k < found@.len() ==> ({
                            let p = (head + pairs_in_row(hit, i as int, j as int))[k];
                            (#[trigger] found@[k]).0@ == hooks[p.0].info && found@[k].1@
                                == hooks[p.1].info
                        }),
                decreases n - j,
            {
                let a = &self.all[i].info;
                let b = &self.all[j].info;
                if !a.kind.singleton && !b.kind.singleton && a.name == b.name && a.kind != b.kind {
                    found.push((a.clone(), b.clone()));
                }
                j = j + 1;
            }
            i = i + 1;
        }
        assert(info_pair_views(found@) =~= conflicts(hooks));
        if found.len() == 0 {
            Ok(())
        } else {
            Err(found)
        }
    }
}

/// Two hooks at different places that conflict are reported as a pair, the
/// earlier one first.
pub proof fn lemma_conflicting_hooks_are_reported(hooks: Seq<HookView>, i: int, j: int)
    requires
        0 <= i < j < hooks.len(),
        conflicting(hooks[i].info, hooks[j].info),
    ensures
        conflicts(hooks).contains((hooks[i].info, hooks[j].info)),
{
    let hit = hooks_hit(hooks);
    let pairs = pairs_below(hit, hooks.len() as int, hooks.len() as int);
    lemma_pairs_below(hit, hooks.len() as int, hooks.len() as int);
    assert(hit(i, j));
    assert(pairs.contains((i, j)));
    let k = choose|k: int| 0 <= k < pairs.len() && pairs[k] == (i, j);
    assert(conflicts(hooks)[k] == (hooks[i].info, hooks[j].info));
}

/// The hooks of ignition are handed out one by one in the order of
/// attachment, each once: the hook that is handed out is the first that is
/// pending, after it is handed out it is pending no more, and the next one
/// stands behind it.
pub proof fn lemma_hooks_run_in_attach_order(hooks: Seq<HookView>, at: int)
    requires
        next_pending(hooks) == Some(at),
    ensures
        0 <= at < hooks.len(),
        hooks[at].pending(),
        forall|k: int| 0 <= k < at ==> !(#[trigger] hooks[k]).pending(),
        handed_out(hooks, at).len() == hooks.len(),
        !handed_out(hooks, at)[at].pending(),
        forall|k: int| 0 <= k < hooks.len() && k != at ==> handed_out(hooks, at)[k] == hooks[k],
        next_pending(handed_out(hooks, at)) matches Some(next) ==> at < next,
{
    lemma_first_pending(hooks, 0);
    lemma_first_pending(handed_out(hooks, at), 0);
    let next = first_pending(handed_out(hooks, at), 0);
    if next < at {
        assert(handed_out(hooks, at)[next].pending());
        assert(hooks[next].pending());
    }
}

/// Attaching two singleton hooks of one identity, one after the other,
/// leaves exactly one hook of that identity in the pipeline: the second, at
/// the end.
pub proof fn lemma_singleton_replaces(hooks: Seq<HookView>, first: HookView, second: HookView)
    requires
        first.info.kind.singleton,
        second.info.kind.singleton,
        first.info.identity == second.info.identity,
    ensures
        ({
            let after = attached(attached(hooks, first), second);
            &&& after.len() > 0
            &&& after.last() == second
            &&& forall|i: int|
                0 <= i < after.len() - 1 ==> (#[trigger] after[i]).info.identity
                    != second.info.identity
            &&& after == attached(hooks, second)
        }),
{
    let identity = second.info.identity;
    let once = attached(hooks, first);
    assert(once.drop_last() =~= without(hooks, identity));
    lemma_without(hooks, identity);
    lemma_without_twice(hooks, identity);
}

/// A non-singleton hook joins the end and leaves the other hooks as they
/// are.
pub proof fn lemma_plain_hook_accumulates(hooks: Seq<HookView>, hook: HookView)
    requires
        !hook.info.kind.singleton,
    ensures
        attached(hooks, hook) == hooks.push(hook),
{
}

/// `without` leaves no hook of the identity, and leaves a pipeline that
/// holds none as it is.
pub proof fn lemma_without(hooks: Seq<HookView>, identity: u64)
    ensures
        forall|i: int|
            0 <= i < without(hooks, identity).len() ==> (#[trigger] without(
                hooks,
                identity,
            )[i]).info.identity != identity,
        without(hooks, identity).len() <= hooks.len(),
        (forall|i: int| 0 <= i < hooks.len() ==> (#[trigger] hooks[i]).info.identity != identity)
            ==> without(hooks, identity) == hooks,
    decreases hooks.len(),
{
    if hooks.len() > 0 {
        lemma_without(hooks.drop_last(), identity);
        if forall|i: int| 0 <= i < hooks.len() ==> (#[trigger] hooks[i]).info.identity != identity {
            assert forall|i: int| 0 <= i < hooks.drop_last().len() implies (
            #[trigger] hooks.drop_last()[i]).info.identity != identity by {
                assert(hooks[i].info.identity != identity);
            }
            assert(hooks.drop_last().push(hooks.last()) =~= hooks);
        }
    }
}

proof fn lemma_without_twice(hooks: Seq<HookView>, identity: u64)
    ensures
        without(without(hooks, identity), identity) == without(hooks, identity),
{
    lemma_without(hooks, identity);
    lemma_without(without(hooks, identity), identity);
}

} // verus!
