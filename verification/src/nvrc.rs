//! The state of the init: its settings, its daemons and the steps it has asked for.

use crate::action;
use crate::action::Action;
use crate::text;
use vstd::prelude::*;

verus! {

/// The init. Its methods add the steps that they call for to those that are
/// pending; whoever drives the init takes the pending steps and performs them.
#[derive(Debug)]
pub struct NVRC {
    /// Whether `nvidia-persistenced` keeps unified-memory mappings alive.
    pub uvm_persistence_mode: Option<bool>,
    /// Whether the DCGM daemons run.
    pub dcgm_enabled: Option<bool>,
    /// The GUID of the port that manages the NVLink fabric.
    pub port_guid: Option<String>,
    /// The names of the daemons that were started, in their order.
    pub daemons: Vec<String>,
    /// The steps that wait to be performed, in their order.
    pub pending: Vec<Action>,
}

impl NVRC {
    /// The names of the daemons, as texts.
    pub open spec fn daemons(self) -> Seq<Seq<char>> {
        text::texts(self.daemons@)
    }

    /// The pending steps, with their texts as sequences of characters.
    pub open spec fn pending(self) -> Seq<action::Step> {
        action::steps(self.pending@)
    }

    /// The GUID of the port, as text.
    pub open spec fn guid(self) -> Option<Seq<char>> {
        match self.port_guid {
            Some(guid) => Some(guid@),
            None => None,
        }
    }

    /// `self` has the settings of `before`.
    pub open spec fn same_settings(self, before: NVRC) -> bool {
        &&& self.uvm_persistence_mode == before.uvm_persistence_mode
        &&& self.dcgm_enabled == before.dcgm_enabled
        &&& self.port_guid == before.port_guid
    }

    /// `self` is `before` after it asked for `more` steps.
    pub open spec fn asked(self, before: NVRC, more: Seq<action::Step>) -> bool {
        &&& self.same_settings(before)
        &&& self.pending() == before.pending() + more
        &&& self.daemons() == before.daemons() + action::spawned(more)
    }

    /// `self` is `before` after its pending steps were taken, which are `steps`.
    pub open spec fn taken(self, before: NVRC, steps: Seq<action::Step>) -> bool {
        &&& self.same_settings(before)
        &&& steps == before.pending()
        &&& self.pending() == Seq::<action::Step>::empty()
        &&& self.daemons() == before.daemons()
    }

    /// What was asked for in two parts was asked for in one.
    pub proof fn lemma_asked(
        self,
        mid: NVRC,
        before: NVRC,
        a: Seq<action::Step>,
        b: Seq<action::Step>,
    )
        requires
            mid.asked(before, a),
            self.asked(mid, b),
        ensures
            self.asked(before, a + b),
    {
        action::lemma_spawned_append(a, b);
        assert(self.pending() == before.pending() + (a + b));
        assert(self.daemons() == before.daemons() + action::spawned(a + b));
    }

    /// Nothing asked for is nothing changed.
    pub proof fn lemma_asked_nothing(self)
        ensures
            self.asked(self, seq![]),
    {
        assert(self.pending() + Seq::<action::Step>::empty() == self.pending());
        assert(self.daemons() + Seq::<Seq<char>>::empty() == self.daemons());
    }

    /// Asks for one step that starts no daemon.
    pub fn request(&mut self, step: Action)
        requires
            !(step is Spawn),
        ensures
            final(self).asked(*old(self), seq![step@]),
    {
        self.pending.push(step);
        proof {
            action::lemma_spawned_one(step@);
            assert(self.pending() == old(self).pending() + seq![step@]);
            assert(self.daemons() == old(self).daemons() + action::spawned(seq![step@]));
        }
    }

    /// Asks for several steps that start no daemon.
    pub fn request_all(&mut self, steps: Vec<Action>)
        requires
            forall|i: int| 0 <= i < steps@.len() ==> !(#[trigger] steps@[i] is Spawn),
        ensures
            final(self).asked(*old(self), action::steps(steps@)),
    {
        let ghost more = action::steps(steps@);
        let mut steps = steps;
        self.pending.append(&mut steps);
        proof {
            action::lemma_spawned_none(more);
            assert(self.pending() == old(self).pending() + more);
            assert(self.daemons() == old(self).daemons() + action::spawned(more));
        }
    }

    /// Asks for a daemon to be started in the background, and tracks it.
    pub fn spawn(&mut self, name: &str, bin: &str, args: Vec<String>)
        ensures
            final(self).asked(
                *old(self),
                seq![action::Step::Spawn { name: name@, bin: bin@, args: text::texts(args@) }],
            ),
    {
        let step = Action::Spawn { name: name.to_owned(), bin: bin.to_owned(), args };
        self.pending.push(step);
        self.daemons.push(name.to_owned());
        proof {
            action::lemma_spawned_one(step@);
            assert(self.pending() == old(self).pending() + seq![step@]);
            assert(self.daemons() == old(self).daemons() + seq![name@]);
        }
    }

    /// Asks for a check of every daemon that was started so far.
    pub fn health_checks(&mut self)
        ensures
            final(self).asked(
                *old(self),
                seq![action::Step::HealthChecks(old(self).daemons())],
            ),
    {
        let names = self.daemon_names();
        self.request(Action::HealthChecks(names));
    }

    /// A health check after `ss` is one of all daemons.
    pub proof fn lemma_checked(self, mid: NVRC, before: NVRC, ss: Seq<action::Step>)
        requires
            mid.asked(before, ss),
            self.asked(mid, seq![action::Step::HealthChecks(mid.daemons())]),
        ensures
            self.asked(before, action::checked(before.daemons(), ss)),
    {
        let check = seq![action::Step::HealthChecks(mid.daemons())];
        self.lemma_asked(mid, before, ss, check);
        assert(ss + check == action::checked(before.daemons(), ss));
    }

    /// A copy of the names of the daemons.
    fn daemon_names(&self) -> (r: Vec<String>)
        ensures
            text::texts(r@) == self.daemons(),
    {
        let mut r: Vec<String> = Vec::new();
        for i in 0..self.daemons.len()
            invariant
                r@.len() == i,
                forall|j: int| 0 <= j < i ==> (#[trigger] r@[j])@ == self.daemons@[j]@,
        {
            r.push(self.daemons[i].clone());
        }
        assert(text::texts(r@) == self.daemons());
        r
    }

    /// Takes the pending steps, which are then no longer pending.
    pub fn take_actions(&mut self) -> (r: Vec<Action>)
        ensures
            final(self).taken(*old(self), action::steps(r@)),
            action::steps(r@) == old(self).pending(),
            final(self).pending@.len() == 0,
            final(self).daemons() == old(self).daemons(),
            final(self).same_settings(*old(self)),
    {
        let mut taken: Vec<Action> = Vec::new();
        std::mem::swap(&mut taken, &mut self.pending);
        assert(self.pending() == Seq::<action::Step>::empty());
        taken
    }
}

impl Default for NVRC {
    /// No setting, no daemon and no step.
    fn default() -> (r: Self)
        ensures
            r.uvm_persistence_mode is None,
            r.dcgm_enabled is None,
            r.port_guid is None,
            r.daemons() == Seq::<Seq<char>>::empty(),
            r.pending() == Seq::<action::Step>::empty(),
    {
        let r = NVRC {
            uvm_persistence_mode: None,
            dcgm_enabled: None,
            port_guid: None,
            daemons: Vec::new(),
            pending: Vec::new(),
        };
        assert(r.daemons() == Seq::<Seq<char>>::empty());
        assert(r.pending() == Seq::<action::Step>::empty());
        r
    }
}

/// What asking does, for any init and any steps: the pending steps from before stay
/// first, each new one is added behind them in its place, the settings stay, and the
/// daemons are those from before and the ones that the new steps start.
pub proof fn law_asking(before: NVRC, after: NVRC, more: Seq<action::Step>)
    requires
        after.asked(before, more),
    ensures
        after.pending@.len() == before.pending@.len() + more.len(),
        forall|i: int|
            0 <= i < before.pending@.len() ==> (#[trigger] after.pending@[i])@
                == before.pending@[i]@,
        forall|i: int|
            0 <= i < more.len() ==> (after.pending@[before.pending@.len() + i])@
                == #[trigger] more[i],
        after.uvm_persistence_mode == before.uvm_persistence_mode,
        after.dcgm_enabled == before.dcgm_enabled,
        after.port_guid == before.port_guid,
        after.daemons() == before.daemons() + action::spawned(more),
        before.daemons().len() == before.daemons@.len(),
        forall|i: int|
            0 <= i < before.daemons@.len() ==> #[trigger] before.daemons()[i]
                == before.daemons@[i]@,
{
    let all = before.pending() + more;
    assert(after.pending().len() == after.pending@.len());
    assert forall|i: int| 0 <= i < before.pending@.len() implies (#[trigger] after.pending@[i])@
        == before.pending@[i]@ by {
        assert(after.pending()[i] == all[i]);
        assert(all[i] == before.pending()[i]);
    }
    assert forall|i: int| 0 <= i < more.len() implies (after.pending@[before.pending@.len()
        + i])@ == #[trigger] more[i] by {
        assert(after.pending()[before.pending@.len() + i] == all[before.pending@.len() + i]);
    }
}

/// What taking does, for any init: every pending step is handed out, in order, none is
/// left, and the settings and the daemons stay.
pub proof fn law_taking(before: NVRC, after: NVRC, steps: Seq<action::Step>)
    requires
        after.taken(before, steps),
    ensures
        steps.len() == before.pending@.len(),
        forall|i: int| 0 <= i < steps.len() ==> #[trigger] steps[i] == before.pending@[i]@,
        after.pending@.len() == 0,
        after.uvm_persistence_mode == before.uvm_persistence_mode,
        after.dcgm_enabled == before.dcgm_enabled,
        after.port_guid == before.port_guid,
        after.daemons@.len() == before.daemons@.len(),
        forall|i: int|
            0 <= i < before.daemons@.len() ==> (#[trigger] after.daemons@[i])@
                == before.daemons@[i]@,
{
    assert(after.pending().len() == after.pending@.len());
    assert(after.daemons().len() == after.daemons@.len());
    assert(before.daemons().len() == before.daemons@.len());
    assert forall|i: int| 0 <= i < before.daemons@.len() implies (#[trigger] after.daemons@[i])@
        == before.daemons@[i]@ by {
        assert(after.daemons()[i] == before.daemons()[i]);
    }
}

/// The port of an init is known exactly if one was set, and is the one that was set.
pub proof fn law_known_port(init: NVRC)
    ensures
        init.guid() is Some <==> init.port_guid is Some,
        init.port_guid is Some ==> init.guid()->Some_0 == init.port_guid->Some_0@,
{
}

} // verus!
