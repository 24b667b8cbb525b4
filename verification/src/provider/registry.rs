//! The models that can be asked, by identity.

use vstd::prelude::*;
use vstd::string::*;

use crate::engine::{ProviderInfo, ProviderInfoView};
use crate::provider::{joined, LlmError, ProviderId};
use crate::table::{lookup, put, Held, KeyView, Table};
use crate::tool::registry::{name_key, named};

verus! {

broadcast use vstd::string::group_string_axioms;

/// Why a model was not registered.
#[derive(Debug, PartialEq, Eq)]
pub enum ProviderRegistryError {
    /// One of its identity is registered.
    AlreadyExists(String),
}

impl ProviderRegistryError {
    /// The error in words.
    pub fn message(&self) -> (r: String)
        ensures
            r@ == (match *self {
                ProviderRegistryError::AlreadyExists(id) => "provider already registered: "@
                    + id@,
            }),
    {
        match self {
            ProviderRegistryError::AlreadyExists(id) => {
                joined("provider already registered: ", id.as_str())
            },
        }
    }
}

/// How a model is.
#[derive(Debug)]
pub struct ProviderStatus {
    pub id: ProviderId,
    pub healthy: bool,
    pub error: Option<String>,
}

pub struct ProviderStatusView {
    pub id: Seq<char>,
    pub healthy: bool,
    pub error: Option<Seq<char>>,
}

impl DeepView for ProviderStatus {
    type V = ProviderStatusView;

    open spec fn deep_view(&self) -> ProviderStatusView {
        ProviderStatusView {
            id: self.id.deep_view(),
            healthy: self.healthy,
            error: self.error.deep_view(),
        }
    }
}

/// How the probe of a model ended.
#[derive(Debug)]
pub enum Probe {
    Answered,
    Failed(LlmError),
    TimedOut,
    /// The probe itself broke down, for a reason.
    BrokeDown(String),
}

/// What a probe says of a model.
pub open spec fn health(id: Seq<char>, probe: Probe) -> ProviderStatusView {
    match probe {
        Probe::Answered => ProviderStatusView { id, healthy: true, error: None },
        Probe::Failed(e) => ProviderStatusView {
            id,
            healthy: false,
            error: Some(e.deep_view().message()),
        },
        Probe::TimedOut => ProviderStatusView {
            id,
            healthy: false,
            error: Some("health check timeout"@),
        },
        Probe::BrokeDown(reason) => ProviderStatusView {
            id,
            healthy: false,
            error: Some("health check panicked: "@ + reason@),
        },
    }
}

/// What a probe says of a model.
pub fn status_of(id: ProviderId, probe: Probe) -> (r: ProviderStatus)
    ensures
        r.deep_view() == health(id.deep_view(), probe),
{
    match probe {
        Probe::Answered => ProviderStatus { id, healthy: true, error: None },
        Probe::Failed(e) => ProviderStatus { id, healthy: false, error: Some(e.message()) },
        Probe::TimedOut => ProviderStatus {
            id,
            healthy: false,
            error: Some("health check timeout".to_owned()),
        },
        Probe::BrokeDown(reason) => ProviderStatus {
            id,
            healthy: false,
            error: Some(joined("health check panicked: ", reason.as_str())),
        },
    }
}

impl Held for ProviderInfo {
    open spec fn sound(&self) -> bool {
        true
    }
}

/// The models that can be asked.
pub struct ProviderRegistry {
    providers: Table<ProviderInfo>,
}

impl DeepView for ProviderRegistry {
    type V = Seq<(KeyView, ProviderInfoView)>;

    closed spec fn deep_view(&self) -> Seq<(KeyView, ProviderInfoView)> {
        self.providers.deep_view()
    }
}

impl ProviderRegistry {
    pub closed spec fn wf(self) -> bool {
        self.providers.wf()
    }

    pub fn new() -> (r: ProviderRegistry)
        ensures
            r.wf(),
            r.deep_view() == Seq::<(KeyView, ProviderInfoView)>::empty(),
    {
        ProviderRegistry { providers: Table::new() }
    }

    /// Registers a model, unless one of its identity is registered.
    pub fn register(&mut self, provider: ProviderInfo) -> (r: Result<(), ProviderRegistryError>)
        requires
            old(self).wf(),
        ensures
            final(self).wf(),
            r is Err <==> lookup(old(self).deep_view(), named(provider.id.deep_view())) is Some,
            r matches Err(e) ==> (e matches ProviderRegistryError::AlreadyExists(id) && id@
                == provider.id.deep_view()) && final(self).deep_view() == old(self).deep_view(),
            r is Ok ==> final(self).deep_view() == put(
                old(self).deep_view(),
                named(provider.id.deep_view()),
                provider.deep_view(),
            ),
    {
        let key = name_key(provider.id.as_str());
        if self.providers.place(&key).is_some() {
            return Err(ProviderRegistryError::AlreadyExists(provider.id.as_str().to_owned()));
        }
        self.providers.insert(key, provider);
        Ok(())
    }

    /// The model of an identity.
    pub fn get(&self, id: &ProviderId) -> (r: Option<&ProviderInfo>)
        requires
            self.wf(),
        ensures
            r is Some <==> lookup(self.deep_view(), named(id.deep_view())) is Some,
            r matches Some(p) ==> lookup(self.deep_view(), named(id.deep_view())) == Some(
                p.deep_view(),
            ),
    {
        self.providers.get(&name_key(id.as_str()))
    }

    /// The identities of all models.
    pub fn list(&self) -> (r: Vec<ProviderId>)
        ensures
            r.deep_view() == self.deep_view().map_values(|e: (KeyView, ProviderInfoView)| e.0.0),
    {
        let ghost wanted = self.deep_view().map_values(|e: (KeyView, ProviderInfoView)| e.0.0);
        let mut out: Vec<ProviderId> = Vec::new();
        let mut i: usize = 0;
        proof {
            assert(out.deep_view() =~= wanted.take(0));
        }
        while i < self.providers.len()
            invariant
                i <= self.providers.deep_view().len(),
                wanted == self.providers.deep_view().map_values(
                    |e: (KeyView, ProviderInfoView)| e.0.0,
                ),
                out.deep_view() == wanted.take(i as int),
            decreases self.providers.deep_view().len() - i,
        {
            let ghost before = out.deep_view();
            let id = ProviderId::new(self.providers.key_at(i).0.as_str());
            out.push(id);
            proof {
                assert(out.deep_view() =~= before.push(id.deep_view()));
                assert(wanted.take(i + 1) =~= wanted.take(i as int).push(wanted[i as int]));
            }
            i = i + 1;
        }
        proof {
            assert(wanted.take(wanted.len() as int) =~= wanted);
        }
        out
    }

    pub fn len(&self) -> (r: usize)
        ensures
            r == self.deep_view().len(),
    {
        self.providers.len()
    }

    pub fn is_empty(&self) -> (r: bool)
        ensures
            r == (self.deep_view().len() == 0),
    {
        self.providers.len() == 0
    }

    /// How the models are, by the probe of each, in the order in which they are listed.
    pub fn health_check_all(&self, probes: Vec<Probe>) -> (r: Vec<ProviderStatus>)
        requires
            probes@.len() == self.deep_view().len(),
        ensures
            r.deep_view() == statuses(self.deep_view(), probes@),
    {
        let ghost items = self.deep_view();
        let ghost all = probes@;
        let mut rest = probes;
        let mut out: Vec<ProviderStatus> = Vec::new();
        let mut i: usize = 0;
        proof {
            assert(out.deep_view() =~= statuses(items, all).take(0));
            assert(all.skip(0) =~= all);
        }
        while i < self.providers.len()
            invariant
                items == self.providers.deep_view(),
                i <= items.len(),
                items.len() == all.len(),
                rest@ == all.skip(i as int),
                out.deep_view() == statuses(items, all).take(i as int),
            decreases items.len() - i,
        {
            let ghost before = out.deep_view();
            let probe = rest.remove(0);
            let id = ProviderId::new(self.providers.key_at(i).0.as_str());
            let s = status_of(id, probe);
            out.push(s);
            proof {
                assert(probe == all[i as int]);
                assert(rest@ =~= all.skip(i + 1));
                assert(out.deep_view() =~= before.push(s.deep_view()));
                assert(statuses(items, all).take(i + 1) =~= statuses(items, all).take(
                    i as int,
                ).push(statuses(items, all)[i as int]));
            }
            i = i + 1;
        }
        proof {
            assert(statuses(items, all).take(items.len() as int) =~= statuses(items, all));
        }
        out
    }
}

/// How models are, by the probe of each.
pub open spec fn statuses(
    items: Seq<(KeyView, ProviderInfoView)>,
    probes: Seq<Probe>,
) -> Seq<ProviderStatusView> {
    Seq::new(items.len(), |i: int| health(items[i].0.0, probes[i]))
}

/// Every model has a status, and one that is not healthy has a reason.
pub proof fn law_every_model_has_a_status(
    items: Seq<(KeyView, ProviderInfoView)>,
    probes: Seq<Probe>,
    i: int,
)
    requires
        items.len() == probes.len(),
        0 <= i < items.len(),
    ensures
        statuses(items, probes).len() == items.len(),
        statuses(items, probes)[i].id == items[i].0.0,
        statuses(items, probes)[i].healthy <==> probes[i] is Answered,
        statuses(items, probes)[i].error is Some <==> !statuses(items, probes)[i].healthy,
{
}

/// A model that was registered is found under its identity, and registering it
/// changes no other.
pub proof fn law_registered(
    items: Seq<(KeyView, ProviderInfoView)>,
    p: ProviderInfoView,
    other: Seq<char>,
)
    ensures
        lookup(put(items, named(p.id), p), named(other)) == (if other == p.id {
            Some(p)
        } else {
            lookup(items, named(other))
        }),
{
    crate::table::law_lookup_put(items, named(p.id), p, named(other));
}

/// What a probe says of a model: that it is well, or why it is not.
pub proof fn law_probes(id: Seq<char>, e: LlmError, why: String)
    ensures
        health(id, Probe::Answered) == (ProviderStatusView { id, healthy: true, error: None }),
        health(id, Probe::Failed(e)) == (ProviderStatusView {
            id,
            healthy: false,
            error: Some(e.deep_view().message()),
        }),
        health(id, Probe::TimedOut) == (ProviderStatusView {
            id,
            healthy: false,
            error: Some("health check timeout"@),
        }),
        health(id, Probe::BrokeDown(why)) == (ProviderStatusView {
            id,
            healthy: false,
            error: Some("health check panicked: "@ + why@),
        }),
{
}

} // verus!
