use vstd::prelude::*;
use crate::shell::config::{names_adapter, AdapterCache, AdapterCacheView, AdapterInfo};

verus! {

/// Whether one of the denied entries names the adapter `info` describes.
pub open spec fn denied(deny: Seq<AdapterCache>, info: AdapterInfo) -> bool {
    exists|k: int| 0 <= k < deny.len() && names_adapter(#[trigger] deny[k]@, info)
}

/// Whether the adapter `info` describes may be taken for the cached entry: it is the
/// cached adapter and it is not denied.
pub open spec fn eligible(info: AdapterInfo, cache: AdapterCacheView, deny: Seq<AdapterCache>) -> bool {
    !denied(deny, info) && names_adapter(cache, info)
}

/// Law: an adapter that any entry of the deny list names, wherever it stands in the list,
/// is never eligible, whatever the cached entry.
pub proof fn denied_adapters_are_never_eligible(
    deny: Seq<AdapterCache>,
    info: AdapterInfo,
    cache: AdapterCacheView,
    k: int,
)
    requires
        0 <= k < deny.len(),
        names_adapter(deny[k]@, info),
    ensures
        !eligible(info, cache, deny),
{
}

/// Law: an adapter is eligible exactly when it is the cached one (same name and backend)
/// and no entry of the deny list names it.
pub proof fn eligible_exactly_when_cached_and_not_denied(
    deny: Seq<AdapterCache>,
    info: AdapterInfo,
    cache: AdapterCacheView,
)
    ensures
        eligible(info, cache, deny) <==> (cache.name == info.name@ && cache.backend == info.backend
            && forall|k: int|
            0 <= k < deny.len() ==> !(#[trigger] deny[k]@.name == info.name@ && deny[k]@.backend
                == info.backend)),
{
}

fn is_denied(deny: &Vec<AdapterCache>, info: &AdapterInfo) -> (r: bool)
    ensures
        r == denied(deny@, *info),
{
    let mut k: usize = 0;
    while k < deny.len()
        invariant
            k <= deny.len(),
            forall|j: int| 0 <= j < k ==> !names_adapter(#[trigger] deny@[j]@, *info),
        decreases deny.len() - k,
    {
        if deny[k].is_matched(info) {
            return true;
        }
        k = k + 1;
    }
    false
}

/// The position of the first adapter that is the cached one and is not denied.
pub fn find_adapter(infos: &Vec<AdapterInfo>, cache: &AdapterCache, deny: &Vec<AdapterCache>) -> (r:
    Option<usize>)
    ensures
        r matches Some(i) ==> i < infos.len() && eligible(infos@[i as int], cache@, deny@) && forall|
            j: int,
        | 0 <= j < i ==> !eligible(#[trigger] infos@[j], cache@, deny@),
        r is None ==> forall|j: int|
            0 <= j < infos.len() ==> !eligible(#[trigger] infos@[j], cache@, deny@),
{
    let mut i: usize = 0;
    while i < infos.len()
        invariant
            i <= infos.len(),
            forall|j: int| 0 <= j < i ==> !eligible(#[trigger] infos@[j], cache@, deny@),
        decreases infos.len() - i,
    {
        let info = &infos[i];
        if !is_denied(deny, info) && cache.is_matched(info) {
            return Some(i);
        }
        i = i + 1;
    }
    None
}

/// Where the adapter comes from.
#[derive(Copy, Clone, Debug, PartialEq, Eq, Structural)]
pub enum AdapterPlan {
    /// The listed adapter at this position is the cached one.
    Cached(usize),
    /// Ask for the preferred adapter; `warn` tells that a cached adapter was not found.
    Fallback { warn: bool },
}

/// Chooses the adapter: the cached one when it is listed and not denied, otherwise the
/// preferred one, with a warning when a cached adapter was given but not found.
///
/// `infos` lists the available adapters; it is only read when a cached adapter is given.
pub fn choose_adapter(
    cache: &Option<AdapterCache>,
    infos: &Vec<AdapterInfo>,
    deny: &Vec<AdapterCache>,
) -> (r: AdapterPlan)
    ensures
        cache is None ==> r == (AdapterPlan::Fallback { warn: false }),
        cache matches Some(c) ==> match r {
            AdapterPlan::Cached(i) => i < infos.len() && eligible(infos@[i as int], c@, deny@)
                && forall|j: int| 0 <= j < i ==> !eligible(#[trigger] infos@[j], c@, deny@),
            AdapterPlan::Fallback { warn } => warn && forall|j: int|
                0 <= j < infos.len() ==> !eligible(#[trigger] infos@[j], c@, deny@),
        },
        forall|k: int, i: int|
            0 <= k < deny.len() && 0 <= i < infos.len() && names_adapter(
                #[trigger] deny@[k]@,
                #[trigger] infos@[i],
            ) ==> r != AdapterPlan::Cached(i as usize),
{
    match cache {
        Some(c) => match find_adapter(infos, c, deny) {
            Some(i) => AdapterPlan::Cached(i),
            None => AdapterPlan::Fallback { warn: true },
        },
        None => AdapterPlan::Fallback { warn: false },
    }
}

/// The stage at which an adapter was given up.
#[derive(Copy, Clone, Debug, PartialEq, Eq, Structural)]
pub enum FailedStage {
    Device,
    Surface,
}

/// The message recorded for an adapter given up at `stage`, with the error's text.
pub open spec fn failure_message(stage: FailedStage, detail: Seq<char>) -> Seq<char> {
    match stage {
        FailedStage::Device => "failed to init device: "@ + detail,
        FailedStage::Surface => "failed to init surface: "@ + detail,
    }
}

/// How one attempt to build the context on an adapter ended.
#[derive(Debug)]
pub enum Attempt {
    /// No adapter was left to try.
    NoAdapter,
    /// The adapter `info` describes failed at `stage`, with the error text.
    Failed(AdapterInfo, FailedStage, String),
    /// The device and the surface were made.
    Ready,
}

/// What building the context does after an attempt.
#[derive(Copy, Clone, Debug, PartialEq, Eq, Structural)]
pub enum Next {
    /// Building fails: no adapter is available.
    GiveUp,
    /// Another adapter is tried.
    TryAnother,
    /// The context is built.
    Finish,
}

/// An adapter that was given up while the context was built, and why.
#[derive(Debug)]
pub struct AdapterError {
    pub adapter: AdapterCache,
    pub message: String,
}

/// What happened while the context was built.
#[derive(Debug)]
pub struct Report {
    pub adapter_errors: Vec<AdapterError>,
}

/// The adapters given up so far while building a context, with the reason for each.
pub struct Trials {
    deny: Vec<AdapterCache>,
    errors: Vec<String>,
}

impl Trials {
    /// Each adapter given up has exactly one reason.
    pub closed spec fn wf(self) -> bool {
        self.deny.len() == self.errors.len()
    }

    /// The adapters given up, in order.
    pub closed spec fn spec_deny(self) -> Seq<AdapterCache> {
        self.deny@
    }

    /// The reason for each adapter given up, in the same order.
    pub closed spec fn spec_errors(self) -> Seq<String> {
        self.errors@
    }

    /// No adapter given up yet.
    pub fn new() -> (r: Self)
        ensures
            r.wf(),
            r.spec_deny().len() == 0,
            r.spec_errors().len() == 0,
    {
        Trials { deny: Vec::new(), errors: Vec::new() }
    }

    /// The adapters given up so far.
    pub fn deny(&self) -> (r: &Vec<AdapterCache>)
        ensures
            r@ == self.spec_deny(),
    {
        &self.deny
    }

    /// Gives up the adapter `info` describes, failed at `stage` with the error text `detail`.
    pub fn reject(&mut self, info: &AdapterInfo, stage: FailedStage, detail: &str)
        requires
            old(self).wf(),
        ensures
            final(self).wf(),
            final(self).spec_deny().len() == old(self).spec_deny().len() + 1,
            final(self).spec_deny().drop_last() == old(self).spec_deny(),
            final(self).spec_deny().last()@ == (AdapterCacheView {
                name: info.name@,
                backend: info.backend,
            }),
            final(self).spec_errors().len() == old(self).spec_errors().len() + 1,
            final(self).spec_errors().drop_last() == old(self).spec_errors(),
            final(self).spec_errors().last()@ == failure_message(stage, detail@),
    {
        let prefix = match stage {
            FailedStage::Device => "failed to init device: ",
            FailedStage::Surface => "failed to init surface: ",
        };
        let mut message = String::from_str(prefix);
        message.append(detail);
        self.deny.push(AdapterCache::of(info));
        self.errors.push(message);
        assert(self.deny@.drop_last() =~= old(self).deny@);
        assert(self.errors@.drop_last() =~= old(self).errors@);
    }

    /// Records how an attempt ended and says what comes next: with no adapter left the
    /// building fails; an adapter whose device or surface could not be made is given up,
    /// with the reason, and another is tried; otherwise the building is done.
    pub fn settle(&mut self, attempt: Attempt) -> (r: Next)
        requires
            old(self).wf(),
        ensures
            final(self).wf(),
            match attempt {
                Attempt::NoAdapter => r == Next::GiveUp && *final(self) == *old(self),
                Attempt::Ready => r == Next::Finish && *final(self) == *old(self),
                Attempt::Failed(info, stage, detail) => {
                    &&& r == Next::TryAnother
                    &&& final(self).spec_deny().drop_last() == old(self).spec_deny()
                    &&& final(self).spec_deny().len() == old(self).spec_deny().len() + 1
                    &&& final(self).spec_deny().last()@ == (AdapterCacheView {
                        name: info.name@,
                        backend: info.backend,
                    })
                    &&& final(self).spec_errors().drop_last() == old(self).spec_errors()
                    &&& final(self).spec_errors().len() == old(self).spec_errors().len() + 1
                    &&& final(self).spec_errors().last()@ == failure_message(stage, detail@)
                },
            },
    {
        match attempt {
            Attempt::NoAdapter => Next::GiveUp,
            Attempt::Ready => Next::Finish,
            Attempt::Failed(info, stage, detail) => {
                self.reject(&info, stage, detail.as_str());
                Next::TryAnother
            },
        }
    }

    /// The report of the adapters given up: the `i`-th error pairs the `i`-th adapter
    /// given up with its reason.
    pub fn into_report(self) -> (r: Report)
        requires
            self.wf(),
        ensures
            r.adapter_errors.len() == self.spec_deny().len(),
            forall|i: int|
                0 <= i < r.adapter_errors.len() ==> (#[trigger] r.adapter_errors@[i]).adapter@
                    == self.spec_deny()[i]@ && r.adapter_errors@[i].message
                    == self.spec_errors()[i],
    {
        let Trials { deny, errors } = self;
        let mut deny = deny;
        let mut errors = errors;
        let ghost d = deny@;
        let ghost e = errors@;
        let mut rev: Vec<AdapterError> = Vec::new();
        while deny.len() > 0
            invariant
                deny.len() == errors.len(),
                deny.len() + rev.len() == d.len(),
                d.len() == e.len(),
                deny@ == d.take(deny.len() as int),
                errors@ == e.take(errors.len() as int),
                forall|k: int|
                    0 <= k < rev.len() ==> (#[trigger] rev@[k]).adapter@ == d[d.len() - 1 - k]@
                        && rev@[k].message == e[e.len() - 1 - k],
            decreases deny.len(),
        {
            let adapter = deny.pop().unwrap();
            let message = errors.pop().unwrap();
            rev.push(AdapterError { adapter, message });
            assert(deny@ =~= d.take(deny.len() as int));
            assert(errors@ =~= e.take(errors.len() as int));
        }
        let mut adapter_errors: Vec<AdapterError> = Vec::new();
        while rev.len() > 0
            invariant
                adapter_errors.len() + rev.len() == d.len(),
                d.len() == e.len(),
                forall|k: int|
                    0 <= k < rev.len() ==> (#[trigger] rev@[k]).adapter@ == d[d.len() - 1 - k]@
                        && rev@[k].message == e[e.len() - 1 - k],
                forall|k: int|
                    0 <= k < adapter_errors.len() ==> (#[trigger] adapter_errors@[k]).adapter@
                        == d[k]@ && adapter_errors@[k].message == e[k],
            decreases rev.len(),
        {
            let item = rev.pop().unwrap();
            adapter_errors.push(item);
        }
        Report { adapter_errors }
    }
}

} // verus!
