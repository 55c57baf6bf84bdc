//! Giving a tenant its storage: create it, apply the schema, and only then
//! register the handle. The provisioning says what to do, the caller does it
//! and reports how it went. While it runs, the caller holds the lock that
//! guards the registry.
//!
//! A handle reaches the registry only over storage that has its schema: where
//! the schema cannot be applied, the handle is closed, the storage deleted, and
//! the tenant stays unregistered.

use crate::registry::Registry;
use crate::search::StoreFault;
use vstd::prelude::*;
use vstd::string::*;

verus! {

/// What the caller is asked to do next.
pub enum ProvisionAction<H> {
    /// Create the tenant's storage, empty, in place of whatever is left of an
    /// earlier one, and open a handle on it.
    Create,
    /// Apply the schema to the storage that was created.
    ApplySchema,
    /// Close this handle and delete the storage that it is open on.
    Discard(H),
}

/// How it went.
pub enum ProvisionReply<H> {
    /// The storage is created; this is the handle on it.
    Created(H),
    /// The request was carried out.
    Done,
    /// The request failed.
    Failed,
}

/// Which reply the provisioning waits on, and the handle that it holds.
pub enum ProvisionStage<H> {
    Creating,
    Applying(H),
    Discarding,
}

/// A provisioning in progress.
pub struct Provisioning<H> {
    id: String,
    stage: ProvisionStage<H>,
}

/// The state of a provisioning: the tenant that it is for, and its stage.
pub struct ProvisioningView<H> {
    pub id: Seq<char>,
    pub stage: ProvisionStage<H>,
}

impl<H> View for Provisioning<H> {
    type V = ProvisioningView<H>;

    closed spec fn view(&self) -> ProvisioningView<H> {
        ProvisioningView { id: self.id@, stage: self.stage }
    }
}

/// A provisioning after a step: in progress, with the next request, or over.
/// Where it is over and went well, the tenant is registered; the handle that
/// comes with `Ok`, if one does, is one that was not needed, for the caller to
/// close.
pub enum ProvisionStep<H> {
    Next(Provisioning<H>, ProvisionAction<H>),
    Done(Result<Option<H>, StoreFault>),
}

/// The view of a provisioning after a step.
pub enum ProvisionStepView<H> {
    Next(ProvisioningView<H>, ProvisionAction<H>),
    Done(Result<Option<H>, StoreFault>),
}

impl<H> View for ProvisionStep<H> {
    type V = ProvisionStepView<H>;

    open spec fn view(&self) -> ProvisionStepView<H> {
        match self {
            ProvisionStep::Next(provisioning, action) => ProvisionStepView::Next(
                provisioning@,
                *action,
            ),
            ProvisionStep::Done(result) => ProvisionStepView::Done(*result),
        }
    }
}

/// How the provisioning of tenant `id` starts: it is over at once where the
/// tenant is registered, and asks for storage else.
pub open spec fn start<H>(registered: Map<Seq<char>, H>, id: Seq<char>) -> ProvisionStepView<H> {
    if registered.contains_key(id) {
        ProvisionStepView::Done(Ok(None))
    } else {
        ProvisionStepView::Next(
            ProvisioningView { id, stage: ProvisionStage::Creating },
            ProvisionAction::Create,
        )
    }
}

impl<H> ProvisioningView<H> {
    /// What a provisioning does on a reply, and what the registry holds then.
    ///
    /// Once the storage is created, the schema is asked for. Once the schema is
    /// applied, the handle is registered, unless the tenant got a handle in the
    /// meantime: then the registry stays as it is and the handle comes back.
    /// Where the schema is not applied, the handle is given up with the
    /// storage, and the provisioning fails once that is done. Where the
    /// storage is not created, it fails at once.
    pub open spec fn step(self, reply: ProvisionReply<H>, registered: Map<Seq<char>, H>) -> (
        ProvisionStepView<H>,
        Map<Seq<char>, H>,
    ) {
        match (self.stage, reply) {
            (ProvisionStage::Creating, ProvisionReply::Created(handle)) => (
                ProvisionStepView::Next(
                    ProvisioningView { stage: ProvisionStage::Applying(handle), ..self },
                    ProvisionAction::ApplySchema,
                ),
                registered,
            ),
            (ProvisionStage::Applying(handle), ProvisionReply::Done) => {
                if registered.contains_key(self.id) {
                    (ProvisionStepView::Done(Ok(Some(handle))), registered)
                } else {
                    (ProvisionStepView::Done(Ok(None)), registered.insert(self.id, handle))
                }
            },
            (ProvisionStage::Applying(handle), _) => (
                ProvisionStepView::Next(
                    ProvisioningView { stage: ProvisionStage::Discarding, ..self },
                    ProvisionAction::Discard(handle),
                ),
                registered,
            ),
            _ => (ProvisionStepView::Done(Err(StoreFault {  })), registered),
        }
    }
}

/// A handle is registered only over storage that has its schema: a step
/// changes the registry only on the word that the schema is applied, and then
/// it adds the handle that came with the storage, under the tenant's id, and
/// nothing else.
pub proof fn lemma_registered_only_with_schema<H>(
    provisioning: ProvisioningView<H>,
    reply: ProvisionReply<H>,
    registered: Map<Seq<char>, H>,
)
    ensures
        provisioning.step(reply, registered).1 != registered ==> reply is Done
            && provisioning.stage is Applying && provisioning.step(reply, registered).1
            == registered.insert(provisioning.id, provisioning.stage->Applying_0),
        provisioning.step(reply, registered).0 matches ProvisionStepView::Done(Ok(_))
            ==> provisioning.step(reply, registered).1.contains_key(provisioning.id),
        provisioning.step(reply, registered).0 matches ProvisionStepView::Done(Err(_))
            ==> provisioning.step(reply, registered).1 == registered,
{
}

impl<H> Provisioning<H> {
    /// Starts the provisioning of tenant `id`.
    pub fn open(registry: &Registry<H>, id: &str) -> (r: ProvisionStep<H>)
        ensures
            r@ == start(registry@, id@),
    {
        if registry.is_registered(id) {
            ProvisionStep::Done(Ok(None))
        } else {
            ProvisionStep::Next(
                Provisioning { id: String::from_str(id), stage: ProvisionStage::Creating },
                ProvisionAction::Create,
            )
        }
    }

    /// Takes the reply to the open request, registers the handle where the
    /// storage is ready, and says what comes next.
    pub fn step(self, reply: ProvisionReply<H>, registry: &mut Registry<H>) -> (r: ProvisionStep<H>)
        ensures
            (r@, final(registry)@) == self@.step(reply, old(registry)@),
    {
        let Provisioning { id, stage } = self;
        match (stage, reply) {
            (ProvisionStage::Creating, ProvisionReply::Created(handle)) => {
                ProvisionStep::Next(
                    Provisioning { id, stage: ProvisionStage::Applying(handle) },
                    ProvisionAction::ApplySchema,
                )
            },
            (ProvisionStage::Applying(handle), ProvisionReply::Done) => {
                ProvisionStep::Done(Ok(registry.provision(id.as_str(), handle)))
            },
            (ProvisionStage::Applying(handle), _) => {
                ProvisionStep::Next(
                    Provisioning { id, stage: ProvisionStage::Discarding },
                    ProvisionAction::Discard(handle),
                )
            },
            _ => ProvisionStep::Done(Err(StoreFault {  })),
        }
    }
}

} // verus!
