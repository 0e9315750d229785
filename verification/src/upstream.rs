//! The three upstream service pools, each a consistent-hash store of
//! connected instances, swapped wholesale on every refresh.

use vstd::prelude::*;

use crate::registry::store::{records_of, ConsistHashStore, ServiceData, Store};

verus! {

/// A backend service this node routes requests to.
#[derive(Debug, Clone, Copy, PartialEq, Eq, Structural)]
pub enum Service {
    UserService,
    ChannelService,
    MessageService,
}

impl Service {
    /// The logical name the service is discovered under.
    pub fn to_string(&self) -> (r: String)
        ensures
            *self == Service::UserService ==> r@ == "user-service"@,
            *self == Service::ChannelService ==> r@ == "channel-service"@,
            *self == Service::MessageService ==> r@ == "message-service"@,
    {
        match self {
            Service::UserService => String::from_str("user-service"),
            Service::ChannelService => String::from_str("channel-service"),
            Service::MessageService => String::from_str("message-service"),
        }
    }
}

/// One pool per upstream service, generic in the connection type attached
/// to each instance.
pub struct UpstreamRouter<C> {
    user_store: ConsistHashStore<C>,
    channel_store: ConsistHashStore<C>,
    message_store: ConsistHashStore<C>,
}

impl<C> UpstreamRouter<C> {
    /// The records currently held for one service, keyed by instance id.
    pub closed spec fn service_records(&self, s: Service) -> Map<
        Seq<char>,
        ServiceData<C>,
    > {
        match s {
            Service::UserService => self.user_store.records(),
            Service::ChannelService => self.channel_store.records(),
            Service::MessageService => self.message_store.records(),
        }
    }

    pub closed spec fn inv(&self) -> bool {
        &&& self.user_store.inv()
        &&& self.channel_store.inv()
        &&& self.message_store.inv()
    }

    /// Three empty pools placing `replicas` virtual nodes per instance.
    pub fn new(replicas: usize) -> (r: Self)
        requires
            replicas >= 1,
        ensures
            r.inv(),
            forall|s: Service| r.service_records(s) === Map::empty(),
    {
        Self {
            user_store: ConsistHashStore::new(replicas),
            channel_store: ConsistHashStore::new(replicas),
            message_store: ConsistHashStore::new(replicas),
        }
    }

    /// Replaces one service's pool with a freshly connected batch; the
    /// other pools are untouched. Instances that failed to connect are
    /// simply absent from the batch, so the pool shrinks until the next
    /// successful refresh.
    pub fn update_service_list(&mut self, service: &Service, datas: Vec<ServiceData<C>>)
        requires
            old(self).inv(),
        ensures
            final(self).inv(),
            final(self).service_records(*service) == records_of(datas@),
            forall|s: Service|
                s != *service ==> final(self).service_records(s) == old(self).service_records(s),
    {
        match service {
            Service::UserService => self.user_store.update(datas),
            Service::ChannelService => self.channel_store.update(datas),
            Service::MessageService => self.message_store.update(datas),
        }
    }

    /// Selects the instance of `service` that serves `key`: one of the held
    /// records, and none exactly when the pool is empty.
    pub fn pick_service(&self, service: &Service, key: &str) -> (r: Option<&ServiceData<C>>)
        requires
            self.inv(),
        ensures
            r is Some <==> self.service_records(*service).len() != 0,
            r matches Some(d) ==> self.service_records(*service).contains_key(d.spec_id())
                && self.service_records(*service)[d.spec_id()] == *d,
    {
        match service {
            Service::UserService => self.user_store.pick(key),
            Service::ChannelService => self.channel_store.pick(key),
            Service::MessageService => self.message_store.pick(key),
        }
    }
}

} // verus!
