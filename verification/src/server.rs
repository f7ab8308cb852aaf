//! The server's per-request dispatch: the observable behaviour of the cache.
//!
//! A PUT is insert-if-absent: the handler gates on prior existence and turns
//! an occupied key into `KeyExists`. Deletion of an absent key is
//! `KeyNotFound`. A flush empties the store. The current time arrives as an
//! argument, so the rules are specified for every clock value.

use vstd::prelude::*;
use crate::db::{spec_entry_expired, MainDB};
use crate::primitives::StatusCode;
use crate::request::Request;
use crate::response::{
    Response, ResponseBody, ResponseBodyGet, ResponseBodyGetV, ResponseBodyV, ResponseV,
};

verus! {

/// The server-wide connection budget: the count of permits handed out never
/// exceeds the configured maximum — that bound is an invariant of the type.
/// The supervisor takes one permit per accepted connection and returns it
/// when the connection's handler ends.
#[derive(Debug, Clone, Copy, PartialEq, Eq, Structural)]
pub struct ConnectionLimit {
    max_connections: usize,
    active: usize,
}

impl ConnectionLimit {
    /// Holds of every value of the type: permits out never exceed the cap.
    #[verifier::type_invariant]
    pub open spec fn wf(self) -> bool {
        self.spec_active() <= self.spec_max_connections()
    }

    pub closed spec fn spec_max_connections(self) -> usize {
        self.max_connections
    }

    pub closed spec fn spec_active(self) -> usize {
        self.active
    }

    pub fn new(max_connections: usize) -> (r: Self)
        ensures
            r.spec_max_connections() == max_connections,
            r.spec_active() == 0,
    {
        ConnectionLimit { max_connections, active: 0 }
    }

    /// Take one permit if any is free; report whether one was taken.
    pub fn try_acquire(&mut self) -> (r: bool)
        ensures
            final(self).spec_max_connections() == old(self).spec_max_connections(),
            r == (old(self).spec_active() < old(self).spec_max_connections()),
            final(self).spec_active() == (if r {
                old(self).spec_active() + 1
            } else {
                old(self).spec_active() as int
            }),
    {
        if self.active < self.max_connections {
            self.active = self.active + 1;
            true
        } else {
            false
        }
    }

    /// Return one permit.
    pub fn release(&mut self)
        requires
            old(self).spec_active() > 0,
        ensures
            final(self).spec_max_connections() == old(self).spec_max_connections(),
            final(self).spec_active() == old(self).spec_active() - 1,
    {
        proof {
            use_type_invariant(&*self);
        }
        self.active = self.active - 1;
    }

    pub fn active(&self) -> (r: usize)
        ensures
            r == self.spec_active(),
    {
        self.active
    }

    pub fn max_connections(&self) -> (r: usize)
        ensures
            r == self.spec_max_connections(),
    {
        self.max_connections
    }
}

/// Serve one decoded request against the store at time `now_millis` and
/// produce the response the protocol owes for it.
pub fn handle_request(db: &mut MainDB, req: Request, now_millis: u128) -> (resp: Response)
    requires
        old(db).wf(),
    ensures
        final(db).wf(),
        ({
            let m = old(db).spec_main();
            let t = old(db).spec_ttl_keys();
            match req {
                Request::Get(key) => if m.dom().contains(key@) && !spec_entry_expired(
                    m[key@],
                    now_millis,
                ) {
                    &&& resp@ == (ResponseV {
                        status: StatusCode::Success,
                        body: ResponseBodyV::Get(
                            Some(
                                ResponseBodyGetV {
                                    key: key@,
                                    value: m[key@].0,
                                    ttl: m[key@].1,
                                },
                            ),
                        ),
                    })
                    &&& final(db).spec_main() == m
                    &&& final(db).spec_ttl_keys() == t
                } else {
                    &&& resp@ == (ResponseV {
                        status: StatusCode::KeyNotFound,
                        body: ResponseBodyV::Get(None),
                    })
                    &&& final(db).spec_main() == (if m.dom().contains(key@) {
                        m.remove(key@)
                    } else {
                        m
                    })
                    &&& final(db).spec_ttl_keys() == (if m.dom().contains(key@) {
                        t.remove(key@)
                    } else {
                        t
                    })
                },
                Request::Put { key, value, ttl_since_unix_epoch_in_millis } => if m.dom().contains(
                    key@,
                ) {
                    &&& resp@ == (ResponseV {
                        status: StatusCode::KeyExists,
                        body: ResponseBodyV::Put,
                    })
                    &&& final(db).spec_main() == m
                    &&& final(db).spec_ttl_keys() == t
                } else {
                    &&& resp@ == (ResponseV { status: StatusCode::Success, body: ResponseBodyV::Put })
                    &&& (if ttl_since_unix_epoch_in_millis matches Some(exp) && exp <= now_millis {
                        &&& final(db).spec_main() == m
                        &&& final(db).spec_ttl_keys() == t
                    } else {
                        &&& final(db).spec_main() == m.insert(
                            key@,
                            (value@, ttl_since_unix_epoch_in_millis),
                        )
                        &&& final(db).spec_ttl_keys() == (
                        if ttl_since_unix_epoch_in_millis is Some {
                            t.insert(key@)
                        } else {
                            t.remove(key@)
                        })
                    })
                },
                Request::Delete(key) => if m.dom().contains(key@) {
                    &&& resp@ == (ResponseV {
                        status: StatusCode::Success,
                        body: ResponseBodyV::Delete,
                    })
                    &&& final(db).spec_main() == m.remove(key@)
                    &&& final(db).spec_ttl_keys() == t.remove(key@)
                } else {
                    &&& resp@ == (ResponseV {
                        status: StatusCode::KeyNotFound,
                        body: ResponseBodyV::Delete,
                    })
                    &&& final(db).spec_main() == m
                    &&& final(db).spec_ttl_keys() == t
                },
                Request::Flush => {
                    &&& resp@ == (ResponseV { status: StatusCode::Success, body: ResponseBodyV::Flush })
                    &&& final(db).spec_main() =~= Map::<Seq<u8>, (Seq<u8>, Option<u128>)>::empty()
                    &&& final(db).spec_ttl_keys() =~= Set::<Seq<u8>>::empty()
                },
            }
        }),
{
    match req {
        Request::Get(key) => match db.get(&key, now_millis) {
            Some(val) => {
                let resp = Response::new(
                    StatusCode::Success,
                    ResponseBody::Get(
                        Some(
                            ResponseBodyGet {
                                key,
                                value: val.value,
                                ttl_since_unix_epoch_in_millis:
                                    val.ttl_since_unix_epoch_in_millis,
                            },
                        ),
                    ),
                );
                proof {
                    assert(resp@ =~= (ResponseV {
                        status: StatusCode::Success,
                        body: ResponseBodyV::Get(
                            Some(
                                ResponseBodyGetV {
                                    key: key@,
                                    value: old(db).spec_main()[key@].0,
                                    ttl: old(db).spec_main()[key@].1,
                                },
                            ),
                        ),
                    }));
                }
                resp
            },
            None => Response::new(StatusCode::KeyNotFound, ResponseBody::Get(None)),
        },
        Request::Put { key, value, ttl_since_unix_epoch_in_millis } => {
            if db.contains_key(&key) {
                Response::new(StatusCode::KeyExists, ResponseBody::Put)
            } else {
                db.insert(key, value, ttl_since_unix_epoch_in_millis, now_millis);
                Response::new(StatusCode::Success, ResponseBody::Put)
            }
        },
        Request::Delete(key) => {
            if !db.contains_key(&key) {
                Response::new(StatusCode::KeyNotFound, ResponseBody::Delete)
            } else {
                db.remove(&key);
                Response::new(StatusCode::Success, ResponseBody::Delete)
            }
        },
        Request::Flush => {
            db.clear();
            Response::new(StatusCode::Success, ResponseBody::Flush)
        },
    }
}

} // verus!
