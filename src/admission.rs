use vstd::prelude::*;
use crate::addr::PeerAddr;
use crate::auth::check_reply;
use crate::config::ServerConfig;
use crate::errors::ServerError;
use crate::registry::{after_admit, has_room, Registry};
use crate::wire::received;

verus! {

/// Admission of the connection `conn` from `addr`, whose answer to the
/// challenge was `reply`: a wrong passcode is refused with `InvalidPasscode`
/// and never reaches the registry; a right one is then held to the capacity
/// bound and stored as `Registry::admit_client` does.
pub fn admit_connection<C>(
    registry: &mut Registry<C>,
    config: &ServerConfig,
    addr: PeerAddr,
    conn: C,
    reply: &[u8],
) -> (r: Result<(), ServerError>)
    requires
        old(registry).wf(),
    ensures
        final(registry).wf(),
        received(reply@) != config.spec_passcode() ==> (r matches Err(ServerError::InvalidPasscode))
            && *final(registry) == *old(registry),
        received(reply@) == config.spec_passcode() ==> {
            &&& (r is Ok <==> has_room(old(registry).spec_addrs(), config.spec_max_clients()))
            &&& (r is Err ==> (r matches Err(ServerError::MaxClientsReached)) && *final(registry)
                == *old(registry))
            &&& final(registry).spec_addrs() == after_admit(
                old(registry).spec_addrs(),
                addr@,
                config.spec_max_clients(),
            )
        },
        r is Ok ==> final(registry).spec_addrs().contains(addr@),
        r is Ok ==> forall|j: int|
            0 <= j < final(registry).spec_addrs().len() ==> #[trigger] final(registry).spec_conns()[j]
                == if final(registry).spec_addrs()[j] == addr@ {
                conn
            } else {
                old(registry).spec_conns()[j]
            },
{
    match check_reply(config, reply) {
        Err(e) => Err(e),
        Ok(()) => {
            let ghost a = addr@;
            let res = registry.admit_client(addr, conn, config.max_clients());
            proof {
                if res is Ok {
                    crate::registry::lemma_admitted_is_present(
                        old(registry).spec_addrs(),
                        a,
                        config.spec_max_clients(),
                    );
                }
            }
            res
        },
    }
}

} // verus!
