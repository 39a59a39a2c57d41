//! STUN/TURN relay descriptions and their ICE server configuration.

use vstd::prelude::*;

verus! {

/// A STUN server: reachable by URI alone.
#[derive(Clone, PartialEq, Eq, Debug)]
pub struct StunServer {
    pub uri: String,
}

/// A TURN server: URI plus long-term credentials.
#[derive(Clone, PartialEq, Eq, Debug)]
pub struct TurnServer {
    pub uri: String,
    pub username: String,
    pub password: String,
}

#[derive(Clone, PartialEq, Eq, Debug)]
pub enum Relay {
    Stun(StunServer),
    Turn(TurnServer),
}

#[derive(Clone, Copy, PartialEq, Eq, Structural, Debug)]
pub enum IceCredentialType {
    Unspecified,
    Password,
}

/// One entry of a peer-connection configuration.
#[derive(Clone, PartialEq, Eq, Debug)]
pub struct IceServer {
    pub urls: Vec<String>,
    pub username: Option<String>,
    pub credential: Option<String>,
    pub credential_type: IceCredentialType,
}

/// The ICE server a relay turns into: STUN contributes its URI alone; TURN
/// contributes URI, username and password with the password credential type.
pub open spec fn ice_server_matches(s: IceServer, r: Relay) -> bool {
    match r {
        Relay::Stun(st) => {
            &&& s.urls@ == seq![st.uri]
            &&& s.username is None
            &&& s.credential is None
            &&& s.credential_type == IceCredentialType::Unspecified
        },
        Relay::Turn(t) => {
            &&& s.urls@ == seq![t.uri]
            &&& s.username == Some(t.username)
            &&& s.credential == Some(t.password)
            &&& s.credential_type == IceCredentialType::Password
        },
    }
}

/// Builds the ICE server list of a peer-connection configuration from the
/// relays the portal supplied, element for element and in order.
pub fn ice_servers_of_relays(relays: Vec<Relay>) -> (r: Vec<IceServer>)
    ensures
        r@.len() == relays@.len(),
        forall|i: int| 0 <= i < r@.len() ==> ice_server_matches(#[trigger] r@[i], relays@[i]),
{
    let ghost orig = relays@;
    let mut rest = relays;
    let mut out: Vec<IceServer> = Vec::new();
    while rest.len() > 0
        invariant
            out@.len() + rest@.len() == orig.len(),
            rest@ == orig.skip(out@.len() as int),
            forall|i: int| 0 <= i < out@.len() ==> ice_server_matches(#[trigger] out@[i], orig[i]),
        decreases rest@.len(),
    {
        let rel = rest.remove(0);
        let ghost grel = rel;
        proof {
            assert(grel == orig[out@.len() as int]);
        }
        let server = match rel {
            Relay::Stun(s) => {
                let mut urls: Vec<String> = Vec::new();
                urls.push(s.uri);
                IceServer {
                    urls,
                    username: None,
                    credential: None,
                    credential_type: IceCredentialType::Unspecified,
                }
            },
            Relay::Turn(t) => {
                let mut urls: Vec<String> = Vec::new();
                urls.push(t.uri);
                IceServer {
                    urls,
                    username: Some(t.username),
                    credential: Some(t.password),
                    credential_type: IceCredentialType::Password,
                }
            },
        };
        proof {
            assert(ice_server_matches(server, grel)) by {
                if grel is Stun {
                    assert(server.urls@ =~= seq![grel->Stun_0.uri]);
                } else {
                    assert(server.urls@ =~= seq![grel->Turn_0.uri]);
                }
            }
        }
        out.push(server);
        proof {
            assert(rest@ =~= orig.skip(out@.len() as int));
        }
    }
    out
}

} // verus!
