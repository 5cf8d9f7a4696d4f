//! Which endpoints may build without a ticket.

use vstd::prelude::*;

use crate::collections::StrMap;
use crate::config::{
    default_max_build_time, default_max_upload_bytes, ServerConfig, TrustedClient,
    TrustedClientView,
};
use crate::endpoint;
use crate::endpoint::EndpointId;
use crate::error::Error;
use crate::hex;
use crate::text;
use crate::text::concat2;

verus! {

struct TrustedEndpoint {
    name: Option<String>,
    endpoint_id: EndpointId,
    policy: TrustedClient,
}

/// The view of a trusted endpoint.
pub struct TrustedEndpointView {
    pub name: Option<Seq<char>>,
    pub endpoint_id: Seq<u8>,
    pub policy: TrustedClientView,
}

/// The trusted endpoints, in the order in which they are looked up.
pub struct AccessPolicy {
    trusted_clients: Vec<TrustedEndpoint>,
}

impl View for AccessPolicy {
    type V = Seq<TrustedEndpointView>;

    closed spec fn view(&self) -> Seq<TrustedEndpointView> {
        Seq::new(
            self.trusted_clients@.len(),
            |i: int| endpoint_view(self.trusted_clients@[i]),
        )
    }
}

spec fn endpoint_view(endpoint: TrustedEndpoint) -> TrustedEndpointView {
    TrustedEndpointView {
        name: text::optional_text(endpoint.name),
        endpoint_id: endpoint.endpoint_id@,
        policy: endpoint.policy@,
    }
}

/// A trusted endpoint that was recognised.
pub struct AuthorizedClient {
    pub name: Option<String>,
    pub policy: TrustedClient,
}

/// The entry of a configuration for a client whose key is known.
pub open spec fn configured_endpoint(
    name: Seq<char>,
    client: TrustedClientView,
    id: Seq<u8>,
) -> TrustedEndpointView {
    TrustedEndpointView { name: Some(name), endpoint_id: id, policy: client }
}

/// The keys of the clients of a configuration, as they are read.
pub open spec fn keys_of(names: Seq<Seq<char>>, clients: Map<Seq<char>, TrustedClient>) -> Seq<
    Result<Seq<u8>, Seq<char>>,
> {
    Seq::new(names.len(), |i: int| endpoint::endpoint_id_read(clients[names[i]].public_key@))
}

/// The trusted endpoints of a configuration, by name, up to the first whose
/// key cannot be read.
pub open spec fn configured_endpoints(
    names: Seq<Seq<char>>,
    clients: Map<Seq<char>, TrustedClient>,
) -> Result<Seq<TrustedEndpointView>, Seq<Seq<char>>> {
    endpoints_with(names, clients, keys_of(names, clients))
}

/// The trusted endpoints of a configuration whose keys were read as `ids`, by
/// name, up to the first that could not be.
pub open spec fn endpoints_with(
    names: Seq<Seq<char>>,
    clients: Map<Seq<char>, TrustedClient>,
    ids: Seq<Result<Seq<u8>, Seq<char>>>,
) -> Result<Seq<TrustedEndpointView>, Seq<Seq<char>>>
    decreases names.len(),
{
    if names.len() == 0 {
        Ok(Seq::empty())
    } else {
        match endpoints_with(names.drop_last(), clients, ids) {
            Err(e) => Err(e),
            Ok(earlier) => {
                let name = names.last();
                match ids[names.len() - 1] {
                    Ok(id) => Ok(earlier.push(configured_endpoint(name, clients[name]@, id))),
                    Err(why) => Err(seq!["parse public_key for trusted client "@ + name, why]),
                }
            },
        }
    }
}

/// The entry of an endpoint that is trusted under no name, with the default
/// limits.
pub open spec fn unnamed_endpoint(id: Seq<u8>) -> TrustedEndpointView {
    TrustedEndpointView {
        name: None,
        endpoint_id: id,
        policy: TrustedClientView {
            public_key: hex::hex_text(id),
            max_build_time: Some("30m"@),
            max_upload_bytes: Some("20G"@),
        },
    }
}

/// The first entry for an endpoint.
pub open spec fn entry_for(entries: Seq<TrustedEndpointView>, remote: Seq<u8>) -> Option<
    TrustedEndpointView,
>
    decreases entries.len(),
{
    if entries.len() == 0 {
        None
    } else if entries[0].endpoint_id == remote {
        Some(entries[0])
    } else {
        entry_for(entries.skip(1), remote)
    }
}

/// The views of ids that were read.
pub open spec fn ids_view(ids: Seq<Result<EndpointId, String>>) -> Seq<
    Result<Seq<u8>, Seq<char>>,
> {
    Seq::new(ids.len(), |i: int| endpoint::read_id(ids[i]))
}

impl AccessPolicy {
    /// The clients that a configuration trusts.
    pub fn from_config(config: &ServerConfig) -> (r: Result<Self, Error>)
        ensures
            match r {
                Ok(policy) => configured_endpoints(
                    config.trusted_clients.keys(),
                    config.trusted_clients@,
                ) == Ok::<Seq<TrustedEndpointView>, Seq<Seq<char>>>(policy@),
                Err(e) => configured_endpoints(
                    config.trusted_clients.keys(),
                    config.trusted_clients@,
                ) == Err::<Seq<TrustedEndpointView>, Seq<Seq<char>>>(e@),
            },
    {
        let clients: &StrMap<TrustedClient> = &config.trusted_clients;
        let ghost names = clients.keys();
        let mut ids: Vec<Result<EndpointId, String>> = Vec::new();
        let mut i: usize = 0;
        while i < clients.len()
            invariant
                i <= names.len(),
                names == clients.keys(),
                ids@.len() == i,
                forall|j: int|
                    0 <= j < i ==> endpoint::read_id(#[trigger] ids@[j]) == keys_of(
                        names,
                        clients@,
                    )[j],
            decreases names.len() - i,
        {
            let client: &TrustedClient = clients.value_at(i);
            ids.push(EndpointId::parse(client.public_key.as_str()));
            i = i + 1;
        }
        assert(ids_view(ids@) =~= keys_of(names, clients@));
        AccessPolicy::from_keys(clients, ids.as_slice())
    }

    /// The clients of a configuration, whose keys were read as `ids`.
    pub fn from_keys(
        clients: &StrMap<TrustedClient>,
        ids: &[Result<EndpointId, String>],
    ) -> (r: Result<Self, Error>)
        requires
            ids@.len() == clients.keys().len(),
        ensures
            match r {
                Ok(policy) => endpoints_with(clients.keys(), clients@, ids_view(ids@)) == Ok::<
                    Seq<TrustedEndpointView>,
                    Seq<Seq<char>>,
                >(policy@),
                Err(e) => endpoints_with(clients.keys(), clients@, ids_view(ids@)) == Err::<
                    Seq<TrustedEndpointView>,
                    Seq<Seq<char>>,
                >(e@),
            },
    {
        let names: &Vec<String> = clients.key_list();
        let ghost keys = clients.keys();
        let mut policy: AccessPolicy = AccessPolicy { trusted_clients: Vec::new() };
        let mut i: usize = 0;
        assert(keys.take(0).len() == 0);
        assert(policy@ =~= Seq::<TrustedEndpointView>::empty());
        while i < names.len()
            invariant
                i <= names@.len(),
                keys == clients.keys(),
                ids@.len() == keys.len(),
                text::texts(names@) == keys,
                endpoints_with(keys.take(i as int), clients@, ids_view(ids@)) == Ok::<
                    Seq<TrustedEndpointView>,
                    Seq<Seq<char>>,
                >(policy@),
            decreases names@.len() - i,
        {
            let client: &TrustedClient = clients.value_at(i);
            proof {
                assert(keys.take(i + 1).drop_last() =~= keys.take(i as int));
                assert(keys.take(i + 1).last() == keys[i as int]);
                assert(keys[i as int] == names@[i as int]@);
            }
            match &ids[i] {
                Ok(id) => {
                    let endpoint_id: EndpointId = *id;
                    let ghost earlier = policy@;
                    policy.trusted_clients.push(
                        TrustedEndpoint {
                            name: Some(names[i].clone()),
                            endpoint_id,
                            policy: client.clone(),
                        },
                    );
                    assert(policy@ =~= earlier.push(
                        configured_endpoint(keys[i as int], client@, endpoint_id@),
                    ));
                },
                Err(why) => {
                    proof {
                        lemma_configured_fails(keys, clients@, ids_view(ids@), i + 1);
                    }
                    return Err(
                        Error::caused(
                            concat2(
                                "parse public_key for trusted client ",
                                names[i].as_str(),
                            ),
                            why.as_str().to_string(),
                        ),
                    );
                },
            }
            i = i + 1;
        }
        assert(keys.take(i as int) =~= keys);
        Ok(policy)
    }

    /// Trusts endpoints by their ids alone.
    pub fn from_endpoint_ids(endpoint_ids: Vec<EndpointId>) -> (r: Self)
        ensures
            r@ == Seq::new(
                endpoint_ids@.len(),
                |i: int| unnamed_endpoint(endpoint_ids@[i]@),
            ),
    {
        let mut policy: AccessPolicy = AccessPolicy { trusted_clients: Vec::new() };
        let mut i: usize = 0;
        while i < endpoint_ids.len()
            invariant
                i <= endpoint_ids@.len(),
                policy@ == Seq::new(i as nat, |j: int| unnamed_endpoint(endpoint_ids@[j]@)),
            decreases endpoint_ids@.len() - i,
        {
            let ghost earlier = policy@;
            let endpoint_id: EndpointId = endpoint_ids[i];
            let entry: TrustedEndpoint = TrustedEndpoint {
                name: None,
                endpoint_id,
                policy: TrustedClient {
                    public_key: endpoint_id.to_text(),
                    max_build_time: default_max_build_time(),
                    max_upload_bytes: default_max_upload_bytes(),
                },
            };
            assert(endpoint_view(entry) == unnamed_endpoint(endpoint_id@));
            policy.trusted_clients.push(entry);
            assert(policy@ =~= earlier.push(unnamed_endpoint(endpoint_id@)));
            i = i + 1;
        }
        policy
    }

    /// Recognises a remote endpoint by the first entry for it.
    pub fn authorize(&self, remote: &EndpointId) -> (r: Option<AuthorizedClient>)
        ensures
            match r {
                Some(client) => entry_for(self@, remote@) == Some(
                    TrustedEndpointView {
                        name: text::optional_text(client.name),
                        endpoint_id: remote@,
                        policy: client.policy@,
                    },
                ),
                None => entry_for(self@, remote@) is None,
            },
    {
        let mut i: usize = 0;
        assert(self@.skip(0) =~= self@);
        while i < self.trusted_clients.len()
            invariant
                i <= self.trusted_clients@.len(),
                entry_for(self@, remote@) == entry_for(self@.skip(i as int), remote@),
            decreases self.trusted_clients@.len() - i,
        {
            let entry: &TrustedEndpoint = &self.trusted_clients[i];
            assert(self@.skip(i as int)[0] == endpoint_view(*entry));
            if entry.endpoint_id.same(remote) {
                return Some(
                    AuthorizedClient {
                        name: text::clone_optional(&entry.name),
                        policy: entry.policy.clone(),
                    },
                );
            }
            assert(self@.skip(i as int).skip(1) =~= self@.skip(i + 1));
            i = i + 1;
        }
        None
    }
}

impl Clone for AccessPolicy {
    fn clone(&self) -> (r: Self)
        ensures
            r@ == self@,
    {
        let mut policy: AccessPolicy = AccessPolicy { trusted_clients: Vec::new() };
        let mut i: usize = 0;
        while i < self.trusted_clients.len()
            invariant
                i <= self.trusted_clients@.len(),
                policy@ == self@.take(i as int),
            decreases self.trusted_clients@.len() - i,
        {
            let ghost earlier = policy@;
            let entry: &TrustedEndpoint = &self.trusted_clients[i];
            policy.trusted_clients.push(
                TrustedEndpoint {
                    name: text::clone_optional(&entry.name),
                    endpoint_id: entry.endpoint_id,
                    policy: entry.policy.clone(),
                },
            );
            assert(policy@ =~= earlier.push(self@[i as int]));
            i = i + 1;
        }
        assert(self@.take(i as int) =~= self@);
        policy
    }
}

/// A key that cannot be read fails the whole configuration.
proof fn lemma_configured_fails(
    names: Seq<Seq<char>>,
    clients: Map<Seq<char>, TrustedClient>,
    ids: Seq<Result<Seq<u8>, Seq<char>>>,
    n: int,
)
    requires
        0 <= n <= names.len(),
        endpoints_with(names.take(n), clients, ids) is Err,
    ensures
        endpoints_with(names, clients, ids) == endpoints_with(names.take(n), clients, ids),
    decreases names.len() - n,
{
    if n < names.len() {
        assert(names.take(n + 1).drop_last() =~= names.take(n));
        lemma_configured_fails(names, clients, ids, n + 1);
    } else {
        assert(names.take(n) =~= names);
    }
}

/// An endpoint is recognised exactly where some entry is for it.
pub proof fn law_recognised_exactly_if_trusted(entries: Seq<TrustedEndpointView>, remote: Seq<u8>)
    ensures
        (entry_for(entries, remote) is Some) == (exists|i: int|
            0 <= i < entries.len() && (#[trigger] entries[i]).endpoint_id == remote),
        entry_for(entries, remote) matches Some(entry) ==> entries.contains(entry)
            && entry.endpoint_id == remote,
    decreases entries.len(),
{
    if entries.len() > 0 {
        let rest = entries.skip(1);
        law_recognised_exactly_if_trusted(rest, remote);
        if exists|i: int| 0 <= i < entries.len() && (#[trigger] entries[i]).endpoint_id == remote {
            let i = choose|i: int|
                0 <= i < entries.len() && (#[trigger] entries[i]).endpoint_id == remote;
            if i > 0 {
                assert(rest[i - 1] == entries[i]);
            }
        }
        match entry_for(rest, remote) {
            Some(entry) => {
                let i = choose|i: int| 0 <= i < rest.len() && rest[i] == entry;
                assert(entries[i + 1] == entry);
            },
            None => {},
        }
    }
}

/// A configuration whose keys can all be read trusts exactly these keys, under
/// the names and with the limits that it gives them.
pub proof fn law_configured_endpoints(
    names: Seq<Seq<char>>,
    clients: Map<Seq<char>, TrustedClient>,
)
    ensures
        (configured_endpoints(names, clients) is Ok) == (forall|i: int|
            0 <= i < names.len() ==> endpoint::endpoint_id_of_text(
                clients[#[trigger] names[i]].public_key@,
            ) is Some),
        configured_endpoints(names, clients) matches Ok(entries) ==> {
            &&& entries.len() == names.len()
            &&& forall|i: int|
                0 <= i < names.len() ==> (#[trigger] entries[i]) == configured_endpoint(
                    names[i],
                    clients[names[i]]@,
                    endpoint::endpoint_id_of_text(clients[names[i]].public_key@)->0,
                )
        },
{
    let ids = keys_of(names, clients);
    lemma_endpoints_with(names, clients, ids);
    if configured_endpoints(names, clients) is Ok {
        assert forall|i: int| 0 <= i < names.len() implies endpoint::endpoint_id_of_text(
            clients[#[trigger] names[i]].public_key@,
        ) is Some by {
            assert(ids[i] is Ok);
        }
    }
    if forall|i: int|
        0 <= i < names.len() ==> endpoint::endpoint_id_of_text(
            clients[#[trigger] names[i]].public_key@,
        ) is Some {
        assert forall|i: int| 0 <= i < names.len() implies (#[trigger] ids[i]) is Ok by {
            assert(endpoint::endpoint_id_of_text(clients[names[i]].public_key@) is Some);
        }
    }
}

proof fn lemma_endpoints_with(
    names: Seq<Seq<char>>,
    clients: Map<Seq<char>, TrustedClient>,
    ids: Seq<Result<Seq<u8>, Seq<char>>>,
)
    ensures
        (endpoints_with(names, clients, ids) is Ok) == (forall|i: int|
            0 <= i < names.len() ==> (#[trigger] ids[i]) is Ok),
        endpoints_with(names, clients, ids) matches Ok(entries) ==> {
            &&& entries.len() == names.len()
            &&& forall|i: int|
                0 <= i < names.len() ==> (#[trigger] entries[i]) == configured_endpoint(
                    names[i],
                    clients[names[i]]@,
                    ids[i]->Ok_0,
                )
        },
    decreases names.len(),
{
    if names.len() > 0 {
        lemma_endpoints_with(names.drop_last(), clients, ids);
        assert(ids[names.len() - 1] is Ok || ids[names.len() - 1] is Err);
    }
}

/// Of several entries for an endpoint the first counts.
pub proof fn law_the_first_entry_counts(
    entries: Seq<TrustedEndpointView>,
    remote: Seq<u8>,
    i: int,
)
    requires
        0 <= i < entries.len(),
        entries[i].endpoint_id == remote,
        forall|j: int| 0 <= j < i ==> (#[trigger] entries[j]).endpoint_id != remote,
    ensures
        entry_for(entries, remote) == Some(entries[i]),
    decreases i,
{
    if i > 0 {
        let rest = entries.skip(1);
        assert forall|j: int| 0 <= j < i - 1 implies (#[trigger] rest[j]).endpoint_id != remote by {
            assert(rest[j] == entries[j + 1]);
        }
        assert(rest[i - 1] == entries[i]);
        assert(entries[0].endpoint_id != remote);
        law_the_first_entry_counts(rest, remote, i - 1);
    }
}

/// A configured client is trusted under its name, by the key that its entry writes, and
/// with the limits of its entry.
pub proof fn law_configured_clients_keep_their_limits(
    names: Seq<Seq<char>>,
    clients: Map<Seq<char>, TrustedClient>,
    i: int,
)
    requires
        configured_endpoints(names, clients) is Ok,
        0 <= i < names.len(),
    ensures
        ({
            let entry = configured_endpoints(names, clients)->Ok_0[i];
            let client = clients[names[i]];
            &&& entry.name == Some(names[i])
            &&& endpoint::endpoint_id_of_text(client.public_key@) == Some(entry.endpoint_id)
            &&& entry.policy.max_build_time == text::optional_text(client.max_build_time)
            &&& entry.policy.max_upload_bytes == text::optional_text(client.max_upload_bytes)
        }),
{
    law_configured_endpoints(names, clients);
    assert(endpoint::endpoint_id_of_text(clients[names[i]].public_key@) is Some);
}

/// A client that is trusted by its id alone has no name, and may build for half an
/// hour and upload twenty gigabytes.
pub proof fn law_unnamed_clients_have_the_defaults(id: Seq<u8>)
    ensures
        unnamed_endpoint(id).name is None,
        unnamed_endpoint(id).endpoint_id == id,
        unnamed_endpoint(id).policy.max_build_time matches Some(time)
            && crate::config::duration_seconds(time) == Ok::<u64, Seq<Seq<char>>>(1800),
        unnamed_endpoint(id).policy.max_upload_bytes matches Some(bytes)
            && crate::config::byte_count(bytes) == Ok::<u64, Seq<Seq<char>>>(
            21_474_836_480,
        ),
{
    crate::config::law_default_limits();
}

/// The first client whose key cannot be read is the one that the builder's owner
/// is told of.
pub proof fn law_bad_keys_are_named(
    names: Seq<Seq<char>>,
    clients: Map<Seq<char>, TrustedClient>,
    ids: Seq<Result<Seq<u8>, Seq<char>>>,
    n: int,
)
    requires
        0 <= n < names.len(),
        ids[n] is Err,
        forall|i: int| 0 <= i < n ==> (#[trigger] ids[i]) is Ok,
    ensures
        endpoints_with(names, clients, ids) == Err::<Seq<TrustedEndpointView>, Seq<Seq<char>>>(
            seq!["parse public_key for trusted client "@ + names[n], ids[n]->Err_0],
        ),
    decreases names.len(),
{
    let fewer = names.drop_last();
    if n < names.len() - 1 {
        law_bad_keys_are_named(fewer, clients, ids, n);
        assert(fewer[n] == names[n]);
    } else {
        lemma_good_keys_are_trusted(fewer, clients, ids);
    }
}

proof fn lemma_good_keys_are_trusted(
    names: Seq<Seq<char>>,
    clients: Map<Seq<char>, TrustedClient>,
    ids: Seq<Result<Seq<u8>, Seq<char>>>,
)
    requires
        forall|i: int| 0 <= i < names.len() ==> (#[trigger] ids[i]) is Ok,
    ensures
        endpoints_with(names, clients, ids) is Ok,
    decreases names.len(),
{
    if names.len() > 0 {
        lemma_good_keys_are_trusted(names.drop_last(), clients, ids);
        assert(ids[names.len() - 1] is Ok);
    }
}

} // verus!
