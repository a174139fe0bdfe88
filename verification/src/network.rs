use vstd::prelude::*;

verus! {

/// What a peer holds: its id, its address, and the addresses of the others.
pub struct PeerView {
    pub id: u64,
    pub url: Seq<char>,
    pub peers_url: Seq<Seq<char>>,
}

/// A member of the cluster and where to reach it.
pub struct Peer {
    id: u64,
    url: String,
    peers_url: Vec<String>,
}

impl View for Peer {
    type V = PeerView;

    open spec fn view(&self) -> PeerView {
        PeerView { id: self.spec_id(), url: self.spec_url(), peers_url: self.spec_peers_url() }
    }
}

impl Clone for Peer {
    fn clone(&self) -> (p: Peer)
        ensures
            p@ == self@,
    {
        let peers_url = self.peers_url.clone();
        proof {
            assert(peers_url@.map_values(|s: String| s@) =~= self.peers_url@.map_values(
                |s: String| s@,
            ));
        }
        Peer { id: self.id, url: self.url.clone(), peers_url }
    }
}

impl Peer {
    pub closed spec fn spec_id(&self) -> u64 {
        self.id
    }

    pub closed spec fn spec_url(&self) -> Seq<char> {
        self.url@
    }

    pub closed spec fn spec_peers_url(&self) -> Seq<Seq<char>> {
        self.peers_url@.map_values(|s: String| s@)
    }

    pub fn id(&self) -> (i: u64)
        ensures
            i == self@.id,
    {
        self.id
    }

    /// The address this peer listens on.
    pub fn url(&self) -> (u: &String)
        ensures
            u@ == self@.url,
    {
        &self.url
    }

    /// The addresses of the other members, as this peer knows them.
    pub fn peers_url(&self) -> (urls: &Vec<String>)
        ensures
            urls@.map_values(|s: String| s@) == self@.peers_url,
    {
        &self.peers_url
    }

    pub fn new(id: u64, url: &str, peers_url: Vec<String>) -> (p: Peer)
        ensures
            p@ == (PeerView { id, url: url@, peers_url: peers_url@.map_values(|s: String| s@) }),
    {
        Peer { id, url: url.to_owned(), peers_url }
    }
}

} // verus!
