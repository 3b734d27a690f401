use vstd::prelude::*;

verus! {

/// The network address of a peer, held as its textual form (`ip:port`).
/// Two connections are the same peer exactly when these texts agree.
pub struct PeerAddr {
    text: String,
}

impl View for PeerAddr {
    type V = Seq<char>;

    closed spec fn view(&self) -> Seq<char> {
        self.text@
    }
}

impl PeerAddr {
    /// An address with the given textual form.
    pub fn new(text: &str) -> (r: PeerAddr)
        ensures
            r@ == text@,
    {
        PeerAddr { text: text.to_owned() }
    }

    /// The textual form of the address.
    pub fn as_str(&self) -> (r: &str)
        ensures
            r@ == self@,
    {
        self.text.as_str()
    }

    /// Whether both name the same peer.
    pub fn same_as(&self, other: &PeerAddr) -> (r: bool)
        ensures
            r == (self@ == other@),
    {
        self.text == other.text
    }

    /// A copy of the address.
    pub fn duplicate(&self) -> (r: PeerAddr)
        ensures
            r@ == self@,
    {
        PeerAddr { text: self.text.clone() }
    }
}

} // verus!
