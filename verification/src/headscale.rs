//! Nodes of the tailnet and the users they are bound to, as the node
//! directory reports them.

use vstd::prelude::*;
use vstd::string::*;
use crate::text::{contains_char, has_prefix};

verus! {

/// The user a node is bound to.
#[derive(Debug, Clone)]
pub struct User {
    pub id: String,
    pub name: String,
    pub created_at: String,
    pub display_name: Option<String>,
    pub email: Option<String>,
    pub provider_id: Option<String>,
    pub provider: Option<String>,
    pub profile_pic_url: Option<String>,
}

/// A network endpoint with the addresses assigned to it.
#[derive(Debug, Clone)]
pub struct Node {
    pub id: String,
    pub machine_key: String,
    pub node_key: String,
    pub disco_key: String,
    pub ip_addresses: Vec<String>,
    pub name: String,
    pub user: User,
    pub last_seen: String,
    pub expiry: Option<String>,
    pub created_at: String,
    pub online: bool,
}

/// What policy synthesis reads of a user: its identifier and the email that
/// joins it to an authorization record.
pub struct UserView {
    pub id: Seq<char>,
    pub email: Option<Seq<char>>,
}

/// What policy synthesis reads of a node: its identifier, its addresses in
/// the order given, and its user.
pub struct NodeView {
    pub id: Seq<char>,
    pub addresses: Seq<Seq<char>>,
    pub user: UserView,
}

impl View for User {
    type V = UserView;

    open spec fn view(&self) -> UserView {
        UserView { id: self.id@, email: self.email.deep_view() }
    }
}

impl DeepView for User {
    type V = UserView;

    open spec fn deep_view(&self) -> UserView {
        self@
    }
}

impl View for Node {
    type V = NodeView;

    open spec fn view(&self) -> NodeView {
        NodeView { id: self.id@, addresses: self.ip_addresses.deep_view(), user: self.user@ }
    }
}

impl DeepView for Node {
    type V = NodeView;

    open spec fn deep_view(&self) -> NodeView {
        self@
    }
}

/// The leading characters by which an address of the tailnet's IPv4 range
/// is known.
pub const TAILNET_PREFIX: &'static str = "100.64.";

/// Whether an address counts as one of the tailnet's IPv4 range: its text
/// begins with `100.64.`.
pub open spec fn is_tailnet_v4(address: Seq<char>) -> bool {
    TAILNET_PREFIX@.is_prefix_of(address)
}

/// Whether an address counts as an IPv6 literal: its text holds a colon.
pub open spec fn is_v6(address: Seq<char>) -> bool {
    address.contains(':')
}

/// The first address of the tailnet's IPv4 range, if there is one.
pub open spec fn first_tailnet_v4(addresses: Seq<Seq<char>>) -> Option<Seq<char>>
    decreases addresses.len(),
{
    if addresses.len() == 0 {
        None
    } else if is_tailnet_v4(addresses[0]) {
        Some(addresses[0])
    } else {
        first_tailnet_v4(addresses.drop_first())
    }
}

/// The first IPv6 address, if there is one.
pub open spec fn first_v6(addresses: Seq<Seq<char>>) -> Option<Seq<char>>
    decreases addresses.len(),
{
    if addresses.len() == 0 {
        None
    } else if is_v6(addresses[0]) {
        Some(addresses[0])
    } else {
        first_v6(addresses.drop_first())
    }
}

/// Whether position `i` holds the first address of the tailnet's IPv4 range.
pub open spec fn is_first_tailnet_v4(addresses: Seq<Seq<char>>, i: int) -> bool {
    &&& 0 <= i < addresses.len()
    &&& is_tailnet_v4(addresses[i])
    &&& forall|j: int| 0 <= j < i ==> !is_tailnet_v4(#[trigger] addresses[j])
}

/// The address selected is the first in the list that lies in the tailnet's
/// IPv4 range, and none is selected only when no address lies in it.
pub proof fn lemma_first_tailnet_v4(addresses: Seq<Seq<char>>)
    ensures
        match first_tailnet_v4(addresses) {
            Some(address) => exists|i: int|
                is_first_tailnet_v4(addresses, i) && addresses[i] == address,
            None => forall|i: int|
                0 <= i < addresses.len() ==> !is_tailnet_v4(#[trigger] addresses[i]),
        },
    decreases addresses.len(),
{
    if addresses.len() > 0 {
        if is_tailnet_v4(addresses[0]) {
            assert(is_first_tailnet_v4(addresses, 0));
        } else {
            let rest = addresses.drop_first();
            lemma_first_tailnet_v4(rest);
            match first_tailnet_v4(rest) {
                Some(address) => {
                    let i: int = choose|i: int| is_first_tailnet_v4(rest, i) && rest[i] == address;
                    assert forall|j: int| 0 <= j < i + 1 implies !is_tailnet_v4(
                        #[trigger] addresses[j],
                    ) by {
                        if j > 0 {
                            assert(addresses[j] == rest[j - 1]);
                        }
                    }
                    assert(is_first_tailnet_v4(addresses, i + 1));
                },
                None => {
                    assert forall|i: int| 0 <= i < addresses.len() implies !is_tailnet_v4(
                        #[trigger] addresses[i],
                    ) by {
                        if i > 0 {
                            assert(addresses[i] == rest[i - 1]);
                        }
                    }
                },
            }
        }
    }
}

impl NodeView {
    /// A node is a candidate for an authorization clause when its user has
    /// an email and that email is not empty.
    pub open spec fn is_candidate(self) -> bool {
        self.user.email matches Some(email) && email.len() > 0
    }

    /// The address a clause is gated on.
    pub open spec fn ipv4(self) -> Option<Seq<char>> {
        first_tailnet_v4(self.addresses)
    }

    /// The node's IPv6 address.
    pub open spec fn ipv6(self) -> Option<Seq<char>> {
        first_v6(self.addresses)
    }
}

impl Node {
    /// The first of the node's addresses that lies in the tailnet's IPv4
    /// range, `None` when it has none.
    pub fn get_ipv4(&self) -> (address: Option<String>)
        ensures
            address.deep_view() == self@.ipv4(),
    {
        let ghost addresses = self@.addresses;
        assert(addresses.skip(0) =~= addresses);
        let mut i: usize = 0;
        while i < self.ip_addresses.len()
            invariant
                i <= self.ip_addresses.len(),
                addresses == self.ip_addresses.deep_view(),
                first_tailnet_v4(addresses) == first_tailnet_v4(addresses.skip(i as int)),
            decreases self.ip_addresses.len() - i,
        {
            let ghost rest = addresses.skip(i as int);
            assert(rest[0] == self.ip_addresses[i as int]@);
            if has_prefix(self.ip_addresses[i].as_str(), TAILNET_PREFIX) {
                return Some(self.ip_addresses[i].clone());
            }
            assert(rest.drop_first() =~= addresses.skip(i + 1));
            i += 1;
        }
        None
    }

    /// The first of the node's addresses that is an IPv6 literal, `None`
    /// when it has none.
    pub fn get_ipv6(&self) -> (address: Option<String>)
        ensures
            address.deep_view() == self@.ipv6(),
    {
        let ghost addresses = self@.addresses;
        assert(addresses.skip(0) =~= addresses);
        let mut i: usize = 0;
        while i < self.ip_addresses.len()
            invariant
                i <= self.ip_addresses.len(),
                addresses == self.ip_addresses.deep_view(),
                first_v6(addresses) == first_v6(addresses.skip(i as int)),
            decreases self.ip_addresses.len() - i,
        {
            let ghost rest = addresses.skip(i as int);
            assert(rest[0] == self.ip_addresses[i as int]@);
            if contains_char(self.ip_addresses[i].as_str(), ':') {
                return Some(self.ip_addresses[i].clone());
            }
            assert(rest.drop_first() =~= addresses.skip(i + 1));
            i += 1;
        }
        None
    }

    /// Whether the node's user has an email that is not empty.
    pub fn has_user_email(&self) -> (candidate: bool)
        ensures
            candidate == self@.is_candidate(),
    {
        match &self.user.email {
            Some(email) => !email.as_str().is_empty(),
            None => false,
        }
    }
}

} // verus!
