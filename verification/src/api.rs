//! Names that the node gives to what it streams to a client.
use vstd::prelude::*;

verus! {

/// The id under which the node sends the notifications of one subscription.
#[derive(Debug, PartialEq, Eq, PartialOrd, Ord, Hash)]
pub struct SubscriptionId(String);

impl View for SubscriptionId {
    type V = Seq<char>;

    closed spec fn view(&self) -> Seq<char> {
        self.0@
    }
}

impl SubscriptionId {
    /// The subscription id with the given text.
    pub fn new(text: &str) -> (id: SubscriptionId)
        ensures
            id@ == text@,
    {
        SubscriptionId(text.to_string())
    }

    /// The text of this id.
    pub fn as_str(&self) -> (text: &str)
        ensures
            text@ == self@,
    {
        self.0.as_str()
    }

    /// Whether two ids have the same text.
    pub fn same(&self, other: &SubscriptionId) -> (r: bool)
        ensures
            r == (self@ == other@),
    {
        self.0 == other.0
    }
}

impl Clone for SubscriptionId {
    fn clone(&self) -> (r: SubscriptionId)
        ensures
            r@ == self@,
    {
        SubscriptionId(self.0.clone())
    }
}

impl From<String> for SubscriptionId {
    fn from(text: String) -> (id: SubscriptionId)
        ensures
            id@ == text@,
    {
        SubscriptionId(text)
    }
}

impl vstd::std_specs::convert::FromSpecImpl<String> for SubscriptionId {
    open spec fn obeys_from_spec() -> bool {
        true
    }

    closed spec fn from_spec(text: String) -> SubscriptionId {
        SubscriptionId(text)
    }
}

impl<'a> From<&'a str> for SubscriptionId {
    fn from(text: &'a str) -> (id: SubscriptionId)
        ensures
            id@ == text@,
    {
        SubscriptionId::new(text)
    }
}

impl<'a> vstd::std_specs::convert::FromSpecImpl<&'a str> for SubscriptionId {
    open spec fn obeys_from_spec() -> bool {
        false
    }

    open spec fn from_spec(text: &'a str) -> SubscriptionId {
        arbitrary()
    }
}

} // verus!
