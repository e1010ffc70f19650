//! One discovered service endpoint.

use vstd::prelude::*;

verus! {

/// A service endpoint as advertised by one SRV record.
#[derive(Debug, Clone, PartialEq, Eq)]
pub struct Record {
    /// Host name of the endpoint.
    pub target: String,
    /// Port on which the service listens.
    pub port: u16,
    /// Preference tier; a lower value is tried earlier.
    pub priority: u16,
    /// Relative share of the picks within the tier.
    pub weight: u16,
}

/// What a `Record` stands for in contracts.
pub struct RecordView {
    pub target: Seq<char>,
    pub port: u16,
    pub priority: u16,
    pub weight: u16,
}

impl View for Record {
    type V = RecordView;

    open spec fn view(&self) -> RecordView {
        RecordView {
            target: self.target@,
            port: self.port,
            priority: self.priority,
            weight: self.weight,
        }
    }
}

impl Record {
    /// Builds a record from its four attributes.
    pub fn new(target: String, port: u16, priority: u16, weight: u16) -> (r: Record)
        ensures
            r == (Record { target, port, priority, weight }),
            r@ == (RecordView { target: target@, port, priority, weight }),
    {
        Record { target, port, priority, weight }
    }

    /// Host name of the endpoint.
    pub fn target(&self) -> (target: &str)
        ensures
            target@ == self@.target,
    {
        self.target.as_str()
    }

    /// Port on which the service listens.
    pub fn port(&self) -> (port: u16)
        ensures
            port == self@.port,
    {
        self.port
    }

    /// Preference tier; a lower value is tried earlier.
    pub fn priority(&self) -> (priority: u16)
        ensures
            priority == self@.priority,
    {
        self.priority
    }

    /// Relative share of the picks within the tier.
    pub fn weight(&self) -> (weight: u16)
        ensures
            weight == self@.weight,
    {
        self.weight
    }
}

} // verus!
