use vstd::prelude::*;

pub mod codec;
pub mod discovery;
pub mod domain;
pub mod elements;
pub mod history;
pub mod messages;
pub mod participant;
pub mod partition;
pub mod publisher;
pub mod qos;
pub mod reader;
pub mod receiver;
pub mod roundtrip;
pub mod stateless;
pub mod subscriber;
pub mod types;
pub mod writer;

verus! {

} // verus!
