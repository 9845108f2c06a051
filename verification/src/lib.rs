//! Wire-level session engine for a networked digital mixing console.
//!
//! The console exposes its parameters as a tree of typed nodes and speaks a
//! byte-oriented protocol over TCP (tree navigation, property get/set, node
//! definitions) and UDP (meter telemetry).  This crate holds the pure,
//! verified core of a client for that protocol: the escape-byte frame
//! decoder with its channel demultiplexer, the typed-value codec, the
//! response dispatcher, the node-definition parser, the meter and discovery
//! codecs, and the keepalive discipline.  All sockets, clocks and threads
//! live outside the crate; callers feed received bytes in and carry encoded
//! bytes out.

use vstd::prelude::*;

pub mod bytes;
pub mod discovery;
pub mod frame;
pub mod keepalive;
pub mod laws;
pub mod meters;
pub mod node;
pub mod session;
pub mod text;
pub mod wire;

pub use meters::Meter;
pub use node::{NodeType, NodeUnit, WingNodeData, WingNodeDef};

verus! {

/// `std::io::Error` appears opaquely inside `Error::Io`; the engine never
/// reads one, it only carries what the surrounding I/O code stored there.
#[verifier::external_type_specification]
#[verifier::external_body]
pub struct ExIoError(std::io::Error);

/// The failures the engine can report.  `Io` carries an error of the
/// platform's socket layer, raised only by the surrounding I/O code;
/// the engine itself raises the other three.
#[derive(Debug)]
pub enum Error {
    Io(std::io::Error),
    InvalidData,
    ConnectionError,
    DiscoveryError,
}

/// One decoded message from the console.
pub enum WingResponse {
    RequestEnd,
    NodeDef(node::WingNodeDef),
    NodeData(i8, i32, node::WingNodeData),
}

/// Specification-level image of a response: node-definition bodies as the
/// raw decoded bytes, string values as their UTF-8 bytes.
pub enum SpecResponse {
    End,
    Def { body: Seq<u8> },
    Data { ch: i8, id: i32, val: node::SpecValue },
}

impl View for WingResponse {
    type V = SpecResponse;

    open spec fn view(&self) -> SpecResponse {
        match self {
            WingResponse::RequestEnd => SpecResponse::End,
            WingResponse::NodeDef(d) => SpecResponse::Def { body: d.raw@ },
            WingResponse::NodeData(ch, id, v) => SpecResponse::Data { ch: *ch, id: *id, val: v@ },
        }
    }
}

/// The kind of a response, without its payload.
#[derive(Clone, Copy, PartialEq, Eq, Structural, Debug)]
pub enum ResponseType {
    End,
    NodeDefinition,
    NodeData,
}

impl WingResponse {
    /// The kind of this response.
    pub fn response_type(&self) -> (r: ResponseType)
        ensures
            r == (match self@ {
                SpecResponse::End => ResponseType::End,
                SpecResponse::Def { .. } => ResponseType::NodeDefinition,
                SpecResponse::Data { .. } => ResponseType::NodeData,
            }),
    {
        match self {
            WingResponse::RequestEnd => ResponseType::End,
            WingResponse::NodeDef(_) => ResponseType::NodeDefinition,
            WingResponse::NodeData(_, _, _) => ResponseType::NodeData,
        }
    }
}

/// A response boxed for handing across an opaque-handle interface.
pub struct ResponseHandle {
    pub response: WingResponse,
}

/// A batch of discovery results boxed for handing across an opaque-handle
/// interface.
pub struct WingDiscoveryInfoHandle {
    pub info: Vec<DiscoveryInfo>,
}

/// One console found on the local network.
pub struct DiscoveryInfo {
    pub ip: String,
    pub name: String,
    pub model: String,
    pub serial: String,
    pub firmware: String,
}

} // verus!
