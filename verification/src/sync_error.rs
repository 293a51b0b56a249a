//! Errors of the synchronizing client, with the messages shown to users.

use vstd::prelude::*;
use vstd::string::StringExecFns;
use crate::text::digits;
use crate::text::hex_string;

verus! {

/// Errors that can occur when using the synchronizing client.
#[derive(Debug, Clone)]
pub enum SyncError {
    /// The WebSocket is not connected to the server.
    NotConnected,
    /// Component data from the server could not be decoded.
    DeserializationFailed { component_name: String, error: String },
    /// The component type is not registered.
    TypeNotRegistered { component_name: String },
    /// Client and server disagree on the schema of a component type.
    SchemaHashMismatch { component_name: String, expected: u64, actual: u64 },
    /// The WebSocket layer reported an error.
    WebSocketError { message: String },
    /// Component data could not be encoded for a mutation.
    SerializationFailed { component_name: String, error: String },
}

/// `{:#x}` of a number.
pub open spec fn hex_text(n: u64) -> Seq<char> {
    "0x"@ + digits(n as nat, 16)
}

/// The message of an error.
pub open spec fn spec_error_message(e: SyncError) -> Seq<char> {
    match e {
        SyncError::NotConnected => "Not connected to server"@,
        SyncError::DeserializationFailed { component_name, error } => "Failed to deserialize component '"@
            + component_name@ + "': "@ + error@,
        SyncError::TypeNotRegistered { component_name } => "Component type '"@ + component_name@
            + "' is not registered in the ClientRegistry. Did you forget to call registry.register::<"@
            + component_name@ + ">()?"@,
        SyncError::SchemaHashMismatch { component_name, expected, actual } => "Schema hash mismatch for component '"@
            + component_name@ + "': expected "@ + hex_text(expected) + ", got "@ + hex_text(actual)
            + ". This usually means the client and server have different versions of the type definition."@,
        SyncError::WebSocketError { message } => "WebSocket error: "@ + message@,
        SyncError::SerializationFailed { component_name, error } => "Failed to serialize component '"@
            + component_name@ + "': "@ + error@,
    }
}

impl SyncError {
    /// The message shown to users.
    pub fn message(&self) -> (r: String)
        ensures
            r@ == spec_error_message(*self),
    {
        match self {
            SyncError::NotConnected => String::from_str("Not connected to server"),
            SyncError::DeserializationFailed { component_name, error } => {
                let mut s = String::from_str("Failed to deserialize component '");
                s.append(component_name.as_str());
                s.append("': ");
                s.append(error.as_str());
                s
            },
            SyncError::TypeNotRegistered { component_name } => {
                let mut s = String::from_str("Component type '");
                s.append(component_name.as_str());
                s.append(
                    "' is not registered in the ClientRegistry. Did you forget to call registry.register::<",
                );
                s.append(component_name.as_str());
                s.append(">()?");
                s
            },
            SyncError::SchemaHashMismatch { component_name, expected, actual } => {
                let mut s = String::from_str("Schema hash mismatch for component '");
                s.append(component_name.as_str());
                s.append("': expected ");
                let e = hex_string(*expected);
                s.append(e.as_str());
                s.append(", got ");
                let a = hex_string(*actual);
                s.append(a.as_str());
                s.append(
                    ". This usually means the client and server have different versions of the type definition.",
                );
                s
            },
            SyncError::WebSocketError { message } => {
                let mut s = String::from_str("WebSocket error: ");
                s.append(message.as_str());
                s
            },
            SyncError::SerializationFailed { component_name, error } => {
                let mut s = String::from_str("Failed to serialize component '");
                s.append(component_name.as_str());
                s.append("': ");
                s.append(error.as_str());
                s
            },
        }
    }
}

} // verus!
