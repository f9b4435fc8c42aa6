//! A worker-side library for stateful functions that cooperate with an
//! external stream-processing coordinator. The coordinator owns the durable
//! message log and the per-key persistent state; this library owns the pure
//! translation of one invocation batch into one response describing the
//! side effects the coordinator should enact: outgoing messages, delayed
//! messages, cancellations, egress records, and state mutations.

pub mod address;
pub mod codec;
pub mod context;
pub mod effects;
pub mod envelope;
pub mod error;
pub mod egress_identifier;
pub mod expiration;
pub mod function_registry;
pub mod function_type;
pub mod invocation_bridge;
pub mod kafka;
pub mod laws;
pub mod message;
pub mod missing_states;
pub mod built_in_types;
pub mod request_reply;
pub mod serialization;
pub mod traits;
pub mod type_spec;
pub mod typed_value;
pub mod value_spec;
pub mod views;

pub use crate::address::Address;
pub use crate::built_in_types::BuiltInTypes;
pub use crate::context::Context;
pub use crate::effects::Effects;
pub use crate::error::InvocationError;
pub use crate::message::{Message, StateMessage};
pub use crate::missing_states::{MissingStateCollection, MissingStates};
pub use crate::egress_identifier::EgressIdentifier;
pub use crate::expiration::{Expiration, ExpirationType};
pub use crate::function_registry::{FunctionRegistry, InvokableFunction};
pub use crate::function_type::FunctionType;
pub use crate::kafka::{KafkaEgress, KafkaProducerRecord};
pub use crate::request_reply::{FromFunction, ToFunction};
pub use crate::traits::{Serializable, TypeName};
pub use crate::type_spec::{GetTypename, TypeSpec};
pub use crate::typed_value::TypedValue;
pub use crate::value_spec::{ValueSpec, ValueSpecBase};
