//! Core of a node-graph editor for small state machines: the attribute-type
//! registry, the state nodes that refer to it, the side panel that edits it,
//! the layout of a node's rows, and the drag protocol that wires connectors
//! together with noodles.

pub mod curve;
pub mod entity_map;
pub mod interaction;
pub mod node_drag;
pub mod noodle;
pub mod panel;
pub mod registry;
pub mod render;
pub mod seed;
pub mod state;
pub mod text_input;
pub mod text_order;

pub use noodle::Connector;
pub use panel::{SidePanel, StateNameTextInput};
pub use registry::{
    RegistryError, StateId, StateType, StateTypeAdded, StateTypeData, StateTypeNameChanged,
    StateTypeRemoved, StateTypes,
};
pub use state::{State, StateTypeValue, StateValue};
