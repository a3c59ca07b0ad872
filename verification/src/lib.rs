//! A tick-driven behavior-tree engine.
//!
//! Each agent owns a small tree of nodes; once per turn the tree is ticked
//! with mutable access to a caller-chosen environment value, and the root
//! returns a [`status::BtState`] describing whether the agent's current
//! activity is still in progress, has completed, or has failed.
//!
//! The engine consists of the status model, the node capability trait,
//! leaf constructors, the two composites (sequence and selector), and the
//! interrupt decorator. The environment is fully opaque to the engine.
//!
//! Every tick is bound to its node type's transition relation
//! ([`node::BtNode::stepped`]): the composites' relations explain each tick
//! child by child through a pure model of the walk ([`composite::seq_tick`],
//! [`composite::sel_tick`]), and the leaves' and decorator's relations key
//! the outcome to the verdict of the user-supplied predicate or behavior.
//! The laws that follow — single-tick collapse, cursor reset on a terminal
//! status, resuming at the running child, the sequence/selector duality,
//! and the verdict-driven leaf and interrupt outcomes — are proved in
//! [`laws`], both of the walk models and of the tick relations themselves.

pub mod composite;
pub mod interrupt;
pub mod laws;
pub mod node;
pub mod status;
