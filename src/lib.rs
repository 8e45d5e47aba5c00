//! Documentation carried in a component's `package-docs` custom section:
//! framing of the section payload, and weaving of the documentation back
//! into the textual rendering of the component's interface.

pub mod text;
pub mod tree;
pub mod inject;
pub mod codec;
pub mod rewrite;
pub mod render;
