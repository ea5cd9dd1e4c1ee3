//! Reading a package archive: the outer container, its two compressed
//! members, the control fields and the list of installed files.

pub mod codec;
pub mod container;
pub mod control;
pub mod introspect;
pub mod plain;
pub mod tarball;
