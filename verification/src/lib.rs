//! Core of a lightweight 3D modeler: mesh topology, undo history,
//! file-format framing and the editor's configuration enums.
pub mod engine;
pub mod io;
pub mod mesh;
pub mod scene;
pub mod text;
pub mod ui;

use vstd::prelude::*;

verus! {

} // verus!
