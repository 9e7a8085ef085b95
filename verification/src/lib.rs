//! Source navigation for a shading-language editor: given a cursor position
//! in one parsed file, find where the symbol under the cursor is defined and
//! where it is referenced.
//!
//! The syntax tree is held as plain data (`model`), cursor positions are
//! mapped to byte offsets (`linemap`), the structural searches run over the
//! tree (`search`), and `context` ties one file snapshot together and applies
//! the decision table that picks a search strategy. `laws` states and proves
//! the properties the searches guarantee.

pub mod context;
pub mod laws;
pub mod linemap;
pub mod model;
pub mod search;
pub mod uri;
