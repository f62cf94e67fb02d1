//! The completion menu of a text editor: which suggestions are shown, in what
//! order, and what accepting one does to the document.
pub mod completion;
pub mod documentation;
pub mod drawing_laws;
pub mod edits;
pub mod fuzzy;
pub mod insertion;
pub mod insertion_laws;
pub mod item_laws;
pub mod items;
pub mod laws;
pub mod menu_laws;
pub mod ranking;
pub mod rows;
pub mod runs;
pub mod text;
