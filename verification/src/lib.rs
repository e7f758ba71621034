//! A file-backed list of timestamped text items: the rules of the four store
//! commands, stated and proved over the collection that the store file holds.
//!
//! The library reads and writes no file. A caller reads the store file into a
//! [`StoreFile`], hands it to a command, and writes the collection that the
//! command gives back.

mod clock;
pub mod item;
pub mod laws;
pub mod model;
pub mod path;
pub mod store;

pub use item::{TextItem, TextItemView};
pub use path::{get_data_path, DATA_FILE};
pub use store::{
    add_text, append_text, delete_text, largest_id, load_texts, update_text, StoreFile, NOT_FOUND,
};
