pub mod text;
pub mod stamp;
pub mod markup;
pub mod laws;
pub mod note;
pub mod printers;
