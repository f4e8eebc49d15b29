//! Support logic for a desktop image gallery: picking image files out of a
//! directory walk, and preparing a decoded image for the system clipboard.
mod clipboard_image;
mod imaging;
mod path;
mod scan;

pub use clipboard_image::{decode_for_clipboard, CopyError, RawImagePayload};
pub use path::{extract_file_name, extract_file_path, file_extension};
pub use scan::{collect_images, image_record, is_image_extension, PathMetadata, WalkEntry};
