//! The thumbnail loading core of a desktop wallpaper picker: a bounded
//! least-recently-used cache of decoded thumbnails, the folder scan, and the
//! rules by which decode workers and the drawing loop hand results over and
//! stop when a newer folder load supersedes them.

pub mod cache;
pub mod cache_laws;
pub mod channel;
pub mod config;
pub mod lifecycle;
pub mod loader;
pub mod pipeline;
pub mod scanner;
pub mod shared;
pub mod sink;
pub mod text;
pub mod thumbnail;
pub mod token;

pub use cache::{ImageCache, CACHE_SIZE};
pub use channel::Poll;
pub use config::{
    load_last_path, load_last_wallpaper, load_wallpaper_backend, save_last_path,
    save_last_wallpaper, save_wallpaper_backend, WallpaperBackend,
};
pub use loader::{Generation, ImageLoader};
pub use pipeline::{process_path, run_workers, WorkerStep, THUMBNAIL_SIZE};
pub use scanner::{has_image_extension, scan_folder, DirEntry};
pub use shared::SharedCache;
pub use sink::{ControlFlow, Tick, TickReport, TickState, UiSink, BATCH_SIZE};
pub use thumbnail::{GridEntry, PendingResult, Thumbnail};
pub use token::CancellationToken;
