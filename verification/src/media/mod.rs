//! Where sound comes from and goes to.

pub mod adapter;
pub mod hardware;
pub mod headless;

pub use adapter::MediaAdapter;
pub use headless::HeadlessAdapter;
